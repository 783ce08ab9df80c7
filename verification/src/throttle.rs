use vstd::prelude::*;

verus! {

/// Which direction of I/O a throttle favours.
#[derive(Debug, Clone, Copy, PartialEq, Eq, Structural)]
pub enum Priority {
    /// Outgoing data, as a server would.
    Egress,
    /// Incoming data, as a client would.
    Ingress,
    /// Both alike.
    Neither,
}

/// The direction of work, seen from the actor.
#[derive(Debug, Clone, Copy, PartialEq, Eq, Structural)]
pub enum Direction {
    /// Work that comes in, such as reading from a connection.
    Ingress,
    /// Work that goes out, such as writing to a connection.
    Egress,
}

} // verus!
