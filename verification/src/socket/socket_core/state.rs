use vstd::arithmetic::power2::{lemma2_to64, lemma_pow2_strictly_increases, lemma_pow2_unfold, pow2};
use vstd::prelude::*;

use fibre::mpmc::AsyncSender;

use crate::id_map::IdMap;
use crate::message::Msg;
use crate::socket::events::SocketEvent;
use crate::socket::options::SocketOptions;
use crate::socket::types::SocketType;
use crate::time;
use crate::time::{Duration, Instant};
use crate::uri_map::UriMap;

verus! {

/// How the core reaches a peer: the number under which the connection's interface is
/// kept, and whether that interface is an io_uring descriptor.
#[derive(Debug, Clone, Copy, PartialEq, Eq, Structural)]
pub struct ConnectionRef {
    pub id: usize,
    pub is_uring: bool,
}

/// What an endpoint is: a listener, or one connection.
#[derive(Debug, Clone, Copy, PartialEq, Eq, Structural)]
pub enum EndpointType {
    Listener,
    Session,
}

/// An active endpoint of a socket.
#[derive(Debug)]
pub struct EndpointInfo {
    /// The task that serves the endpoint, where the core owns one.
    pub task: Option<usize>,
    pub endpoint_type: EndpointType,
    /// The resolved URI.
    pub endpoint_uri: String,
    /// The pipe that the core writes to and the pipe that it reads from.
    pub pipe_ids: Option<(usize, usize)>,
    /// The handle of the endpoint's actor, or its descriptor.
    pub handle_id: usize,
    /// The URI that was asked for, where the connection is an outgoing one.
    pub target_endpoint_uri: Option<String>,
    pub is_outbound_connection: bool,
    pub peer_socket_type: Option<String>,
    pub connection: ConnectionRef,
}

// ---------------------------------------------------------------------------
// Reconnecting
// ---------------------------------------------------------------------------
/// How often a connection has failed in a row, and when it is tried again.
#[derive(Debug, Clone, Copy)]
pub struct ReconnectState {
    pub current_attempts: u32,
    pub next_attempt_at: Option<Instant>,
}

/// The wait before another attempt after `attempts` failures, in nanoseconds: the base
/// interval doubled for each failure, up to 31 times, and no more than the maximum
/// where there is one.
pub open spec fn backoff(base: nat, max: nat, attempts: nat) -> nat {
    let doublings = if attempts < 31 {
        attempts
    } else {
        31
    };
    let grown = base * pow2(doublings);
    let fitting = if grown <= time::MAX_DURATION_NANOS {
        grown
    } else {
        time::MAX_DURATION_NANOS as nat
    };
    if max > 0 && max < fitting {
        max
    } else {
        fitting
    }
}

/// Two to the power of `n`.
fn power_of_two(n: u32) -> (m: u32)
    requires
        n <= 31,
    ensures
        m == pow2(n as nat),
{
    let mut m: u32 = 1;
    let mut i: u32 = 0;
    proof {
        lemma2_to64();
    }
    while i < n
        invariant
            i <= n <= 31,
            m == pow2(i as nat),
        decreases n - i,
    {
        proof {
            lemma_pow2_unfold((i + 1) as nat);
            lemma2_to64();
            if i < 30 {
                lemma_pow2_strictly_increases(i as nat, 30);
            }
        }
        m = m * 2;
        i += 1;
    }
    m
}

impl Default for ReconnectState {
    fn default() -> (s: ReconnectState)
        ensures
            s == (ReconnectState { current_attempts: 0, next_attempt_at: None }),
    {
        ReconnectState { current_attempts: 0, next_attempt_at: None }
    }
}

impl ReconnectState {
    /// Starts over: the connection was established.
    pub fn on_connection_success(&mut self)
        ensures
            *final(self) == (ReconnectState { current_attempts: 0, next_attempt_at: None }),
    {
        self.current_attempts = 0;
        self.next_attempt_at = None;
    }

    /// Counts a failure and sets the time of the next attempt. Returns the wait.
    pub fn on_connection_failure(
        &mut self,
        base_ivl: Duration,
        max_ivl: Duration,
        now: Instant,
    ) -> (delay: Duration)
        requires
            now.spec_nanos() + backoff(
                base_ivl.spec_nanos(),
                max_ivl.spec_nanos(),
                old(self).current_attempts as nat,
            ) <= time::MAX_INSTANT_NANOS,
        ensures
            delay.spec_nanos() == backoff(
                base_ivl.spec_nanos(),
                max_ivl.spec_nanos(),
                old(self).current_attempts as nat,
            ),
            final(self).current_attempts == if old(self).current_attempts == u32::MAX {
                u32::MAX as int
            } else {
                old(self).current_attempts + 1
            },
            final(self).next_attempt_at matches Some(t) && t.spec_nanos() == now.spec_nanos()
                + delay.spec_nanos(),
    {
        let doublings: u32 = if self.current_attempts < 31 {
            self.current_attempts
        } else {
            31
        };
        let mut delay = base_ivl.saturating_mul(power_of_two(doublings));
        if !max_ivl.is_zero() {
            delay = delay.min(max_ivl);
        }
        self.current_attempts = self.current_attempts.saturating_add(1);
        self.next_attempt_at = now.checked_add(delay);
        delay
    }

    /// Whether an attempt is set for now or earlier.
    pub fn is_due(&self, now: Instant) -> (b: bool)
        ensures
            b == (self.next_attempt_at matches Some(t) && now.spec_nanos() >= t.spec_nanos()),
    {
        match self.next_attempt_at {
            Some(time) => now.reached(time),
            None => false,
        }
    }
}

/// The wait never shrinks as failures go on.
pub proof fn backoff_grows(base: nat, max: nat, a: nat, b: nat)
    requires
        a <= b,
    ensures
        backoff(base, max, a) <= backoff(base, max, b),
{
    let da = if a < 31 { a } else { 31 };
    let db = if b < 31 { b } else { 31 };
    if da < db {
        lemma_pow2_strictly_increases(da, db);
    }
    assert(base * pow2(da) <= base * pow2(db)) by (nonlinear_arith)
        requires
            pow2(da) <= pow2(db),
            base >= 0,
    ;
}

/// The wait never exceeds a maximum that is set.
pub proof fn backoff_is_capped(base: nat, max: nat, attempts: nat)
    requires
        max > 0,
    ensures
        backoff(base, max, attempts) <= max,
{
}

/// The first wait after a success is the base interval, or the maximum where that is
/// set and shorter.
pub proof fn backoff_starts_at_base(base: nat, max: nat)
    requires
        base <= time::MAX_DURATION_NANOS,
    ensures
        backoff(base, max, 0) == if max > 0 && max < base {
            max
        } else {
            base
        },
{
    lemma2_to64();
    assert(base * pow2(0) == base) by (nonlinear_arith)
        requires
            pow2(0) == 1,
    ;
}

// ---------------------------------------------------------------------------
// The core's state
// ---------------------------------------------------------------------------
/// What a socket's core knows.
#[derive(Debug)]
pub struct CoreState {
    pub handle: usize,
    pub options: SocketOptions,
    pub socket_type: SocketType,
    /// The sending ends of the pipes that the core writes to.
    pub pipes_tx: IdMap<AsyncSender<Vec<Msg>>>,
    /// The tasks that read the pipes that the core reads from.
    pub pipe_reader_tasks: IdMap<usize>,
    /// The active endpoints, by resolved URI.
    pub endpoints: UriMap<EndpointInfo>,
    /// The connections that failed, by target URI.
    pub reconnect_states: UriMap<ReconnectState>,
    /// The endpoint of each pipe that the core reads from.
    pub pipe_read_id_to_endpoint_uri: IdMap<String>,
    /// The endpoint of each pipe that the core only writes to.
    pub pipe_write_id_to_endpoint_uri: IdMap<String>,
    /// The endpoint of each io_uring descriptor.
    pub uring_fd_to_endpoint_uri: IdMap<String>,
    pub bound_inproc_names: UriMap<()>,
    /// Whether a monitor is attached.
    pub monitored: bool,
    pub last_bound_endpoint: Option<String>,
}

/// What is left to do when a pipe has been taken out of the core's tables.
#[derive(Debug)]
pub struct PipeRemoval {
    /// Whether any table held the pipe.
    pub removed: bool,
    /// The reader task to stop.
    pub abort_reader: Option<usize>,
}

impl CoreState {
    /// Nothing has been bound or connected.
    pub open spec fn is_new(self) -> bool {
        &&& self.pipes_tx@ == Map::<usize, AsyncSender<Vec<Msg>>>::empty()
        &&& self.pipe_reader_tasks@ == Map::<usize, usize>::empty()
        &&& self.endpoints@ == Map::<Seq<char>, EndpointInfo>::empty()
        &&& self.reconnect_states@ == Map::<Seq<char>, ReconnectState>::empty()
        &&& self.pipe_read_id_to_endpoint_uri@ == Map::<usize, String>::empty()
        &&& self.pipe_write_id_to_endpoint_uri@ == Map::<usize, String>::empty()
        &&& self.uring_fd_to_endpoint_uri@ == Map::<usize, String>::empty()
        &&& self.bound_inproc_names@ == Map::<Seq<char>, ()>::empty()
        &&& !self.monitored
        &&& self.last_bound_endpoint is None
    }

    pub fn new(handle: usize, socket_type: SocketType, options: SocketOptions) -> (s: CoreState)
        ensures
            s.handle == handle,
            s.socket_type == socket_type,
            s.options == options,
            s.is_new(),
    {
        CoreState {
            handle,
            options,
            socket_type,
            pipes_tx: IdMap::new(),
            pipe_reader_tasks: IdMap::new(),
            endpoints: UriMap::new(),
            reconnect_states: UriMap::new(),
            pipe_read_id_to_endpoint_uri: IdMap::new(),
            pipe_write_id_to_endpoint_uri: IdMap::new(),
            uring_fd_to_endpoint_uri: IdMap::new(),
            bound_inproc_names: UriMap::new(),
            monitored: false,
            last_bound_endpoint: None,
        }
    }

    /// Everything but the tables of pipes, endpoints and descriptors is the same.
    pub open spec fn same_settings(self, other: CoreState) -> bool {
        &&& self.handle == other.handle
        &&& self.options == other.options
        &&& self.socket_type == other.socket_type
        &&& self.reconnect_states == other.reconnect_states
        &&& self.pipe_write_id_to_endpoint_uri == other.pipe_write_id_to_endpoint_uri
        &&& self.bound_inproc_names == other.bound_inproc_names
        &&& self.monitored == other.monitored
        &&& self.last_bound_endpoint == other.last_bound_endpoint
    }

    /// Takes a pipe out of the tables: the core no longer writes to `pipe_write_id` nor
    /// reads from `pipe_read_id`.
    pub fn remove_pipe_state(&mut self, pipe_write_id: usize, pipe_read_id: usize) -> (r:
        PipeRemoval)
        ensures
            pipe_removed(*old(self), *final(self), pipe_write_id, pipe_read_id, r),
    {
        let tx_removed: bool = self.pipes_tx.remove(pipe_write_id).is_some();
        let abort_reader = self.pipe_reader_tasks.remove(pipe_read_id);
        let map_removed: bool = self.pipe_read_id_to_endpoint_uri.remove(pipe_read_id).is_some();
        PipeRemoval { removed: tx_removed || abort_reader.is_some() || map_removed, abort_reader }
    }

    /// What a monitor is to be told: the event, where one is attached.
    pub fn send_monitor_event(&self, event: SocketEvent) -> (r: Option<SocketEvent>)
        ensures
            r == if self.monitored {
                Some(event)
            } else {
                None
            },
    {
        if self.monitored {
            Some(event)
        } else {
            None
        }
    }

    /// The URI of the endpoint that a pipe is read from.
    pub fn uri_of_pipe(&self, pipe_read_id: usize) -> (r: Option<String>)
        ensures
            match r {
                Some(u) => self.pipe_read_id_to_endpoint_uri@.dom().contains(pipe_read_id) && u
                    == self.pipe_read_id_to_endpoint_uri@[pipe_read_id],
                None => !self.pipe_read_id_to_endpoint_uri@.dom().contains(pipe_read_id),
            },
    {
        match self.pipe_read_id_to_endpoint_uri.get(pipe_read_id) {
            Some(u) => Some(u.clone()),
            None => None,
        }
    }

    /// The connection of an endpoint.
    pub fn connection_of(&self, uri: &str) -> (r: Option<ConnectionRef>)
        ensures
            match r {
                Some(c) => self.endpoints@.dom().contains(uri@) && c
                    == self.endpoints@[uri@].connection,
                None => !self.endpoints@.dom().contains(uri@),
            },
    {
        match self.endpoints.get(uri) {
            Some(e) => Some(e.connection),
            None => None,
        }
    }

    /// The connection and the read pipe of an endpoint, where it has both.
    pub fn route_of(&self, uri: &str) -> (r: Option<(ConnectionRef, usize)>)
        ensures
            r == self.route(uri@),
    {
        match self.endpoints.get(uri) {
            Some(e) => match e.pipe_ids {
                Some((_, read_id)) => Some((e.connection, read_id)),
                None => None,
            },
            None => None,
        }
    }

    /// The connection and the read pipe of an endpoint, where it has both.
    pub open spec fn route(self, uri: Seq<char>) -> Option<(ConnectionRef, usize)> {
        if self.endpoints@.dom().contains(uri) && self.endpoints@[uri].pipe_ids is Some {
            Some((self.endpoints@[uri].connection, (self.endpoints@[uri].pipe_ids->0).1))
        } else {
            None
        }
    }
}

/// A pipe has been taken out of the tables, and `r` says what was found.
pub open spec fn pipe_removed(
    before: CoreState,
    after: CoreState,
    write_id: usize,
    read_id: usize,
    r: PipeRemoval,
) -> bool {
    &&& after.same_settings(before)
    &&& after.endpoints == before.endpoints
    &&& after.uring_fd_to_endpoint_uri == before.uring_fd_to_endpoint_uri
    &&& after.pipes_tx@ == before.pipes_tx@.remove(write_id)
    &&& after.pipe_reader_tasks@ == before.pipe_reader_tasks@.remove(read_id)
    &&& after.pipe_read_id_to_endpoint_uri@ == before.pipe_read_id_to_endpoint_uri@.remove(read_id)
    &&& r.removed == (before.pipes_tx@.dom().contains(write_id)
        || before.pipe_reader_tasks@.dom().contains(read_id)
        || before.pipe_read_id_to_endpoint_uri@.dom().contains(read_id))
    &&& r.abort_reader == if before.pipe_reader_tasks@.dom().contains(read_id) {
        Some(before.pipe_reader_tasks@[read_id])
    } else {
        None
    }
}

/// Taking a pipe out a second time finds nothing and changes nothing.
pub proof fn pipe_removal_is_idempotent(
    before: CoreState,
    once: CoreState,
    twice: CoreState,
    write_id: usize,
    read_id: usize,
    first: PipeRemoval,
    second: PipeRemoval,
)
    requires
        pipe_removed(before, once, write_id, read_id, first),
        pipe_removed(once, twice, write_id, read_id, second),
    ensures
        !second.removed,
        second.abort_reader is None,
        twice.same_settings(once),
        twice.endpoints == once.endpoints,
        twice.pipes_tx@ == once.pipes_tx@,
        twice.pipe_reader_tasks@ == once.pipe_reader_tasks@,
        twice.pipe_read_id_to_endpoint_uri@ == once.pipe_read_id_to_endpoint_uri@,
        twice.uring_fd_to_endpoint_uri == once.uring_fd_to_endpoint_uri,
{
    assert(twice.pipes_tx@ =~= once.pipes_tx@);
    assert(twice.pipe_reader_tasks@ =~= once.pipe_reader_tasks@);
    assert(twice.pipe_read_id_to_endpoint_uri@ =~= once.pipe_read_id_to_endpoint_uri@);
}

// ---------------------------------------------------------------------------
// Shutting down
// ---------------------------------------------------------------------------
/// How far a socket has been shut down.
#[derive(Debug, Clone, Copy, PartialEq, Eq, Structural)]
pub enum ShutdownPhase {
    Running,
    StoppingChildren,
    Lingering,
    CleaningPipes,
    Finished,
}

impl ShutdownPhase {
    /// The phases in the order in which they follow each other.
    pub open spec fn rank(self) -> int {
        match self {
            ShutdownPhase::Running => 0,
            ShutdownPhase::StoppingChildren => 1,
            ShutdownPhase::Lingering => 2,
            ShutdownPhase::CleaningPipes => 3,
            ShutdownPhase::Finished => 4,
        }
    }
}

/// What a shutdown still waits for.
#[derive(Debug)]
pub struct ShutdownCoordinator {
    pub state: ShutdownPhase,
    /// The listeners that have been told to stop, with their URIs.
    pub pending_child_actors: IdMap<String>,
    /// The connections that have been told to close, with their URIs.
    pub pending_connections_to_close: IdMap<(String, ConnectionRef)>,
    /// The accepted in-process connections: write pipe, read pipe, URI.
    pub inproc_connections_to_cleanup: Vec<(usize, usize, String)>,
    pub linger_deadline: Option<Instant>,
}

impl ShutdownCoordinator {
    /// No shutdown has begun.
    pub open spec fn is_new(self) -> bool {
        &&& self.state is Running
        &&& self.pending_child_actors@ == Map::<usize, String>::empty()
        &&& self.pending_connections_to_close@ == Map::<usize, (String, ConnectionRef)>::empty()
        &&& self.inproc_connections_to_cleanup@ == Seq::<(usize, usize, String)>::empty()
        &&& self.linger_deadline is None
    }
}

impl Default for ShutdownCoordinator {
    fn default() -> (c: ShutdownCoordinator)
        ensures
            c.is_new(),
    {
        ShutdownCoordinator {
            state: ShutdownPhase::Running,
            pending_child_actors: IdMap::new(),
            pending_connections_to_close: IdMap::new(),
            inproc_connections_to_cleanup: Vec::new(),
            linger_deadline: None,
        }
    }
}

// ---------------------------------------------------------------------------
// Laws
// ---------------------------------------------------------------------------
/// Each failure doubles the wait, up to 31 of them, as long as it can be represented and no
/// maximum is set.
pub proof fn backoff_doubles(base: nat, attempts: nat)
    requires
        attempts < 31,
        2 * backoff(base, 0, attempts) < time::MAX_DURATION_NANOS,
    ensures
        backoff(base, 0, attempts + 1) == 2 * backoff(base, 0, attempts),
{
    lemma_pow2_unfold(attempts + 1);
    let p = pow2(attempts);
    assert(pow2(attempts + 1) == 2 * p);
    assert(base * (2 * p) == 2 * (base * p)) by (nonlinear_arith);
}

/// A maximum changes nothing but what is above it: the wait is the shorter of the two.
pub proof fn maximum_only_bounds_the_wait(base: nat, max: nat, attempts: nat)
    requires
        max > 0,
    ensures
        backoff(base, 0, attempts) <= max ==> backoff(base, max, attempts) == backoff(
            base,
            0,
            attempts,
        ),
        backoff(base, 0, attempts) > max ==> backoff(base, max, attempts) == max,
        backoff(base, 0, attempts) <= time::MAX_DURATION_NANOS,
{
}

/// From the 31st failure on the wait stays the same.
pub proof fn backoff_levels_off(base: nat, max: nat, attempts: nat)
    requires
        attempts >= 31,
    ensures
        backoff(base, max, attempts) == backoff(base, max, 31),
{
}

/// A failure is counted, the wait goes by how many came before it, and the next attempt is due
/// when the wait is over, no sooner.
pub proof fn failure_sets_the_next_attempt(
    s: &mut ReconnectState,
    base: Duration,
    max: Duration,
    now: Instant,
    delay: Duration,
    later: Instant,
    due: bool,
)
    requires
        call_ensures(ReconnectState::on_connection_failure, (s, base, max, now), delay),
        call_ensures(ReconnectState::is_due, (final(s), later), due),
        base.spec_nanos() <= time::MAX_DURATION_NANOS,
    ensures
        old(s).current_attempts < u32::MAX ==> final(s).current_attempts == old(s).current_attempts
            + 1,
        due <==> later.spec_nanos() >= now.spec_nanos() + delay.spec_nanos(),
        old(s).current_attempts == 0 && (max.spec_nanos() == 0 || base.spec_nanos()
            <= max.spec_nanos()) ==> delay.spec_nanos() == base.spec_nanos(),
        max.spec_nanos() > 0 ==> delay.spec_nanos() <= max.spec_nanos(),
        delay.spec_nanos() == backoff(
            base.spec_nanos(),
            max.spec_nanos(),
            old(s).current_attempts as nat,
        ),
{
    backoff_starts_at_base(base.spec_nanos(), max.spec_nanos());
}

/// A success forgets every failure: nothing is due, and the next failure waits the base
/// interval again.
pub proof fn success_starts_over(s: &mut ReconnectState, now: Instant, due: bool, fresh: ReconnectState)
    requires
        call_ensures(ReconnectState::on_connection_success, (s,), ()),
        call_ensures(ReconnectState::is_due, (final(s), now), due),
        call_ensures(ReconnectState::default, (), fresh),
    ensures
        final(s).current_attempts == 0,
        final(s).next_attempt_at is None,
        !due,
        fresh.current_attempts == 0 && fresh.next_attempt_at is None,
{
}

/// An endpoint is routed to by its own connection and the pipe that is read from it.
pub proof fn endpoint_is_reached_by_its_own_connection(
    core: &CoreState,
    uri: &str,
    route: Option<(ConnectionRef, usize)>,
    connection: Option<ConnectionRef>,
    pipe: usize,
    of_pipe: Option<String>,
)
    requires
        call_ensures(CoreState::route_of, (core, uri), route),
        call_ensures(CoreState::connection_of, (core, uri), connection),
        call_ensures(CoreState::uri_of_pipe, (core, pipe), of_pipe),
    ensures
        !core.endpoints@.dom().contains(uri@) ==> route is None && connection is None,
        core.endpoints@.dom().contains(uri@) ==> connection == Some(core.endpoints@[uri@].connection),
        core.endpoints@.dom().contains(uri@) && core.endpoints@[uri@].pipe_ids is None
            ==> route is None,
        core.endpoints@.dom().contains(uri@) && core.endpoints@[uri@].pipe_ids is Some ==> route
            == Some(
            (core.endpoints@[uri@].connection, (core.endpoints@[uri@].pipe_ids->0).1),
        ),
        core.pipe_read_id_to_endpoint_uri@.dom().contains(pipe) ==> of_pipe == Some(
            core.pipe_read_id_to_endpoint_uri@[pipe],
        ),
        !core.pipe_read_id_to_endpoint_uri@.dom().contains(pipe) ==> of_pipe is None,
{
}

/// A monitor is told of every event, and nobody is where there is none.
pub proof fn monitor_is_told(core: &CoreState, event: SocketEvent, r: Option<SocketEvent>)
    requires
        call_ensures(CoreState::send_monitor_event, (core, event), r),
    ensures
        core.monitored ==> r == Some(event),
        !core.monitored ==> r is None,
{
}

/// A pipe that is taken out is gone from every table, its reader is stopped, and no other pipe
/// or endpoint is touched.
pub proof fn removed_pipe_is_gone(
    core: &mut CoreState,
    write: usize,
    read: usize,
    r: PipeRemoval,
    other: usize,
)
    requires
        call_ensures(CoreState::remove_pipe_state, (core, write, read), r),
        other != write,
        other != read,
    ensures
        !final(core).pipes_tx@.dom().contains(write),
        !final(core).pipe_reader_tasks@.dom().contains(read),
        !final(core).pipe_read_id_to_endpoint_uri@.dom().contains(read),
        final(core).pipes_tx@.dom().contains(other) <==> old(core).pipes_tx@.dom().contains(other),
        final(core).pipe_reader_tasks@.dom().contains(other) <==> old(core).pipe_reader_tasks@.dom().contains(other),
        final(core).pipe_read_id_to_endpoint_uri@.dom().contains(other) <==> old(core).pipe_read_id_to_endpoint_uri@.dom().contains(other),
        old(core).pipe_reader_tasks@.dom().contains(read) ==> r.abort_reader == Some(
            old(core).pipe_reader_tasks@[read],
        ) && r.removed,
        !old(core).pipe_reader_tasks@.dom().contains(read) ==> r.abort_reader is None,
        old(core).pipes_tx@.dom().contains(write) || old(core).pipe_read_id_to_endpoint_uri@.dom().contains(read) ==> r.removed,
        final(core).endpoints == old(core).endpoints,
        final(core).options == old(core).options,
{
}

/// A new core knows nobody, and its shutdown has not begun.
pub proof fn core_starts_empty(
    handle: usize,
    socket_type: SocketType,
    options: SocketOptions,
    core: CoreState,
    shutdown: ShutdownCoordinator,
    uri: Seq<char>,
    pipe: usize,
)
    requires
        call_ensures(CoreState::new, (handle, socket_type, options), core),
        call_ensures(ShutdownCoordinator::default, (), shutdown),
    ensures
        core.handle == handle && core.socket_type == socket_type && core.options == options,
        !core.endpoints@.dom().contains(uri),
        !core.reconnect_states@.dom().contains(uri),
        !core.bound_inproc_names@.dom().contains(uri),
        !core.pipe_read_id_to_endpoint_uri@.dom().contains(pipe),
        !core.pipes_tx@.dom().contains(pipe),
        !core.monitored && core.last_bound_endpoint is None,
        shutdown.state is Running && shutdown.linger_deadline is None,
        !shutdown.pending_child_actors@.dom().contains(pipe),
        !shutdown.pending_connections_to_close@.dom().contains(pipe),
        shutdown.inproc_connections_to_cleanup@.len() == 0,
{
}

} // verus!
