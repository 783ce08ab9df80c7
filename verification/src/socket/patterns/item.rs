use vstd::prelude::*;

use crate::message::Msg;

verus! {

/// Where a request came from and how its reply finds the way back.
#[derive(Debug)]
pub struct PeerInfo {
    pub source_pipe_read_id: usize,
    pub target_endpoint_uri: String,
    /// The frames in front of the payload, up to and with the empty delimiter.
    pub routing_prefix: Vec<Msg>,
}

/// What a received message is known to come from.
#[derive(Debug)]
pub enum Origin {
    /// Nothing is recorded.
    Unknown,
    /// The sender's identity.
    Identity(Vec<u8>),
    /// The requesting peer.
    Request(PeerInfo),
}

/// A message on its way from the pipes to the application.
#[derive(Debug)]
pub struct QueueItem {
    pub origin: Origin,
    pub frames: Vec<Msg>,
}

/// What happens on a pipe.
#[derive(Debug)]
pub enum PipeEvent {
    MessageReceived(Msg),
    ClosedByPeer,
}

} // verus!
