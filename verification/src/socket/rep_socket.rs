use vstd::prelude::*;

use crate::error::ZmqError;
use crate::id_map::IdMap;
use crate::message;
use crate::message::{mark_frames, Msg};
use crate::socket::patterns::incoming_orchestrator;
use crate::socket::patterns::incoming_orchestrator::{
    socket_is_closing, FrameStep, IncomingMessageOrchestrator, ItemStep, MultipartStep, RecvStep,
};
use crate::socket::patterns::item::{Origin, PeerInfo, PipeEvent, QueueItem};
use crate::socket::socket_core::state::{ConnectionRef, CoreState};

verus! {

/// Whose turn it is: a peer's to send a request, or the application's to reply.
#[derive(Debug)]
pub enum RepState {
    ReadyToReceive,
    ReceivedRequest(PeerInfo),
}

/// Receives a request, then sends its reply.
#[derive(Debug)]
pub struct RepSocket {
    pub incoming: IncomingMessageOrchestrator,
    pub state: RepState,
    pub pipe_read_id_to_endpoint_uri: IdMap<String>,
}

/// The number of frames up to and with the first empty one, or 0 where none is empty.
pub open spec fn prefix_len(frames: Seq<Msg>) -> int
    decreases frames.len(),
{
    if frames.len() == 0 {
        0
    } else if frames[0]@.data.len() == 0 {
        1
    } else {
        let rest = prefix_len(frames.skip(1));
        if rest == 0 {
            0
        } else {
            1 + rest
        }
    }
}

proof fn lemma_prefix_len(frames: Seq<Msg>, n: int)
    requires
        0 <= n <= frames.len(),
        forall|j: int| 0 <= j < n ==> (#[trigger] frames[j])@.data.len() > 0,
        n < frames.len() ==> frames[n]@.data.len() == 0,
    ensures
        prefix_len(frames) == if n < frames.len() {
            n + 1
        } else {
            0
        },
    decreases frames.len(),
{
    if n > 0 {
        assert forall|j: int| 0 <= j < n - 1 implies (#[trigger] frames.skip(1)[j])@.data.len() > 0 by {
            assert(frames.skip(1)[j] == frames[j + 1]);
        }
        assert(frames[0]@.data.len() > 0);
        lemma_prefix_len(frames.skip(1), n - 1);
    }
}

/// Splits the frames of a request: the routing prefix runs up to and with the first empty
/// frame, and is empty where there is none; the rest is the payload.
pub fn split_request(frames: Vec<Msg>) -> (r: (Vec<Msg>, Vec<Msg>))
    ensures
        0 <= prefix_len(frames@) <= frames@.len(),
        r.0@ == frames@.take(prefix_len(frames@)),
        r.1@ == frames@.skip(prefix_len(frames@)),
{
    let ghost all = frames@;
    let mut i: usize = 0;
    while i < frames.len()
        invariant_except_break
            i <= all.len(),
            all == frames@,
            forall|j: int| 0 <= j < i ==> (#[trigger] all[j])@.data.len() > 0,
        ensures
            i <= all.len(),
            forall|j: int| 0 <= j < i ==> (#[trigger] all[j])@.data.len() > 0,
            i < all.len() ==> all[i as int]@.data.len() == 0,
        decreases all.len() - i,
    {
        if frames[i].size() == 0 {
            break;
        }
        i += 1;
    }
    proof {
        lemma_prefix_len(all, i as int);
    }
    let n: usize = if i < frames.len() {
        i + 1
    } else {
        0
    };
    let mut prefix = frames;
    let payload = prefix.split_off(n);
    assert(payload@ =~= all.skip(n as int));
    assert(prefix@ =~= all.take(n as int));
    (prefix, payload)
}

/// The next step of a reply.
#[derive(Debug)]
pub enum ReplyStep {
    Done(Result<(), ZmqError>),
    /// Send the frames to the connection; what comes of it is the outcome of the reply.
    Send(ConnectionRef, Vec<Msg>),
}

/// The frames of a reply on the wire: the request's routing prefix, then the payload, or one
/// empty frame where there is none.
pub open spec fn reply_frames(prefix: Seq<message::Frame>, payload: Seq<message::Frame>) -> Seq<
    message::Frame,
> {
    message::marked(
        prefix + if payload.len() == 0 {
            seq![message::Frame::of(Seq::empty())]
        } else {
            payload
        },
    )
}

/// Receiving again while a reply is owed.
pub open spec fn is_reply_owed_error(e: ZmqError) -> bool {
    e matches ZmqError::InvalidState(m) && m@
        == "REP socket must call send() before receiving again"@
}

fn reply_owed() -> (e: ZmqError)
    ensures
        is_reply_owed_error(e),
{
    ZmqError::InvalidState("REP socket must call send() before receiving again".to_owned())
}

/// The state of a REP after it has taken a message from its queue.
pub open spec fn state_after(item: QueueItem, before: RepState) -> RepState {
    match item.origin {
        Origin::Request(peer) => RepState::ReceivedRequest(peer),
        _ => before,
    }
}

impl RepSocket {
    /// Every message in the queue is a request.
    pub open spec fn wf(self) -> bool {
        &&& self.incoming.wf()
        &&& forall|i: int|
            0 <= i < self.incoming.queued().len() ==> (
            #[trigger] self.incoming.queued()[i]).origin is Request
    }

    /// Nobody has come yet, and nothing has arrived.
    pub open spec fn is_new(self, rcvhwm: usize) -> bool {
        &&& self.state is ReadyToReceive
        &&& self.incoming.is_new(rcvhwm)
        &&& self.pipe_read_id_to_endpoint_uri@ == Map::<usize, String>::empty()
    }

    pub fn new(core: &CoreState) -> (s: RepSocket)
        ensures
            s.wf(),
            s.is_new(core.options.rcvhwm),
    {
        RepSocket {
            incoming: IncomingMessageOrchestrator::new(core.options.rcvhwm),
            state: RepState::ReadyToReceive,
            pipe_read_id_to_endpoint_uri: IdMap::new(),
        }
    }

    /// Receives one frame of a request. A new request makes the reply to its sender due.
    pub fn recv(&mut self, core: &CoreState, running: bool) -> (r: RecvStep)
        requires
            old(self).wf(),
        ensures
            final(self).wf(),
            final(self).pipe_read_id_to_endpoint_uri == old(self).pipe_read_id_to_endpoint_uri,
            if !running {
                *final(self) == *old(self) && (r matches RecvStep::Done(Err(e))
                    && incoming_orchestrator::is_closing_error(e))
            } else if old(self).state is ReceivedRequest {
                *final(self) == *old(self) && (r matches RecvStep::Done(Err(e))
                    && is_reply_owed_error(e))
            } else {
                let taken = old(self).incoming.buffered().len() == 0 && old(self).incoming.queued().len() > 0;
                &&& incoming_orchestrator::frame_received(
                    old(self).incoming,
                    final(self).incoming,
                    core.options.rcvtimeo,
                    old(self).incoming.queued()[0].frames@,
                    r,
                )
                &&& final(self).state == if taken {
                    state_after(old(self).incoming.queued()[0], old(self).state)
                } else {
                    old(self).state
                }
                &&& taken ==> final(self).state is ReceivedRequest
            },
    {
        if !running {
            return RecvStep::Done(Err(socket_is_closing()));
        }
        match &self.state {
            RepState::ReceivedRequest(_) => {
                return RecvStep::Done(Err(reply_owed()));
            },
            RepState::ReadyToReceive => {},
        }
        match self.incoming.recv_message(core.options.rcvtimeo) {
            FrameStep::Frame(m) => RecvStep::Done(Ok(m)),
            FrameStep::Item(item) => {
                let QueueItem { origin, frames } = item;
                if let Origin::Request(peer) = origin {
                    self.state = RepState::ReceivedRequest(peer);
                }
                RecvStep::Done(Ok(self.incoming.begin_frames(frames)))
            },
            FrameStep::Failed(e) => RecvStep::Done(Err(e)),
            FrameStep::Wait(t) => RecvStep::Wait(t),
        }
    }

    /// Receives a whole request. It makes the reply to its sender due.
    pub fn recv_multipart(&mut self, core: &CoreState, running: bool) -> (r: MultipartStep)
        requires
            old(self).wf(),
        ensures
            final(self).wf(),
            final(self).pipe_read_id_to_endpoint_uri == old(self).pipe_read_id_to_endpoint_uri,
            if !running {
                *final(self) == *old(self) && (r matches MultipartStep::Done(Err(e))
                    && incoming_orchestrator::is_closing_error(e))
            } else if old(self).state is ReceivedRequest {
                *final(self) == *old(self) && (r matches MultipartStep::Done(Err(e))
                    && is_reply_owed_error(e))
            } else {
                let taken = old(self).incoming.queued().len() > 0;
                &&& incoming_orchestrator::message_received(
                    old(self).incoming,
                    final(self).incoming,
                    core.options.rcvtimeo,
                    message::frames_of(old(self).incoming.queued()[0].frames@),
                    r,
                )
                &&& final(self).state == if taken {
                    state_after(old(self).incoming.queued()[0], old(self).state)
                } else {
                    old(self).state
                }
                &&& taken ==> final(self).state is ReceivedRequest
            },
    {
        if !running {
            return MultipartStep::Done(Err(socket_is_closing()));
        }
        match &self.state {
            RepState::ReceivedRequest(_) => {
                return MultipartStep::Done(Err(reply_owed()));
            },
            RepState::ReadyToReceive => {},
        }
        match self.incoming.recv_logical_message(core.options.rcvtimeo) {
            ItemStep::Done(Ok(item)) => {
                let QueueItem { origin, frames } = item;
                if let Origin::Request(peer) = origin {
                    self.state = RepState::ReceivedRequest(peer);
                }
                MultipartStep::Done(Ok(frames))
            },
            ItemStep::Done(Err(e)) => MultipartStep::Done(Err(e)),
            ItemStep::Wait(t) => MultipartStep::Wait(t),
        }
    }

    /// What a reply of `payload` changes and comes to: it goes, behind the request's routing
    /// prefix, to the peer that sent the request, and no further reply is due.
    pub open spec fn replied(
        self,
        after: RepSocket,
        core: CoreState,
        running: bool,
        payload: Seq<message::Frame>,
        r: ReplyStep,
    ) -> bool {
        if !running {
            after == self && (r matches ReplyStep::Done(Err(e))
                && incoming_orchestrator::is_closing_error(e))
        } else {
            &&& after.state is ReadyToReceive
            &&& after.pipe_read_id_to_endpoint_uri == self.pipe_read_id_to_endpoint_uri
            &&& after.incoming.partial() == self.incoming.partial()
            &&& after.incoming.capacity() == self.incoming.capacity()
            &&& after.incoming.is_closed() == self.incoming.is_closed()
            &&& after.incoming.queued() == self.incoming.queued()
            &&& after.incoming.buffered() == Seq::<Msg>::empty()
            &&& match self.state {
                RepState::ReadyToReceive => r matches ReplyStep::Done(
                    Err(ZmqError::InvalidState(m)),
                ) && m@ == "REP socket must recv() a request before sending a reply"@,
                RepState::ReceivedRequest(peer) => {
                    let uri = peer.target_endpoint_uri@;
                    if core.endpoints@.dom().contains(uri) {
                        r matches ReplyStep::Send(c, v) && c == core.endpoints@[uri].connection
                            && message::frames_of(v@) == reply_frames(
                            message::frames_of(peer.routing_prefix@),
                            payload,
                        )
                    } else {
                        r matches ReplyStep::Done(Err(ZmqError::HostUnreachable(m))) && m@
                            == "Peer disconnected before reply could be sent"@
                    }
                },
            }
        }
    }

    /// Replies with one frame.
    pub fn send(&mut self, core: &CoreState, running: bool, msg: Msg) -> (r: ReplyStep)
        requires
            old(self).wf(),
        ensures
            final(self).wf(),
            old(self).replied(*final(self), *core, running, seq![msg@.with_more(false)], r),
    {
        let mut msg = msg;
        if msg.is_more() {
            msg.set_more(false);
        }
        let mut frames: Vec<Msg> = Vec::new();
        frames.push(msg);
        assert(message::frames_of(frames@) =~= seq![msg@]);
        self.send_multipart(core, running, frames)
    }

    /// Replies with a message.
    pub fn send_multipart(&mut self, core: &CoreState, running: bool, payload_frames: Vec<Msg>) -> (r:
        ReplyStep)
        requires
            old(self).wf(),
        ensures
            final(self).wf(),
            old(self).replied(
                *final(self),
                *core,
                running,
                message::frames_of(payload_frames@),
                r,
            ),
    {
        if !running {
            return ReplyStep::Done(Err(socket_is_closing()));
        }
        self.incoming.reset_recv_message_buffer();
        let mut payload = payload_frames;
        let ghost given = message::frames_of(payload@);
        if payload.len() == 0 {
            payload.push(Msg::new());
            assert(message::frames_of(payload@) =~= seq![message::Frame::of(Seq::empty())]);
        }
        let mut state = RepState::ReadyToReceive;
        std::mem::swap(&mut state, &mut self.state);
        let peer = match state {
            RepState::ReceivedRequest(p) => p,
            RepState::ReadyToReceive => {
                return ReplyStep::Done(
                    Err(
                        ZmqError::InvalidState(
                            "REP socket must recv() a request before sending a reply".to_owned(),
                        ),
                    ),
                );
            },
        };
        let connection = match core.connection_of(peer.target_endpoint_uri.as_str()) {
            Some(c) => c,
            None => {
                return ReplyStep::Done(
                    Err(
                        ZmqError::HostUnreachable(
                            "Peer disconnected before reply could be sent".to_owned(),
                        ),
                    ),
                );
            },
        };
        let mut frames = peer.routing_prefix;
        let ghost prefix = frames@;
        let ghost payload_then = payload@;
        frames.append(&mut payload);
        assert(message::frames_of(frames@) =~= message::frames_of(prefix) + message::frames_of(
            payload_then,
        ));
        ReplyStep::Send(connection, mark_frames(frames))
    }

    /// Takes what happens on a pipe: frames are put together, and a complete request is
    /// queued with the way back to its sender.
    pub fn handle_pipe_event(&mut self, core: &CoreState, pipe_read_id: usize, event: PipeEvent) -> (r:
        Result<(), ZmqError>)
        requires
            old(self).wf(),
        ensures
            final(self).wf(),
            final(self).state == old(self).state,
            final(self).pipe_read_id_to_endpoint_uri == old(self).pipe_read_id_to_endpoint_uri,
            final(self).incoming.buffered() == old(self).incoming.buffered(),
            final(self).incoming.capacity() == old(self).incoming.capacity(),
            final(self).incoming.is_closed() == old(self).incoming.is_closed(),
            match event {
                PipeEvent::ClosedByPeer => r is Ok && *final(self) == *old(self),
                PipeEvent::MessageReceived(msg) => if msg@.more {
                    &&& r is Ok
                    &&& final(self).incoming.queued() == old(self).incoming.queued()
                    &&& final(self).incoming.partial() == old(self).incoming.partial().insert(
                        pipe_read_id,
                        old(self).incoming.partial_of(pipe_read_id).push(msg),
                    )
                } else {
                    let all = old(self).incoming.partial_of(pipe_read_id).push(msg);
                    let n = prefix_len(all);
                    &&& final(self).incoming.partial() == old(self).incoming.partial().remove(
                        pipe_read_id,
                    )
                    &&& if core.pipe_read_id_to_endpoint_uri@.dom().contains(pipe_read_id) {
                        exists|peer: PeerInfo|
                            {
                                &&& peer.source_pipe_read_id == pipe_read_id
                                &&& peer.target_endpoint_uri
                                    == core.pipe_read_id_to_endpoint_uri@[pipe_read_id]
                                &&& peer.routing_prefix@ == all.take(n)
                                &&& #[trigger] incoming_orchestrator::message_queued(
                                    old(self).incoming,
                                    final(self).incoming,
                                    Origin::Request(peer),
                                    all.skip(n),
                                    r,
                                )
                            }
                    } else {
                        &&& final(self).incoming.queued() == old(self).incoming.queued()
                        &&& r matches Err(ZmqError::Internal(m)) && m@
                            == "REP: Endpoint URI lookup failed for request"@
                    }
                },
            },
    {
        match event {
            PipeEvent::MessageReceived(msg) => match self.incoming.accumulate_pipe_frame(
                pipe_read_id,
                msg,
            ) {
                Some(all) => {
                    let uri = match core.uri_of_pipe(pipe_read_id) {
                        Some(u) => u,
                        None => {
                            return Err(
                                ZmqError::Internal(
                                    "REP: Endpoint URI lookup failed for request".to_owned(),
                                ),
                            );
                        },
                    };
                    let (prefix, payload) = split_request(all);
                    let peer = PeerInfo {
                        source_pipe_read_id: pipe_read_id,
                        target_endpoint_uri: uri,
                        routing_prefix: prefix,
                    };
                    let ghost mid = self.incoming;
                    let r = self.incoming.queue_item(
                        QueueItem { origin: Origin::Request(peer), frames: payload },
                    );
                    proof {
                        assert(self.incoming.queued().drop_last() =~= old(self).incoming.queued()
                            || self.incoming.queued() == old(self).incoming.queued());
                        assert(incoming_orchestrator::message_queued(
                            old(self).incoming,
                            self.incoming,
                            Origin::Request(peer),
                            payload@,
                            r,
                        ));
                    }
                    r
                },
                None => Ok(()),
            },
            PipeEvent::ClosedByPeer => Ok(()),
        }
    }

    /// A peer has come.
    pub fn pipe_attached(&mut self, core: &CoreState, pipe_read_id: usize)
        requires
            old(self).wf(),
        ensures
            final(self).wf(),
            final(self).state == old(self).state,
            final(self).incoming == old(self).incoming,
            final(self).pipe_read_id_to_endpoint_uri@
                == if core.pipe_read_id_to_endpoint_uri@.dom().contains(pipe_read_id) {
                old(self).pipe_read_id_to_endpoint_uri@.insert(
                    pipe_read_id,
                    core.pipe_read_id_to_endpoint_uri@[pipe_read_id],
                )
            } else {
                old(self).pipe_read_id_to_endpoint_uri@
            },
    {
        if let Some(uri) = core.uri_of_pipe(pipe_read_id) {
            let _ = self.pipe_read_id_to_endpoint_uri.insert(pipe_read_id, uri);
        }
    }

    /// A peer has gone. A reply that was due to it is due no longer.
    pub fn pipe_detached(&mut self, pipe_read_id: usize)
        requires
            old(self).wf(),
        ensures
            final(self).wf(),
            final(self).pipe_read_id_to_endpoint_uri@ == old(self).pipe_read_id_to_endpoint_uri@.remove(pipe_read_id),
            final(self).state == match old(self).state {
                RepState::ReceivedRequest(peer) if peer.source_pipe_read_id == pipe_read_id
                    => RepState::ReadyToReceive,
                other => other,
            },
            final(self).incoming.partial() == old(self).incoming.partial().remove(pipe_read_id),
            final(self).incoming.buffered() == Seq::<Msg>::empty(),
            final(self).incoming.queued() == old(self).incoming.queued(),
            final(self).incoming.capacity() == old(self).incoming.capacity(),
            final(self).incoming.is_closed() == old(self).incoming.is_closed(),
    {
        let _ = self.pipe_read_id_to_endpoint_uri.remove(pipe_read_id);
        let gone: bool = match &self.state {
            RepState::ReceivedRequest(peer) => peer.source_pipe_read_id == pipe_read_id,
            RepState::ReadyToReceive => false,
        };
        if gone {
            self.state = RepState::ReadyToReceive;
        }
        self.incoming.clear_pipe_state(pipe_read_id);
    }

    /// Stops receiving.
    pub fn stop(&mut self)
        requires
            old(self).wf(),
        ensures
            final(self).wf(),
            final(self).state == old(self).state,
            final(self).pipe_read_id_to_endpoint_uri == old(self).pipe_read_id_to_endpoint_uri,
            final(self).incoming.is_closed(),
            final(self).incoming.queued() == old(self).incoming.queued(),
            final(self).incoming.partial() == Map::<usize, Seq<Msg>>::empty(),
            final(self).incoming.buffered() == Seq::<Msg>::empty(),
    {
        self.incoming.close();
    }
}

/// What a reply puts on the wire begins with the frames that the request began with, so that
/// every hop on the way back finds its own.
pub proof fn reply_keeps_the_way_back(prefix: Seq<message::Frame>, payload: Seq<message::Frame>)
    ensures
        reply_frames(prefix, payload).len() > prefix.len(),
        message::is_one_message(reply_frames(prefix, payload)),
        forall|i: int|
            0 <= i < prefix.len() ==> (#[trigger] reply_frames(prefix, payload)[i])
                == prefix[i].with_more(true),
{
}

/// Requests and replies alternate: after one reply, whatever came of it, another is refused,
/// and the next request can be received.
pub proof fn replies_alternate_with_requests(
    start: RepSocket,
    mid: RepSocket,
    end: RepSocket,
    core: CoreState,
    first: Seq<message::Frame>,
    first_step: ReplyStep,
    second: Seq<message::Frame>,
    second_step: ReplyStep,
)
    requires
        start.replied(mid, core, true, first, first_step),
        mid.replied(end, core, true, second, second_step),
    ensures
        mid.state is ReadyToReceive,
        second_step matches ReplyStep::Done(Err(ZmqError::InvalidState(m))) && m@
            == "REP socket must recv() a request before sending a reply"@,
        end.state is ReadyToReceive,
{
}

/// What a request begins with up to its delimiter comes back in front of the reply, and the
/// rest of the request is what the application gets.
pub proof fn request_is_prefix_and_payload(frames: Seq<Msg>)
    ensures
        frames.take(prefix_len(frames)) + frames.skip(prefix_len(frames)) == frames,
        prefix_len(frames) > 0 ==> frames[prefix_len(frames) - 1]@.data.len() == 0,
        forall|i: int|
            0 <= i < prefix_len(frames) - 1 ==> (#[trigger] frames[i])@.data.len() > 0,
    decreases frames.len(),
{
    if frames.len() > 0 && frames[0]@.data.len() > 0 {
        let rest = frames.skip(1);
        request_is_prefix_and_payload(rest);
        lemma_prefix_len_bounds(rest);
        if prefix_len(rest) > 0 {
            assert forall|i: int| 0 <= i < prefix_len(frames) - 1 implies (
            #[trigger] frames[i])@.data.len() > 0 by {
                if i > 0 {
                    assert(rest[i - 1] == frames[i]);
                }
            }
            assert(rest[prefix_len(rest) - 1] == frames[prefix_len(frames) - 1]);
        }
    }
    lemma_prefix_len_bounds(frames);
    assert(frames.take(prefix_len(frames)) + frames.skip(prefix_len(frames)) =~= frames);
}

proof fn lemma_prefix_len_bounds(frames: Seq<Msg>)
    ensures
        0 <= prefix_len(frames) <= frames.len(),
    decreases frames.len(),
{
    if frames.len() > 0 && frames[0]@.data.len() > 0 {
        lemma_prefix_len_bounds(frames.skip(1));
    }
}

impl RepSocket {
    /// The pattern has no options of its own.
    pub fn set_pattern_option(&self, option: i32, _value: &Vec<u8>) -> (r: Result<(), ZmqError>)
        ensures
            r == Err::<(), ZmqError>(ZmqError::UnsupportedOption(option)),
    {
        Err(ZmqError::UnsupportedOption(option))
    }

    /// The pattern has no options that could be read.
    pub fn get_pattern_option(&self, option: i32) -> (r: Result<Vec<u8>, ZmqError>)
        ensures
            r == Err::<Vec<u8>, ZmqError>(ZmqError::UnsupportedOption(option)),
    {
        Err(ZmqError::UnsupportedOption(option))
    }
}

// ---------------------------------------------------------------------------
// Laws
// ---------------------------------------------------------------------------
/// The routing prefix ends with the first empty frame; a request without one has no prefix.
pub proof fn prefix_ends_at_the_first_empty_frame(frames: Vec<Msg>, r: (Vec<Msg>, Vec<Msg>), k: int)
    requires
        call_ensures(split_request, (frames,), r),
    ensures
        frames@ == r.0@ + r.1@,
        (forall|i: int| 0 <= i < frames@.len() ==> (#[trigger] frames@[i])@.data.len() > 0)
            ==> r.0@.len() == 0 && r.1@ == frames@,
        0 <= k < frames@.len() && frames@[k]@.data.len() == 0 && (forall|i: int|
            0 <= i < k ==> (#[trigger] frames@[i])@.data.len() > 0) ==> r.0@.len() == k + 1
            && r.1@ == frames@.skip(k + 1),
{
    request_is_prefix_and_payload(frames@);
    if forall|i: int| 0 <= i < frames@.len() ==> (#[trigger] frames@[i])@.data.len() > 0 {
        lemma_prefix_len(frames@, frames@.len() as int);
        assert(frames@.skip(0) =~= frames@);
    }
    if 0 <= k < frames@.len() && frames@[k]@.data.len() == 0 && (forall|i: int|
        0 <= i < k ==> (#[trigger] frames@[i])@.data.len() > 0) {
        lemma_prefix_len(frames@, k);
    }
}

/// The reply goes to the connection of the peer whose request was received, and ends the wait
/// for a reply whatever comes of it.
pub proof fn reply_goes_to_the_requester(
    s: &mut RepSocket,
    core: &CoreState,
    payload: Vec<Msg>,
    r: ReplyStep,
    peer: PeerInfo,
)
    requires
        call_ensures(RepSocket::send_multipart, (s, core, true, payload), r),
        old(s).state == RepState::ReceivedRequest(peer),
    ensures
        core.endpoints@.dom().contains(peer.target_endpoint_uri@) ==> (r matches ReplyStep::Send(
            c,
            _,
        ) && c == core.endpoints@[peer.target_endpoint_uri@].connection),
        !core.endpoints@.dom().contains(peer.target_endpoint_uri@) ==> (r matches ReplyStep::Done(
            Err(e),
        ) && e is HostUnreachable),
        final(s).state is ReadyToReceive,
        final(s).incoming.queued() == old(s).incoming.queued(),
{
}

/// What a reply puts on the wire: the frames that the request began with, then the payload's,
/// each as it is but for MORE, which all but the last have. An empty payload is one empty frame.
pub proof fn reply_is_prefix_and_payload(
    s: &mut RepSocket,
    core: &CoreState,
    payload: Vec<Msg>,
    r: ReplyStep,
    peer: PeerInfo,
    i: int,
)
    requires
        call_ensures(RepSocket::send_multipart, (s, core, true, payload), r),
        old(s).state == RepState::ReceivedRequest(peer),
        core.endpoints@.dom().contains(peer.target_endpoint_uri@),
    ensures
        r matches ReplyStep::Send(_, v) && {
            let n = peer.routing_prefix@.len();
            &&& v@.len() == n + if payload@.len() == 0 {
                1
            } else {
                payload@.len() as int
            }
            &&& 0 <= i < v@.len() ==> v@[i]@.more == (i < v@.len() - 1)
            &&& 0 <= i < n ==> v@[i]@.data == peer.routing_prefix@[i]@.data
            &&& n <= i < n + payload@.len() ==> v@[i]@.data == payload@[i - n]@.data
            &&& payload@.len() == 0 && i == n ==> v@[i]@.data.len() == 0
        },
{
    let v = r->Send_1;
    let a = message::frames_of(peer.routing_prefix@);
    let b = message::frames_of(payload@);
    let w = reply_frames(a, b);
    assert(message::frames_of(v@).len() == w.len());
    if 0 <= i < v@.len() {
        assert(message::frames_of(v@)[i] == w[i]);
    }
}

/// A single frame is sent as a reply of just that frame.
pub proof fn single_reply_goes_to_the_requester(
    s: &mut RepSocket,
    core: &CoreState,
    msg: Msg,
    r: ReplyStep,
    peer: PeerInfo,
)
    requires
        call_ensures(RepSocket::send, (s, core, true, msg), r),
        old(s).state == RepState::ReceivedRequest(peer),
        core.endpoints@.dom().contains(peer.target_endpoint_uri@),
    ensures
        r matches ReplyStep::Send(c, v) && c
            == core.endpoints@[peer.target_endpoint_uri@].connection && v@.len()
            == peer.routing_prefix@.len() + 1 && v@.last()@.data == msg@.data && !v@.last()@.more,
        final(s).state is ReadyToReceive,
{
    let v = r->Send_1;
    let w = reply_frames(
        message::frames_of(peer.routing_prefix@),
        seq![msg@.with_more(false)],
    );
    assert(message::frames_of(v@).len() == w.len());
    assert(message::frames_of(v@)[v@.len() - 1] == w[v@.len() - 1]);
}

/// A reply without a request is refused, and so is a second request before the reply; the
/// request that waits is not lost by it.
pub proof fn requests_and_replies_take_turns(
    s: &mut RepSocket,
    t: &mut RepSocket,
    u: &mut RepSocket,
    core: &CoreState,
    payload: Vec<Msg>,
    reply: ReplyStep,
    whole: MultipartStep,
    frame: RecvStep,
)
    requires
        call_ensures(RepSocket::send_multipart, (s, core, true, payload), reply),
        call_ensures(RepSocket::recv_multipart, (t, core, true), whole),
        call_ensures(RepSocket::recv, (u, core, true), frame),
    ensures
        old(s).state is ReadyToReceive ==> (reply matches ReplyStep::Done(Err(e))
            && e is InvalidState),
        old(t).state is ReceivedRequest ==> (whole matches MultipartStep::Done(Err(e))
            && e is InvalidState) && *final(t) == *old(t),
        old(u).state is ReceivedRequest ==> (frame matches RecvStep::Done(Err(e))
            && e is InvalidState) && *final(u) == *old(u),
{
}

/// A received request makes the reply to its sender due, and the application gets its payload.
pub proof fn received_request_is_owed_a_reply(
    s: &mut RepSocket,
    core: &CoreState,
    r: MultipartStep,
    peer: PeerInfo,
    i: int,
)
    requires
        call_ensures(RepSocket::recv_multipart, (s, core, true), r),
        old(s).state is ReadyToReceive,
        old(s).incoming.queued().len() > 0,
        old(s).incoming.queued()[0].origin == Origin::Request(peer),
    ensures
        final(s).state == RepState::ReceivedRequest(peer),
        r matches MultipartStep::Done(Ok(v)) && v@.len() == old(s).incoming.queued()[0].frames@.len() && (0 <= i < v@.len() ==> v@[i]@ == old(s).incoming.queued()[0].frames@[i]@),
        final(s).incoming.queued() == old(s).incoming.queued().skip(1),
{
    let v = r->Done_0->Ok_0;
    let given = old(s).incoming.queued()[0].frames@;
    assert(message::frames_of(v@).len() == message::frames_of(given).len());
    if 0 <= i < v@.len() {
        assert(message::frames_of(v@)[i] == message::frames_of(given)[i]);
    }
}

/// The same, where the request is received frame by frame.
pub proof fn begun_request_is_owed_a_reply(
    s: &mut RepSocket,
    core: &CoreState,
    r: RecvStep,
    peer: PeerInfo,
)
    requires
        call_ensures(RepSocket::recv, (s, core, true), r),
        old(s).state is ReadyToReceive,
        old(s).incoming.buffered().len() == 0,
        old(s).incoming.queued().len() > 0,
        old(s).incoming.queued()[0].origin == Origin::Request(peer),
    ensures
        final(s).state == RepState::ReceivedRequest(peer),
        old(s).incoming.queued()[0].frames@.len() > 0 ==> (r matches RecvStep::Done(Ok(m)) && m@
            == old(s).incoming.queued()[0].frames@[0]@),
        final(s).incoming.queued() == old(s).incoming.queued().skip(1),
{
}

/// Where no request waits, none is made up: the receive waits as the option says, and no reply
/// comes due.
pub proof fn no_request_is_made_up(s: &mut RepSocket, core: &CoreState, r: MultipartStep)
    requires
        call_ensures(RepSocket::recv_multipart, (s, core, true), r),
        old(s).state is ReadyToReceive,
        old(s).incoming.queued().len() == 0,
    ensures
        final(s).state is ReadyToReceive,
        !(r matches MultipartStep::Done(Ok(_))),
        !old(s).incoming.is_closed() && (core.options.rcvtimeo is None
            || core.options.rcvtimeo->0.spec_nanos() > 0) ==> r == MultipartStep::Wait(
            core.options.rcvtimeo,
        ),
{
}

/// A complete request is queued with its sender and the frames in front of its payload, so that
/// prefix and payload together are what arrived.
pub proof fn request_keeps_its_sender(
    s: &mut RepSocket,
    core: &CoreState,
    pipe: usize,
    msg: Msg,
    r: Result<(), ZmqError>,
)
    requires
        call_ensures(
            RepSocket::handle_pipe_event,
            (s, core, pipe, PipeEvent::MessageReceived(msg)),
            r,
        ),
        !msg.more,
        core.pipe_read_id_to_endpoint_uri@.dom().contains(pipe),
        !old(s).incoming.is_closed(),
        old(s).incoming.queued().len() < old(s).incoming.capacity(),
    ensures
        r is Ok,
        final(s).incoming.queued().drop_last() == old(s).incoming.queued(),
        final(s).incoming.queued().last().origin matches Origin::Request(peer) && {
            &&& peer.source_pipe_read_id == pipe
            &&& peer.target_endpoint_uri == core.pipe_read_id_to_endpoint_uri@[pipe]
            &&& peer.routing_prefix@ + final(s).incoming.queued().last().frames@ == old(s).incoming.partial_of(pipe).push(msg)
            &&& peer.routing_prefix@.len() > 0 ==> peer.routing_prefix@.last()@.data.len() == 0
        },
        final(s).state == old(s).state,
{
    let all = old(s).incoming.partial_of(pipe).push(msg);
    request_is_prefix_and_payload(all);
    lemma_prefix_len_bounds(all);
}

/// A request of an unknown pipe is an error, and is not queued; a frame that is followed by
/// more is kept.
pub proof fn unknown_requester_is_an_error(
    s: &mut RepSocket,
    core: &CoreState,
    pipe: usize,
    msg: Msg,
    r: Result<(), ZmqError>,
)
    requires
        call_ensures(
            RepSocket::handle_pipe_event,
            (s, core, pipe, PipeEvent::MessageReceived(msg)),
            r,
        ),
    ensures
        msg.more ==> r is Ok && final(s).incoming.queued() == old(s).incoming.queued() && final(s).incoming.partial()[pipe] == old(s).incoming.partial_of(pipe).push(msg),
        !msg.more && !core.pipe_read_id_to_endpoint_uri@.dom().contains(pipe) ==> (r matches Err(e)
            && e is Internal) && final(s).incoming.queued() == old(s).incoming.queued(),
{
}

/// A requester that goes is owed no reply; the reply to another is still due.
pub proof fn gone_requester_is_owed_nothing(s: &mut RepSocket, pipe: usize)
    requires
        call_ensures(RepSocket::pipe_detached, (s, pipe), ()),
    ensures
        old(s).state is ReceivedRequest && old(s).state->0.source_pipe_read_id == pipe ==> final(s).state is ReadyToReceive,
        old(s).state is ReceivedRequest && old(s).state->0.source_pipe_read_id != pipe ==> final(s).state == old(s).state,
        old(s).state is ReadyToReceive ==> final(s).state is ReadyToReceive,
        !final(s).pipe_read_id_to_endpoint_uri@.dom().contains(pipe),
        !final(s).incoming.partial().dom().contains(pipe),
        final(s).incoming.queued() == old(s).incoming.queued(),
{
}

/// A REP that is being closed neither receives nor replies, and stopping keeps what waits.
pub proof fn closing_rep_does_nothing(
    s: &mut RepSocket,
    t: &mut RepSocket,
    u: &mut RepSocket,
    v: &mut RepSocket,
    core: &CoreState,
    payload: Vec<Msg>,
    reply: ReplyStep,
    whole: MultipartStep,
    frame: RecvStep,
)
    requires
        call_ensures(RepSocket::send_multipart, (s, core, false, payload), reply),
        call_ensures(RepSocket::recv_multipart, (t, core, false), whole),
        call_ensures(RepSocket::recv, (u, core, false), frame),
        call_ensures(RepSocket::stop, (v,), ()),
    ensures
        (reply matches ReplyStep::Done(Err(e)) && e is InvalidState) && *final(s) == *old(s),
        (whole matches MultipartStep::Done(Err(e)) && e is InvalidState) && *final(t) == *old(t),
        (frame matches RecvStep::Done(Err(e)) && e is InvalidState) && *final(u) == *old(u),
        final(v).incoming.is_closed() && final(v).incoming.queued() == old(v).incoming.queued(),
{
}

/// A requester that comes is known by its pipe, and a new socket awaits a request.
pub proof fn requesters_come(s: &mut RepSocket, core: &CoreState, pipe: usize, fresh: RepSocket)
    requires
        call_ensures(RepSocket::pipe_attached, (s, core, pipe), ()),
        call_ensures(RepSocket::new, (core,), fresh),
    ensures
        core.pipe_read_id_to_endpoint_uri@.dom().contains(pipe) ==> final(s).pipe_read_id_to_endpoint_uri@.dom().contains(pipe) && final(s).pipe_read_id_to_endpoint_uri@[pipe] == core.pipe_read_id_to_endpoint_uri@[pipe],
        final(s).state == old(s).state,
        fresh.state is ReadyToReceive && fresh.incoming.queued().len() == 0,
        core.options.rcvhwm > 0 ==> fresh.incoming.capacity() == core.options.rcvhwm,
{
}

/// The pattern has no options of its own, to be set or read.
pub proof fn rep_has_no_options(
    s: &RepSocket,
    option: i32,
    value: &Vec<u8>,
    a: Result<(), ZmqError>,
    b: Result<Vec<u8>, ZmqError>,
)
    requires
        call_ensures(RepSocket::set_pattern_option, (s, option, value), a),
        call_ensures(RepSocket::get_pattern_option, (s, option), b),
    ensures
        a is Err && a->Err_0 is UnsupportedOption,
        b is Err && b->Err_0 is UnsupportedOption,
{
}

/// The errors say what was asked for in vain: the option, a reply without a request, a reply to
/// a peer that is gone, or a request from nowhere.
pub proof fn rep_errors_name_their_cause(
    s: &RepSocket,
    t: &mut RepSocket,
    u: &mut RepSocket,
    core: &CoreState,
    option: i32,
    value: &Vec<u8>,
    frames: Vec<Msg>,
    set: Result<(), ZmqError>,
    got: Result<Vec<u8>, ZmqError>,
    reply: ReplyStep,
    pipe: usize,
    msg: Msg,
    taken: Result<(), ZmqError>,
)
    requires
        call_ensures(RepSocket::set_pattern_option, (s, option, value), set),
        call_ensures(RepSocket::get_pattern_option, (s, option), got),
        call_ensures(RepSocket::send_multipart, (t, core, true, frames), reply),
        call_ensures(
            RepSocket::handle_pipe_event,
            (u, core, pipe, PipeEvent::MessageReceived(msg)),
            taken,
        ),
    ensures
        set == Err::<(), ZmqError>(ZmqError::UnsupportedOption(option)),
        got == Err::<Vec<u8>, ZmqError>(ZmqError::UnsupportedOption(option)),
        old(t).state is ReadyToReceive ==> (reply matches ReplyStep::Done(
            Err(ZmqError::InvalidState(m)),
        ) && m@ == "REP socket must recv() a request before sending a reply"@),
        old(t).state matches RepState::ReceivedRequest(peer) ==> (!core.endpoints@.dom().contains(
            peer.target_endpoint_uri@,
        ) ==> (reply matches ReplyStep::Done(Err(ZmqError::HostUnreachable(m))) && m@
            == "Peer disconnected before reply could be sent"@)),
        !msg@.more && !core.pipe_read_id_to_endpoint_uri@.dom().contains(pipe) ==> (
        taken matches Err(ZmqError::Internal(m)) && m@
            == "REP: Endpoint URI lookup failed for request"@),
{
}

/// A reply leaves the requests that wait, the unfinished ones and the peers as they are.
pub proof fn reply_leaves_other_requests(
    s: &mut RepSocket,
    t: &mut RepSocket,
    core: &CoreState,
    running: bool,
    msg: Msg,
    frames: Vec<Msg>,
    one: ReplyStep,
    whole: ReplyStep,
)
    requires
        call_ensures(RepSocket::send, (s, core, running, msg), one),
        call_ensures(RepSocket::send_multipart, (t, core, running, frames), whole),
    ensures
        final(s).incoming.queued() == old(s).incoming.queued(),
        final(s).incoming.partial() == old(s).incoming.partial(),
        final(s).incoming.capacity() == old(s).incoming.capacity(),
        final(s).incoming.is_closed() == old(s).incoming.is_closed(),
        final(s).pipe_read_id_to_endpoint_uri == old(s).pipe_read_id_to_endpoint_uri,
        running ==> final(s).incoming.buffered().len() == 0,
        final(t).incoming.queued() == old(t).incoming.queued(),
        final(t).incoming.partial() == old(t).incoming.partial(),
        final(t).incoming.capacity() == old(t).incoming.capacity(),
        final(t).incoming.is_closed() == old(t).incoming.is_closed(),
        final(t).pipe_read_id_to_endpoint_uri == old(t).pipe_read_id_to_endpoint_uri,
        running ==> final(t).incoming.buffered().len() == 0,
{
}

/// A peer that goes takes its unfinished request with it, and leaves those of others and the
/// requests that wait.
pub proof fn gone_requester_takes_only_its_own(s: &mut RepSocket, pipe: usize, other: usize)
    requires
        call_ensures(RepSocket::pipe_detached, (s, pipe), ()),
        other != pipe,
    ensures
        !final(s).pipe_read_id_to_endpoint_uri@.dom().contains(pipe),
        final(s).pipe_read_id_to_endpoint_uri@.dom().contains(other)
            <==> old(s).pipe_read_id_to_endpoint_uri@.dom().contains(other),
        !final(s).incoming.partial().dom().contains(pipe),
        final(s).incoming.partial().dom().contains(other)
            <==> old(s).incoming.partial().dom().contains(other),
        old(s).incoming.partial().dom().contains(other) ==> final(s).incoming.partial()[other]
            == old(s).incoming.partial()[other],
        final(s).incoming.queued() == old(s).incoming.queued(),
        final(s).incoming.capacity() == old(s).incoming.capacity(),
        final(s).incoming.is_closed() == old(s).incoming.is_closed(),
        old(s).state matches RepState::ReceivedRequest(peer) ==> (peer.source_pipe_read_id != pipe
            ==> final(s).state == old(s).state),
{
}

/// The end of a pipe changes nothing by itself; what comes over one changes neither the room
/// nor the message that is being read nor the reply that is due.
pub proof fn end_of_a_pipe_changes_nothing(
    s: &mut RepSocket,
    core: &CoreState,
    pipe: usize,
    event: PipeEvent,
    r: Result<(), ZmqError>,
)
    requires
        call_ensures(RepSocket::handle_pipe_event, (s, core, pipe, event), r),
    ensures
        final(s).state == old(s).state,
        final(s).pipe_read_id_to_endpoint_uri == old(s).pipe_read_id_to_endpoint_uri,
        event is ClosedByPeer ==> r is Ok && *final(s) == *old(s),
        final(s).incoming.buffered() == old(s).incoming.buffered(),
        final(s).incoming.capacity() == old(s).incoming.capacity(),
        final(s).incoming.is_closed() == old(s).incoming.is_closed(),
{
}

} // verus!
