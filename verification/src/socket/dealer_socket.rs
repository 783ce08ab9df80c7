use vstd::prelude::*;

use std::collections::VecDeque;
use std::sync::Arc;
use tokio::sync::{OwnedSemaphorePermit, Semaphore};

use crate::error::ZmqError;
use crate::id_map::IdMap;
use crate::message;
use crate::message::{copy_frames, mark_frames, Msg};
use crate::socket::options::{parse_bool_option, AUTO_DELIMITER};
use crate::socket::patterns::framing::FramingLatch;
use crate::socket::patterns::incoming_orchestrator;
use crate::socket::patterns::incoming_orchestrator::{
    socket_is_closing, IncomingMessageOrchestrator, MultipartStep, RecvStep,
};
use crate::socket::patterns::item::{Origin, PipeEvent, QueueItem};
use crate::socket::patterns::load_balancer;
use crate::socket::patterns::load_balancer::LoadBalancer;
use crate::socket::patterns::pipe_coordinator;
use crate::socket::patterns::pipe_coordinator::{PermitStep, WritePipeCoordinator};
use crate::socket::socket_core::state::{ConnectionRef, CoreState};
use crate::socket::types;
use crate::socket::types::ToBytes;
use crate::time::Duration;

verus! {

/// The most frames that are kept of a message which is sent frame by frame.
pub const MAX_DEALER_SEND_BUFFER_PARTS: usize = 10240;

/// Whether a message is being sent frame by frame.
#[derive(Debug)]
pub enum DealerSendTransaction {
    Idle,
    /// The frames so far.
    Buffering(Vec<Msg>),
}

/// Who is to be woken.
#[derive(Debug, Clone, Copy, PartialEq, Eq, Structural)]
pub struct Notices {
    /// Those who watch the queue of messages that wait for a peer.
    pub queue: bool,
    /// Those who watch the peers.
    pub peers: bool,
}

/// Exchanges messages with all its peers in turn.
#[derive(Debug)]
pub struct DealerSocket {
    pub load_balancer: LoadBalancer,
    pub incoming: IncomingMessageOrchestrator,
    pub pipe_read_to_endpoint_uri: IdMap<String>,
    /// The messages that wait for a peer.
    pub pending_outgoing_queue: VecDeque<Vec<Msg>>,
    pub current_send_transaction: DealerSendTransaction,
    pub pipe_send_coordinator: WritePipeCoordinator,
    pub framing: FramingLatch,
    pub notices: Notices,
}

/// A message that is tried on one peer after another.
#[derive(Debug)]
pub struct DealerAttempt {
    pub frames: Vec<Msg>,
    pub attempts: usize,
    pub max_attempts: usize,
}

/// A peer that a message is tried on.
#[derive(Debug)]
pub struct PendingSend {
    pub uri: String,
    pub connection: ConnectionRef,
    pub pipe_read_id: usize,
    pub attempt: DealerAttempt,
}

/// The next step of sending a message.
#[derive(Debug)]
pub enum DealerStep {
    Done(Result<(), ZmqError>),
    /// Wait for a permit, no longer than the time given, and hand the outcome to
    /// `permitted`.
    WaitPermit { semaphore: Arc<Semaphore>, timeout: Option<Duration>, pending: PendingSend },
    /// Send the frames to the connection while holding the permit, and hand the outcome to
    /// `sent`.
    Send { permit: OwnedSemaphorePermit, pending: PendingSend },
    /// The queue is full. Try `queue_message_or_error` again when the queue or, where no time
    /// is given, the peers have changed; give up with `ZmqError::Timeout` when the time given
    /// has lapsed.
    WaitQueue { frames: Vec<Msg>, timeout: Option<Duration> },
}

/// The next step of sending a whole message.
#[derive(Debug)]
pub enum DealerMultipartStep {
    Step(DealerStep),
    /// A message is being sent frame by frame. Go on with `send_multipart_waited` when it is
    /// over or when the socket is being closed; give up with `ZmqError::Timeout` when the time
    /// given, if any, has lapsed.
    WaitTransaction { frames: Vec<Msg>, timeout: Option<Duration> },
}

/// The next step of sending a message that waited for a peer.
#[derive(Debug)]
pub enum OutgoingStep {
    Sent,
    /// The message waits again.
    Requeued,
    /// Go on with `outgoing_next`.
    Next(DealerAttempt),
    /// Wait for a permit, no longer than the time given, and hand the outcome to
    /// `outgoing_permitted`.
    WaitPermit { semaphore: Arc<Semaphore>, timeout: Option<Duration>, pending: PendingSend },
    /// Send the frames to the connection while holding the permit, and hand the outcome to
    /// `outgoing_sent`.
    Send { permit: OwnedSemaphorePermit, pending: PendingSend },
}

/// An empty frame that stands in front of a payload.
pub open spec fn delimiter() -> message::Frame {
    message::Frame::of(Seq::empty())
}

/// The frames that go out for a message of the application. Unless the application does the
/// framing, an empty delimiter stands in front, and a message without frames goes out with
/// one that is empty.
pub open spec fn wire(manual: bool, frames: Seq<message::Frame>) -> Seq<message::Frame> {
    message::marked(
        if manual {
            frames
        } else if frames.len() == 0 {
            seq![delimiter(), delimiter()]
        } else {
            seq![delimiter()] + frames
        },
    )
}

/// How many frames in front of a message are not for the application: none where it does the
/// framing; otherwise the delimiter, or an identity and the delimiter that follows it.
pub open spec fn envelope_len(manual: bool, frames: Seq<message::Frame>) -> int {
    if manual || frames.len() == 0 {
        0
    } else if frames[0].data.len() == 0 {
        1
    } else if frames.len() > 1 && frames[1].data.len() == 0 {
        2
    } else {
        1
    }
}

/// The connection and the read pipe of a peer that can be written to.
pub open spec fn live_route(
    core: CoreState,
    pipes: Map<usize, pipe_coordinator::PipeState>,
    uri: Seq<char>,
) -> Option<(ConnectionRef, usize)> {
    match core.route(uri) {
        Some((connection, pipe)) => if pipes.dom().contains(pipe) {
            Some((connection, pipe))
        } else {
            None
        },
        None => None,
    }
}

/// How many attempts are left to a message.
pub open spec fn attempts_left(attempt: DealerAttempt) -> nat {
    if attempt.attempts < attempt.max_attempts {
        (attempt.max_attempts - attempt.attempts) as nat
    } else {
        0
    }
}

/// How many of the first `limit` peers in turn come before the first that can be written to.
pub open spec fn dead_in_front(
    turns: Seq<String>,
    core: CoreState,
    pipes: Map<usize, pipe_coordinator::PipeState>,
    limit: nat,
) -> nat
    decreases limit,
{
    if limit == 0 || turns.len() == 0 || live_route(core, pipes, turns[0]@) is Some {
        0
    } else {
        1 + dead_in_front(turns.skip(1), core, pipes, (limit - 1) as nat)
    }
}

proof fn lemma_dead_in_front(
    turns: Seq<String>,
    core: CoreState,
    pipes: Map<usize, pipe_coordinator::PipeState>,
    limit: nat,
    k: nat,
)
    requires
        k <= limit,
        k <= turns.len(),
        forall|j: int| 0 <= j < k ==> live_route(core, pipes, (#[trigger] turns[j])@) is None,
        k == limit || k == turns.len() || live_route(core, pipes, turns[k as int]@) is Some,
    ensures
        dead_in_front(turns, core, pipes, limit) == k,
    decreases limit,
{
    if k > 0 {
        assert forall|j: int| 0 <= j < k - 1 implies live_route(
            core,
            pipes,
            (#[trigger] turns.skip(1)[j])@,
        ) is None by {
            assert(turns.skip(1)[j] == turns[j + 1]);
        }
        assert(live_route(core, pipes, turns[0]@) is None);
        lemma_dead_in_front(turns.skip(1), core, pipes, (limit - 1) as nat, (k - 1) as nat);
    }
}

proof fn lemma_dead_bounds(
    turns: Seq<String>,
    core: CoreState,
    pipes: Map<usize, pipe_coordinator::PipeState>,
    limit: nat,
)
    ensures
        ({
            let k = dead_in_front(turns, core, pipes, limit);
            &&& k <= limit
            &&& k <= turns.len()
            &&& forall|j: int| 0 <= j < k ==> live_route(core, pipes, (#[trigger] turns[j])@) is None
            &&& k == limit || k == turns.len() || live_route(core, pipes, turns[k as int]@) is Some
        }),
    decreases limit,
{
    if limit > 0 && turns.len() > 0 && live_route(core, pipes, turns[0]@) is None {
        lemma_dead_bounds(turns.skip(1), core, pipes, (limit - 1) as nat);
        let k = dead_in_front(turns, core, pipes, limit);
        assert forall|j: int| 0 <= j < k implies live_route(core, pipes, (#[trigger] turns[j])@)
            is None by {
            if j > 0 {
                assert(turns.skip(1)[j - 1] == turns[j]);
            }
        }
        if k < turns.len() {
            assert(turns.skip(1)[k - 1] == turns[k as int]);
        }
    }
}

/// The most messages that wait for a peer.
pub open spec fn queue_room(core: CoreState) -> int {
    if core.options.sndhwm == 0 {
        1
    } else {
        core.options.sndhwm as int
    }
}

/// The send timeout is zero.
pub open spec fn at_once(core: CoreState) -> bool {
    core.options.sndtimeo matches Some(d) && d.spec_nanos() == 0
}

/// The message was put behind those that wait for a peer, or there was no room for it.
pub open spec fn queue_tried(
    before: DealerSocket,
    after: DealerSocket,
    core: CoreState,
    running: bool,
    frames: Vec<Msg>,
    r: DealerStep,
) -> bool {
    let queue = before.pending_outgoing_queue@;
    if running && queue.len() < queue_room(core) {
        &&& r == DealerStep::Done(Ok(()))
        &&& after.pending_outgoing_queue@ == queue.push(frames)
        &&& after.notices.queue
    } else {
        &&& after.pending_outgoing_queue == before.pending_outgoing_queue
        &&& after.notices.queue == before.notices.queue
        &&& if !running {
            r matches DealerStep::Done(Err(ZmqError::InvalidState(m))) && m@
                == "Socket is closing while trying to queue"@
        } else if at_once(core) {
            r == DealerStep::Done(Err(ZmqError::ResourceLimitReached))
        } else {
            r == (DealerStep::WaitQueue { frames, timeout: core.options.sndtimeo })
        }
    }
}

/// The peer that is tried is the one at `k` in turn.
pub open spec fn is_pending(
    pending: PendingSend,
    turns: Seq<String>,
    core: CoreState,
    k: int,
    attempt: DealerAttempt,
) -> bool {
    &&& pending.uri == turns[k]
    &&& core.route(pending.uri@) == Some((pending.connection, pending.pipe_read_id))
    &&& pending.attempt == DealerAttempt {
        attempts: (attempt.attempts + k + 1) as usize,
        ..attempt
    }
}

/// A message was tried on the peers in turn, as often as is left to it. Peers that cannot be
/// written to are taken out. Where one can be, it goes behind the others and the message is
/// for it, once there is a permit; otherwise, and where no permit is free at once, the message
/// waits for a peer.
pub open spec fn attempt_made(
    before: DealerSocket,
    after: DealerSocket,
    core: CoreState,
    running: bool,
    attempt: DealerAttempt,
    r: DealerStep,
) -> bool {
    let turns = before.load_balancer.turns();
    let pipes = before.pipe_send_coordinator.pipes();
    let limit = attempts_left(attempt);
    let k = dead_in_front(turns, core, pipes, limit) as int;
    &&& after.pipe_send_coordinator == before.pipe_send_coordinator
    &&& if limit == 0 {
        &&& after.load_balancer == before.load_balancer
        &&& after.notices.peers == before.notices.peers
        &&& queue_tried(before, after, core, running, attempt.frames, r)
    } else if !running {
        &&& after == before
        &&& r matches DealerStep::Done(Err(ZmqError::InvalidState(m))) && m@
            == "Socket closing mid-send_logical_message"@
    } else {
        &&& after.notices.peers == (before.notices.peers || k > 0)
        &&& if k == limit || k == turns.len() {
            &&& after.load_balancer.turns() == turns.skip(k)
            &&& queue_tried(before, after, core, running, attempt.frames, r)
        } else {
            &&& after.load_balancer.turns() == turns.skip(k + 1).push(turns[k])
            &&& match r {
                DealerStep::Send { permit, pending } => {
                    &&& at_once(core)
                    &&& is_pending(pending, turns, core, k, attempt)
                    &&& pipe_coordinator::permit_source(permit)
                        == pipes[pending.pipe_read_id].guard()
                    &&& after.pending_outgoing_queue == before.pending_outgoing_queue
                    &&& after.notices.queue == before.notices.queue
                },
                DealerStep::WaitPermit { semaphore, timeout, pending } => {
                    &&& !at_once(core)
                    &&& timeout == core.options.sndtimeo
                    &&& is_pending(pending, turns, core, k, attempt)
                    &&& *semaphore == pipes[pending.pipe_read_id].guard()
                    &&& after.pending_outgoing_queue == before.pending_outgoing_queue
                    &&& after.notices.queue == before.notices.queue
                },
                _ => {
                    &&& at_once(core)
                    &&& pipe_coordinator::permit_refused(
                        pipes[(live_route(core, pipes, turns[k]@)->0).1].guard(),
                    )
                    &&& queue_tried(before, after, core, running, attempt.frames, r)
                },
            }
        }
    }
}

/// Everything but the peers and what waits for them is the same.
pub open spec fn same_rest(a: DealerSocket, b: DealerSocket) -> bool {
    &&& a.incoming == b.incoming
    &&& a.pipe_read_to_endpoint_uri == b.pipe_read_to_endpoint_uri
    &&& a.framing == b.framing
}

/// The socket with a peer taken out.
pub open spec fn peer_dropped(before: DealerSocket, after: DealerSocket, uri: Seq<char>) -> bool {
    &&& same_rest(after, before)
    &&& after.current_send_transaction == before.current_send_transaction
    &&& after.pending_outgoing_queue == before.pending_outgoing_queue
    &&& after.load_balancer.turns() == load_balancer::without_text(
        before.load_balancer.turns(),
        uri,
    )
    &&& after.notices == Notices { peers: true, ..before.notices }
}

impl DealerSocket {
    pub open spec fn wf(self) -> bool {
        &&& self.incoming.wf()
        &&& self.load_balancer.wf()
        &&& self.pipe_send_coordinator.wf()
    }

    /// Nobody has come yet, and nothing has arrived.
    pub open spec fn is_new(self, rcvhwm: usize) -> bool {
        &&& self.load_balancer.turns() == Seq::<String>::empty()
        &&& self.pipe_read_to_endpoint_uri@ == Map::<usize, String>::empty()
        &&& self.pending_outgoing_queue@ == Seq::<Vec<Msg>>::empty()
        &&& self.current_send_transaction is Idle
        &&& self.pipe_send_coordinator.pipes() == Map::<usize, pipe_coordinator::PipeState>::empty()
        &&& !self.framing.spec_manual()
        &&& self.notices == (Notices { queue: false, peers: false })
        &&& self.incoming.is_new(rcvhwm)
    }

    pub fn new(core: &CoreState) -> (s: DealerSocket)
        ensures
            s.wf(),
            s.is_new(core.options.rcvhwm),
    {
        DealerSocket {
            load_balancer: LoadBalancer::new(),
            incoming: IncomingMessageOrchestrator::new(core.options.rcvhwm),
            pipe_read_to_endpoint_uri: IdMap::new(),
            pending_outgoing_queue: VecDeque::new(),
            current_send_transaction: DealerSendTransaction::Idle,
            pipe_send_coordinator: WritePipeCoordinator::new(),
            framing: FramingLatch::new(),
            notices: Notices { queue: false, peers: false },
        }
    }

    /// Takes note of who is to be woken, once.
    pub fn take_notices(&mut self) -> (n: Notices)
        requires
            old(self).wf(),
        ensures
            final(self).wf(),
            n == old(self).notices,
            *final(self) == (DealerSocket {
                notices: Notices { queue: false, peers: false },
                ..*old(self)
            }),
    {
        let n = self.notices;
        self.notices = Notices { queue: false, peers: false };
        n
    }

    /// The frames of a received message that are for the application.
    pub fn process_incoming_zmtp_message_for_dealer(&self, frames: Vec<Msg>) -> (r: Vec<Msg>)
        ensures
            r@ == frames@.skip(
                envelope_len(self.framing.spec_manual(), message::frames_of(frames@)),
            ),
    {
        let mut frames = frames;
        let ghost all = frames@;
        if frames.len() == 0 || self.framing.is_manual() {
            assert(all.skip(0) =~= all);
            return frames;
        }
        if frames[0].size() != 0 {
            let _ = frames.remove(0);
            assert(frames@ =~= all.skip(1));
            if frames.len() == 0 || frames[0].size() != 0 {
                return frames;
            }
            let _ = frames.remove(0);
            assert(frames@ =~= all.skip(2));
        } else {
            let _ = frames.remove(0);
            assert(frames@ =~= all.skip(1));
        }
        frames
    }

    /// The frames that go out for a message of the application.
    pub fn prepare_full_multipart_send_sequence(&self, frames: Vec<Msg>) -> (r: Vec<Msg>)
        ensures
            message::frames_of(r@) == wire(self.framing.spec_manual(), message::frames_of(frames@)),
    {
        if self.framing.is_manual() {
            return mark_frames(frames);
        }
        let mut all: Vec<Msg> = Vec::new();
        all.push(Msg::new());
        let mut rest = frames;
        if rest.len() == 0 {
            all.push(Msg::new());
            assert(message::frames_of(all@) =~= seq![delimiter(), delimiter()]);
        } else {
            all.append(&mut rest);
            assert(message::frames_of(all@) =~= seq![delimiter()] + message::frames_of(frames@));
        }
        mark_frames(all)
    }

    /// Sends a frame. Frames are kept until the message is complete, which then goes out as a
    /// whole. The second result says whether a message that was being sent frame by frame is
    /// over with this step: those who wait for that are to be woken once the step is done.
    pub fn send(&mut self, core: &CoreState, running: bool, msg: Msg) -> (r: (DealerStep, bool))
        requires
            old(self).wf(),
        ensures
            final(self).wf(),
            same_rest(*final(self), *old(self)),
            old(self).frame_sent(*final(self), *core, running, msg, r),
    {
        if !running {
            return (DealerStep::Done(Err(socket_is_closing())), false);
        }
        let mut transaction = DealerSendTransaction::Idle;
        std::mem::swap(&mut transaction, &mut self.current_send_transaction);
        if msg.is_more() {
            match transaction {
                DealerSendTransaction::Idle => {
                    let mut parts: Vec<Msg> = Vec::new();
                    parts.push(msg);
                    assert(parts@ =~= seq![msg]);
                    self.current_send_transaction = DealerSendTransaction::Buffering(parts);
                },
                DealerSendTransaction::Buffering(parts) => {
                    if parts.len() >= MAX_DEALER_SEND_BUFFER_PARTS {
                        return (DealerStep::Done(Err(ZmqError::ResourceLimitReached)), true);
                    }
                    let mut parts = parts;
                    parts.push(msg);
                    self.current_send_transaction = DealerSendTransaction::Buffering(parts);
                },
            }
            (DealerStep::Done(Ok(())), false)
        } else {
            let (parts, buffered) = match transaction {
                DealerSendTransaction::Idle => {
                    let mut parts: Vec<Msg> = Vec::new();
                    parts.push(msg);
                    (parts, false)
                },
                DealerSendTransaction::Buffering(mut parts) => {
                    parts.push(msg);
                    (parts, true)
                },
            };
            assert(parts@ =~= old(self).parts_so_far().push(msg));
            let frames = self.prepare_full_multipart_send_sequence(parts);
            let ghost before = *self;
            let step = self.send_logical_message(core, running, frames);
            assert(logical_sent(before, *self, *core, running, frames, step));
            (step, buffered)
        }
    }

    /// The frames so far of the message that is being sent frame by frame.
    pub open spec fn parts_so_far(self) -> Seq<Msg> {
        match self.current_send_transaction {
            DealerSendTransaction::Idle => Seq::empty(),
            DealerSendTransaction::Buffering(parts) => parts@,
        }
    }

    /// What sending a frame changes and comes to at first.
    pub open spec fn frame_sent(
        self,
        after: DealerSocket,
        core: CoreState,
        running: bool,
        msg: Msg,
        r: (DealerStep, bool),
    ) -> bool {
        let parts = self.parts_so_far();
        let buffering = self.current_send_transaction is Buffering;
        if !running {
            &&& after == self
            &&& !r.1
            &&& r.0 matches DealerStep::Done(Err(e)) && incoming_orchestrator::is_closing_error(e)
        } else if msg@.more {
            &&& after == DealerSocket {
                current_send_transaction: after.current_send_transaction,
                ..self
            }
            &&& if parts.len() >= MAX_DEALER_SEND_BUFFER_PARTS {
                &&& after.current_send_transaction is Idle
                &&& r.0 == DealerStep::Done(Err(ZmqError::ResourceLimitReached))
                &&& r.1
            } else {
                &&& after.current_send_transaction is Buffering
                &&& after.parts_so_far() == parts.push(msg)
                &&& r.0 == DealerStep::Done(Ok(()))
                &&& !r.1
            }
        } else {
            &&& after.current_send_transaction is Idle
            &&& r.1 == buffering
            &&& exists|frames: Vec<Msg>|
                message::frames_of(frames@) == wire(
                    self.framing.spec_manual(),
                    message::frames_of(parts.push(msg)),
                ) && #[trigger] logical_sent(
                    DealerSocket { current_send_transaction: DealerSendTransaction::Idle, ..self },
                    after,
                    core,
                    running,
                    frames,
                    r.0,
                )
        }
    }

    /// Sends a whole message.
    pub fn send_multipart(&mut self, core: &CoreState, running: bool, user_frames: Vec<Msg>) -> (r:
        DealerMultipartStep)
        requires
            old(self).wf(),
        ensures
            final(self).wf(),
            same_rest(*final(self), *old(self)),
            final(self).current_send_transaction == old(self).current_send_transaction,
            if running {
                multipart_sent(*old(self), *final(self), *core, user_frames, r)
            } else {
                *final(self) == *old(self) && (r matches DealerMultipartStep::Step(
                    DealerStep::Done(Err(e)),
                ) && incoming_orchestrator::is_closing_error(e))
            },
    {
        if !running {
            return DealerMultipartStep::Step(DealerStep::Done(Err(socket_is_closing())));
        }
        self.multipart_step(core, user_frames)
    }

    /// Sends a whole message after a wait for another, sent frame by frame, to be over.
    pub fn send_multipart_waited(&mut self, core: &CoreState, running: bool, user_frames: Vec<Msg>)
        -> (r: DealerMultipartStep)
        requires
            old(self).wf(),
        ensures
            final(self).wf(),
            same_rest(*final(self), *old(self)),
            final(self).current_send_transaction == old(self).current_send_transaction,
            if running {
                multipart_sent(*old(self), *final(self), *core, user_frames, r)
            } else {
                *final(self) == *old(self) && (r matches DealerMultipartStep::Step(
                    DealerStep::Done(Err(ZmqError::InvalidState(m))),
                ) && m@ == "Socket is closing while waiting for prior send tx"@)
            },
    {
        if !running {
            return DealerMultipartStep::Step(
                DealerStep::Done(
                    Err(
                        ZmqError::InvalidState(
                            "Socket is closing while waiting for prior send tx".to_owned(),
                        ),
                    ),
                ),
            );
        }
        self.multipart_step(core, user_frames)
    }

    fn multipart_step(&mut self, core: &CoreState, user_frames: Vec<Msg>) -> (r:
        DealerMultipartStep)
        requires
            old(self).wf(),
        ensures
            final(self).wf(),
            same_rest(*final(self), *old(self)),
            final(self).current_send_transaction == old(self).current_send_transaction,
            multipart_sent(*old(self), *final(self), *core, user_frames, r),
    {
        match self.current_send_transaction {
            DealerSendTransaction::Idle => {
                let frames = self.prepare_full_multipart_send_sequence(user_frames);
                let step = self.send_logical_message(core, true, frames);
                assert(logical_sent(*old(self), *self, *core, true, frames, step));
                DealerMultipartStep::Step(step)
            },
            DealerSendTransaction::Buffering(_) => {
                if let Some(d) = core.options.sndtimeo {
                    if d.is_zero() {
                        return DealerMultipartStep::Step(
                            DealerStep::Done(Err(ZmqError::ResourceLimitReached)),
                        );
                    }
                }
                DealerMultipartStep::WaitTransaction {
                    frames: user_frames,
                    timeout: core.options.sndtimeo,
                }
            },
        }
    }

    /// Sends a message, as it goes out, to the next peer that takes it.
    pub fn send_logical_message(
        &mut self,
        core: &CoreState,
        running: bool,
        zmtp_wire_frames: Vec<Msg>,
    ) -> (r: DealerStep)
        requires
            old(self).wf(),
        ensures
            final(self).wf(),
            same_rest(*final(self), *old(self)),
            final(self).current_send_transaction == old(self).current_send_transaction,
            logical_sent(*old(self), *final(self), *core, running, zmtp_wire_frames, r),
    {
        if !running {
            return DealerStep::Done(
                Err(ZmqError::InvalidState("Socket is closing or terminated".to_owned())),
            );
        }
        let attempt = self.first_attempt(zmtp_wire_frames);
        self.next_attempt(core, running, attempt)
    }

    fn first_attempt(&self, frames: Vec<Msg>) -> (a: DealerAttempt)
        ensures
            a == begun(*self, frames),
    {
        let count: usize = self.load_balancer.connection_count();
        let max_attempts: usize = if count > 1 {
            count
        } else {
            1
        };
        DealerAttempt { frames, attempts: 0, max_attempts }
    }

    /// Tries a message on the peers in turn.
    pub fn next_attempt(&mut self, core: &CoreState, running: bool, attempt: DealerAttempt) -> (r:
        DealerStep)
        requires
            old(self).wf(),
        ensures
            final(self).wf(),
            same_rest(*final(self), *old(self)),
            final(self).current_send_transaction == old(self).current_send_transaction,
            attempt_made(*old(self), *final(self), *core, running, attempt, r),
    {
        let ghost before = *self;
        let ghost turns = self.load_balancer.turns();
        let ghost pipes = self.pipe_send_coordinator.pipes();
        let DealerAttempt { frames, attempts: first, max_attempts } = attempt;
        let ghost limit = if first < max_attempts {
            (max_attempts - first) as nat
        } else {
            0
        };
        let mut attempts: usize = first;
        assert(turns.skip(0) =~= turns);
        loop
            invariant
                self.wf(),
                same_rest(*self, before),
                self.current_send_transaction == before.current_send_transaction,
                self.pending_outgoing_queue == before.pending_outgoing_queue,
                self.pipe_send_coordinator == before.pipe_send_coordinator,
                self.notices.queue == before.notices.queue,
                self.notices.peers == (before.notices.peers || attempts > first),
                before == *old(self),
                turns == before.load_balancer.turns(),
                pipes == before.pipe_send_coordinator.pipes(),
                load_balancer::texts_distinct(turns),
                attempt == (DealerAttempt { frames, attempts: first, max_attempts }),
                limit == if first < max_attempts {
                    (max_attempts - first) as nat
                } else {
                    0
                },
                first <= attempts,
                attempts - first <= limit,
                attempts - first <= turns.len(),
                attempts > first ==> running,
                self.load_balancer.turns() == turns.skip(attempts - first),
                attempts == first ==> self.load_balancer == before.load_balancer,
                forall|j: int|
                    0 <= j < attempts - first ==> live_route(*core, pipes, (#[trigger] turns[j])@) is None,
            decreases limit - (attempts - first),
        {
            if attempts >= max_attempts {
                let ghost k = (attempts - first) as nat;
                proof {
                    lemma_dead_in_front(turns, *core, pipes, limit, k);
                }
                return self.queue_message_or_error(core, running, frames);
            }
            let ghost k = (attempts - first) as nat;
            if !running {
                return DealerStep::Done(
                    Err(ZmqError::InvalidState("Socket closing mid-send_logical_message".to_owned())),
                );
            }
            attempts += 1;
            let uri = match self.load_balancer.get_next_connection_uri() {
                Some(uri) => uri,
                None => {
                    proof {
                        lemma_dead_in_front(turns, *core, pipes, limit, k);
                    }
                    return self.queue_message_or_error(core, running, frames);
                },
            };
            assert(uri == turns[k as int]);
            assert(turns.skip(k as int).skip(1) =~= turns.skip(k as int + 1));
            let ghost rotated = self.load_balancer.turns();
            if let Some((connection, pipe_read_id)) = core.route_of(uri.as_str()) {
                match self.pipe_send_coordinator.acquire_send_permit(
                    pipe_read_id,
                    core.options.sndtimeo,
                ) {
                    PermitStep::Done(Ok(permit)) => {
                        proof {
                            lemma_dead_in_front(turns, *core, pipes, limit, k);
                        }
                        let attempt = DealerAttempt { frames, attempts, max_attempts };
                        return DealerStep::Send {
                            permit,
                            pending: PendingSend { uri, connection, pipe_read_id, attempt },
                        };
                    },
                    PermitStep::Wait(semaphore, timeout) => {
                        proof {
                            lemma_dead_in_front(turns, *core, pipes, limit, k);
                        }
                        let attempt = DealerAttempt { frames, attempts, max_attempts };
                        return DealerStep::WaitPermit {
                            semaphore,
                            timeout,
                            pending: PendingSend { uri, connection, pipe_read_id, attempt },
                        };
                    },
                    PermitStep::Done(Err(ZmqError::HostUnreachable(_))) => {},
                    PermitStep::Done(Err(_)) => {
                        proof {
                            lemma_dead_in_front(turns, *core, pipes, limit, k);
                        }
                        return self.queue_message_or_error(core, running, frames);
                    },
                }
            }
            self.load_balancer.remove_connection(uri.as_str());
            self.notices.peers = true;
            proof {
                load_balancer::lemma_remove_distinct(rotated, rotated.len() - 1);
                assert(rotated.remove(rotated.len() - 1) =~= turns.skip(k as int + 1));
            }
        }
    }

    /// Puts a message behind those that wait for a peer.
    pub fn queue_message_or_error(&mut self, core: &CoreState, running: bool, frames: Vec<Msg>) -> (r:
        DealerStep)
        requires
            old(self).wf(),
        ensures
            final(self).wf(),
            same_rest(*final(self), *old(self)),
            final(self).current_send_transaction == old(self).current_send_transaction,
            final(self).load_balancer == old(self).load_balancer,
            final(self).pipe_send_coordinator == old(self).pipe_send_coordinator,
            final(self).notices.peers == old(self).notices.peers,
            queue_tried(*old(self), *final(self), *core, running, frames, r),
    {
        if !running {
            return DealerStep::Done(
                Err(ZmqError::InvalidState("Socket is closing while trying to queue".to_owned())),
            );
        }
        let room: usize = if core.options.sndhwm > 1 {
            core.options.sndhwm
        } else {
            1
        };
        if self.pending_outgoing_queue.len() < room {
            self.pending_outgoing_queue.push_back(frames);
            self.notices.queue = true;
            return DealerStep::Done(Ok(()));
        }
        if let Some(d) = core.options.sndtimeo {
            if d.is_zero() {
                return DealerStep::Done(Err(ZmqError::ResourceLimitReached));
            }
        }
        DealerStep::WaitQueue { frames, timeout: core.options.sndtimeo }
    }

    /// Goes on with a message after a wait for a permit. Where the time has lapsed, the message
    /// waits for a peer; where the pipe is gone, so is the peer, and the next one is tried.
    pub fn permitted(
        &mut self,
        core: &CoreState,
        running: bool,
        pending: PendingSend,
        outcome: Result<OwnedSemaphorePermit, ZmqError>,
    ) -> (r: DealerStep)
        requires
            old(self).wf(),
        ensures
            final(self).wf(),
            same_rest(*final(self), *old(self)),
            final(self).current_send_transaction == old(self).current_send_transaction,
            match outcome {
                Ok(permit) => *final(self) == *old(self) && r == (DealerStep::Send {
                    permit,
                    pending,
                }),
                Err(ZmqError::ResourceLimitReached) | Err(ZmqError::Timeout) => {
                    &&& final(self).load_balancer == old(self).load_balancer
                    &&& final(self).pipe_send_coordinator == old(self).pipe_send_coordinator
                    &&& final(self).notices.peers == old(self).notices.peers
                    &&& queue_tried(
                        *old(self),
                        *final(self),
                        *core,
                        running,
                        pending.attempt.frames,
                        r,
                    )
                },
                Err(ZmqError::HostUnreachable(_)) => exists|mid: DealerSocket|
                    {
                        &&& peer_dropped(*old(self), mid, pending.uri@)
                        &&& mid.pipe_send_coordinator == old(self).pipe_send_coordinator
                        &&& #[trigger] attempt_made(
                            mid,
                            *final(self),
                            *core,
                            running,
                            pending.attempt,
                            r,
                        )
                    },
                Err(e) => *final(self) == *old(self) && r == DealerStep::Done(Err(e)),
            },
    {
        match outcome {
            Ok(permit) => DealerStep::Send { permit, pending },
            Err(ZmqError::ResourceLimitReached) => self.queue_message_or_error(
                core,
                running,
                pending.attempt.frames,
            ),
            Err(ZmqError::Timeout) => self.queue_message_or_error(
                core,
                running,
                pending.attempt.frames,
            ),
            Err(ZmqError::HostUnreachable(_)) => {
                self.load_balancer.remove_connection(pending.uri.as_str());
                self.notices.peers = true;
                let ghost mid = *self;
                let attempt = pending.attempt;
                let r = self.next_attempt(core, running, attempt);
                assert(attempt_made(mid, *self, *core, running, attempt, r));
                r
            },
            Err(e) => DealerStep::Done(Err(e)),
        }
    }

    /// Notes the outcome of sending a message to a peer. The next peer is tried where this one
    /// is slow, or is gone, in which case it is taken out.
    pub fn sent(
        &mut self,
        core: &CoreState,
        running: bool,
        pending: PendingSend,
        result: Result<(), ZmqError>,
    ) -> (r: DealerStep)
        requires
            old(self).wf(),
        ensures
            final(self).wf(),
            same_rest(*final(self), *old(self)),
            final(self).current_send_transaction == old(self).current_send_transaction,
            match result {
                Ok(()) => *final(self) == *old(self) && r == DealerStep::Done(Ok(())),
                Err(ZmqError::ResourceLimitReached) | Err(ZmqError::Timeout) => attempt_made(
                    *old(self),
                    *final(self),
                    *core,
                    running,
                    pending.attempt,
                    r,
                ),
                Err(ZmqError::ConnectionClosed) | Err(ZmqError::HostUnreachable(_)) => exists|
                    mid: DealerSocket,
                |
                    {
                        &&& peer_dropped(*old(self), mid, pending.uri@)
                        &&& mid.pipe_send_coordinator.pipes() == old(self).pipe_send_coordinator.pipes().remove(pending.pipe_read_id)
                        &&& pipe_coordinator::writers_stopped(
                            old(self).pipe_send_coordinator.pipes(),
                            pending.pipe_read_id,
                        )
                        &&& #[trigger] attempt_made(
                            mid,
                            *final(self),
                            *core,
                            running,
                            pending.attempt,
                            r,
                        )
                    },
                Err(e) => *final(self) == *old(self) && r == DealerStep::Done(Err(e)),
            },
    {
        match result {
            Ok(()) => DealerStep::Done(Ok(())),
            Err(ZmqError::ResourceLimitReached) => self.next_attempt(core, running, pending.attempt),
            Err(ZmqError::Timeout) => self.next_attempt(core, running, pending.attempt),
            Err(ZmqError::ConnectionClosed) => self.drop_peer_and_go_on(core, running, pending),
            Err(ZmqError::HostUnreachable(_)) => self.drop_peer_and_go_on(core, running, pending),
            Err(e) => DealerStep::Done(Err(e)),
        }
    }

    fn drop_peer(&mut self, uri: &str, pipe_read_id: usize)
        requires
            old(self).wf(),
        ensures
            final(self).wf(),
            peer_dropped(*old(self), *final(self), uri@),
            final(self).pipe_send_coordinator.pipes() == old(self).pipe_send_coordinator.pipes().remove(pipe_read_id),
            pipe_coordinator::writers_stopped(
                old(self).pipe_send_coordinator.pipes(),
                pipe_read_id,
            ),
    {
        self.load_balancer.remove_connection(uri);
        let _ = self.pipe_send_coordinator.remove_pipe(pipe_read_id);
        self.notices.peers = true;
    }

    fn drop_peer_and_go_on(&mut self, core: &CoreState, running: bool, pending: PendingSend) -> (r:
        DealerStep)
        requires
            old(self).wf(),
        ensures
            final(self).wf(),
            same_rest(*final(self), *old(self)),
            final(self).current_send_transaction == old(self).current_send_transaction,
            exists|mid: DealerSocket|
                {
                    &&& peer_dropped(*old(self), mid, pending.uri@)
                    &&& mid.pipe_send_coordinator.pipes() == old(self).pipe_send_coordinator.pipes().remove(pending.pipe_read_id)
                    &&& pipe_coordinator::writers_stopped(
                        old(self).pipe_send_coordinator.pipes(),
                        pending.pipe_read_id,
                    )
                    &&& #[trigger] attempt_made(
                        mid,
                        *final(self),
                        *core,
                        running,
                        pending.attempt,
                        r,
                    )
                },
    {
        self.drop_peer(pending.uri.as_str(), pending.pipe_read_id);
        let ghost mid = *self;
        let attempt = pending.attempt;
        let r = self.next_attempt(core, running, attempt);
        assert(attempt_made(mid, *self, *core, running, attempt, r));
        r
    }
}

/// A message begins to be tried: as often as there are peers, and once where there is none.
pub open spec fn begun(socket: DealerSocket, frames: Vec<Msg>) -> DealerAttempt {
    let count = socket.load_balancer.turns().len();
    DealerAttempt {
        frames,
        attempts: 0,
        max_attempts: if count > 1 {
            count as usize
        } else {
            1
        },
    }
}

/// A message was sent, as it goes out, to the next peer that takes it.
pub open spec fn logical_sent(
    before: DealerSocket,
    after: DealerSocket,
    core: CoreState,
    running: bool,
    frames: Vec<Msg>,
    r: DealerStep,
) -> bool {
    if running {
        attempt_made(before, after, core, running, begun(before, frames), r)
    } else {
        after == before && (r matches DealerStep::Done(Err(ZmqError::InvalidState(m))) && m@
            == "Socket is closing or terminated"@)
    }
}

/// A whole message was sent, unless another is being sent frame by frame.
pub open spec fn multipart_sent(
    before: DealerSocket,
    after: DealerSocket,
    core: CoreState,
    user_frames: Vec<Msg>,
    r: DealerMultipartStep,
) -> bool {
    if before.current_send_transaction is Idle {
        r matches DealerMultipartStep::Step(step) && exists|frames: Vec<Msg>|
            message::frames_of(frames@) == wire(
                before.framing.spec_manual(),
                message::frames_of(user_frames@),
            ) && #[trigger] logical_sent(before, after, core, true, frames, step)
    } else {
        &&& after == before
        &&& if at_once(core) {
            r == DealerMultipartStep::Step(DealerStep::Done(Err(ZmqError::ResourceLimitReached)))
        } else {
            r == (DealerMultipartStep::WaitTransaction {
                frames: user_frames,
                timeout: core.options.sndtimeo,
            })
        }
    }
}

// ---------------------------------------------------------------------------
// The messages that wait for a peer
// ---------------------------------------------------------------------------
/// One attempt was made to send a message that waited. It waits again, in front of the others,
/// when no attempt is left, when there is no peer, and when the socket is being closed; in the
/// last case twice.
pub open spec fn outgoing_attempt_made(
    before: DealerSocket,
    after: DealerSocket,
    core: CoreState,
    running: bool,
    attempt: DealerAttempt,
    r: OutgoingStep,
) -> bool {
    let turns = before.load_balancer.turns();
    let rotated = turns.skip(1).push(turns[0]);
    let route = core.route(turns[0]@);
    let next = DealerAttempt { attempts: (attempt.attempts + 1) as usize, ..attempt };
    if attempt.attempts >= attempt.max_attempts || (running && turns.len() == 0) {
        &&& r is Requeued
        &&& after == DealerSocket {
            pending_outgoing_queue: after.pending_outgoing_queue,
            notices: Notices { queue: true, ..before.notices },
            ..before
        }
        &&& after.pending_outgoing_queue@ == seq![attempt.frames] + before.pending_outgoing_queue@
    } else if !running {
        &&& r is Requeued
        &&& after == DealerSocket {
            pending_outgoing_queue: after.pending_outgoing_queue,
            notices: Notices { queue: true, ..before.notices },
            ..before
        }
        &&& after.pending_outgoing_queue@.len() == before.pending_outgoing_queue@.len() + 2
        &&& after.pending_outgoing_queue@[0] == attempt.frames
        &&& message::frames_of(after.pending_outgoing_queue@[1]@) == message::frames_of(
            attempt.frames@,
        )
        &&& after.pending_outgoing_queue@.skip(2) == before.pending_outgoing_queue@
    } else {
        &&& after.pending_outgoing_queue == before.pending_outgoing_queue
        &&& after.pipe_send_coordinator == before.pipe_send_coordinator
        &&& if live_route(core, before.pipe_send_coordinator.pipes(), turns[0]@) is None {
            &&& r == OutgoingStep::Next(next)
            &&& after.load_balancer.turns() == turns.skip(1)
            &&& after.notices == Notices { peers: true, ..before.notices }
        } else {
            let pending = PendingSend {
                uri: turns[0],
                connection: (route->0).0,
                pipe_read_id: (route->0).1,
                attempt: next,
            };
            let guard = before.pipe_send_coordinator.pipes()[(route->0).1].guard();
            &&& after.load_balancer.turns() == rotated
            &&& after.notices == before.notices
            &&& if at_once(core) {
                match r {
                    OutgoingStep::Send { permit, pending: p } => p == pending
                        && pipe_coordinator::permit_source(permit) == guard,
                    _ => r == OutgoingStep::Next(next) && pipe_coordinator::permit_refused(guard),
                }
            } else {
                r matches OutgoingStep::WaitPermit { pending: p, timeout: t, semaphore } && p
                    == pending && t == core.options.sndtimeo && *semaphore == guard
            }
        }
    }
}

/// The turns after `n` attempts that came to nothing: a peer that cannot be written to is taken
/// out, any other goes behind the rest.
pub open spec fn turns_after(
    turns: Seq<String>,
    core: CoreState,
    pipes: Map<usize, pipe_coordinator::PipeState>,
    n: nat,
) -> Seq<String>
    decreases n,
{
    if n == 0 {
        turns
    } else {
        let t = turns_after(turns, core, pipes, (n - 1) as nat);
        if t.len() == 0 {
            t
        } else if live_route(core, pipes, t[0]@) is None {
            t.skip(1)
        } else {
            t.skip(1).push(t[0])
        }
    }
}

/// The peer can be written to and was asked for a permit at once, and none was free.
pub open spec fn peer_refused(
    core: CoreState,
    pipes: Map<usize, pipe_coordinator::PipeState>,
    uri: Seq<char>,
) -> bool {
    &&& at_once(core)
    &&& live_route(core, pipes, uri) matches Some((_, pipe)) && pipe_coordinator::permit_refused(
        pipes[pipe].guard(),
    )
}

/// Each of the first `n` attempts found a peer, and that peer could not be written to or
/// refused.
pub open spec fn came_to_nothing(
    turns: Seq<String>,
    core: CoreState,
    pipes: Map<usize, pipe_coordinator::PipeState>,
    n: nat,
) -> bool {
    forall|i: nat|
        i < n ==> {
            let t = #[trigger] turns_after(turns, core, pipes, i);
            &&& t.len() > 0
            &&& live_route(core, pipes, t[0]@) is None || peer_refused(core, pipes, t[0]@)
        }
}

/// One of the first `n` attempts found a peer that cannot be written to.
pub open spec fn peer_taken_out(
    turns: Seq<String>,
    core: CoreState,
    pipes: Map<usize, pipe_coordinator::PipeState>,
    n: nat,
) -> bool {
    exists|i: nat|
        i < n && live_route(core, pipes, (#[trigger] turns_after(turns, core, pipes, i))[0]@)
            is None
}

/// After `n` attempts that came to nothing the message waits again, in front of the others, or
/// is for the peer whose turn it then is.
pub open spec fn settled_after(
    before: DealerSocket,
    after: DealerSocket,
    core: CoreState,
    attempt: DealerAttempt,
    n: nat,
    r: OutgoingStep,
) -> bool {
    let turns = before.load_balancer.turns();
    let pipes = before.pipe_send_coordinator.pipes();
    let t = turns_after(turns, core, pipes, n);
    let tried = DealerAttempt { attempts: (attempt.attempts + n) as usize, ..attempt };
    &&& n <= attempts_left(attempt)
    &&& came_to_nothing(turns, core, pipes, n)
    &&& after.notices.peers == (before.notices.peers || peer_taken_out(turns, core, pipes, n))
    &&& if n == attempts_left(attempt) || t.len() == 0 {
        &&& r is Requeued
        &&& after.load_balancer.turns() == t
        &&& after.notices.queue
        &&& after.pending_outgoing_queue@ == seq![attempt.frames] + before.pending_outgoing_queue@
    } else {
        &&& live_route(core, pipes, t[0]@) is Some
        &&& after.load_balancer.turns() == t.skip(1).push(t[0])
        &&& after.notices.queue == before.notices.queue
        &&& after.pending_outgoing_queue == before.pending_outgoing_queue
        &&& match r {
            OutgoingStep::Send { permit, pending } => {
                &&& at_once(core)
                &&& is_pending(pending, t, core, 0, tried)
                &&& pipe_coordinator::permit_source(permit) == pipes[pending.pipe_read_id].guard()
            },
            OutgoingStep::WaitPermit { semaphore, timeout, pending } => {
                &&& !at_once(core)
                &&& timeout == core.options.sndtimeo
                &&& is_pending(pending, t, core, 0, tried)
                &&& *semaphore == pipes[pending.pipe_read_id].guard()
            },
            _ => false,
        }
    }
}

/// A message that waited was tried on the peers in turn. Those in front that cannot be written
/// to are taken out. Where that leaves no peer, or no attempt, the message waits again. Where
/// the next peer may be waited for, the message is for it. Otherwise the peers are asked one
/// after another, as often as attempts are left, and the message is for the first that has a
/// permit free, or waits again where all of them refused.
pub open spec fn outgoing_made(
    before: DealerSocket,
    after: DealerSocket,
    core: CoreState,
    running: bool,
    attempt: DealerAttempt,
    r: OutgoingStep,
) -> bool {
    let turns = before.load_balancer.turns();
    let pipes = before.pipe_send_coordinator.pipes();
    let limit = attempts_left(attempt);
    let k = dead_in_front(turns, core, pipes, limit) as int;
    if limit == 0 || !running {
        outgoing_attempt_made(before, after, core, running, attempt, r)
    } else if k == limit || k == turns.len() {
        &&& r is Requeued
        &&& after.load_balancer.turns() == turns.skip(k)
        &&& after.notices == (Notices { queue: true, peers: before.notices.peers || k > 0 })
        &&& after.pending_outgoing_queue@ == seq![attempt.frames] + before.pending_outgoing_queue@
    } else if !at_once(core) {
        &&& r matches OutgoingStep::WaitPermit { semaphore, timeout, pending } && is_pending(
            pending,
            turns,
            core,
            k,
            attempt,
        ) && timeout == core.options.sndtimeo && *semaphore
            == pipes[pending.pipe_read_id].guard()
        &&& after.load_balancer.turns() == turns.skip(k + 1).push(turns[k])
        &&& after.notices == (Notices { peers: before.notices.peers || k > 0, ..before.notices })
        &&& after.pending_outgoing_queue == before.pending_outgoing_queue
    } else {
        &&& exists|n: nat| k <= n && #[trigger] settled_after(before, after, core, attempt, n, r)
        &&& r is Requeued ==> forall|j: int|
            0 <= j < limit && j < turns.len() && live_route(
                core,
                pipes,
                (#[trigger] turns[j])@,
            ) is Some ==> peer_refused(core, pipes, turns[j]@)
    }
}

/// What is left of the first turn stands in front, in its order, until everybody had a turn.
proof fn lemma_turns_after(
    turns: Seq<String>,
    core: CoreState,
    pipes: Map<usize, pipe_coordinator::PipeState>,
    n: nat,
)
    requires
        n <= turns.len(),
    ensures
        turns_after(turns, core, pipes, n).len() >= turns.len() - n,
        turns_after(turns, core, pipes, n).take(turns.len() - n) == turns.skip(n as int),
    decreases n,
{
    if n > 0 {
        let p = (n - 1) as nat;
        lemma_turns_after(turns, core, pipes, p);
        let t = turns_after(turns, core, pipes, p);
        let rest = turns.skip(p as int);
        assert(t.take(turns.len() - p)[0] == rest[0]);
        assert forall|j: int| 0 <= j < turns.len() - n implies #[trigger] turns_after(
            turns,
            core,
            pipes,
            n,
        )[j] == turns[j + n] by {
            assert(t[j + 1] == t.take(turns.len() - p)[j + 1]);
        }
        assert(turns_after(turns, core, pipes, n).take(turns.len() - n) =~= turns.skip(n as int));
    }
}

/// While the peers in front cannot be written to, attempts take them out one by one.
proof fn lemma_turns_after_dead(
    turns: Seq<String>,
    core: CoreState,
    pipes: Map<usize, pipe_coordinator::PipeState>,
    limit: nat,
    n: nat,
)
    requires
        n <= dead_in_front(turns, core, pipes, limit),
    ensures
        n <= turns.len(),
        n <= limit,
        turns_after(turns, core, pipes, n) == turns.skip(n as int),
        n < dead_in_front(turns, core, pipes, limit) ==> n < turns.len() && live_route(
            core,
            pipes,
            turns[n as int]@,
        ) is None,
        n == dead_in_front(turns, core, pipes, limit) ==> n == limit || n == turns.len()
            || live_route(core, pipes, turns[n as int]@) is Some,
    decreases n,
{
    lemma_dead_bounds(turns, core, pipes, limit);
    if n == 0 {
        assert(turns.skip(0) =~= turns);
    } else {
        lemma_turns_after_dead(turns, core, pipes, limit, (n - 1) as nat);
        assert(turns.skip(n - 1).skip(1) =~= turns.skip(n as int));
        assert(turns.skip(n - 1)[0] == turns[n - 1]);
    }
}

/// Where the attempts ended is where `outgoing_made` says.
proof fn lemma_settled(
    before: DealerSocket,
    after: DealerSocket,
    core: CoreState,
    attempt: DealerAttempt,
    n: nat,
    r: OutgoingStep,
)
    requires
        attempts_left(attempt) > 0,
        settled_after(before, after, core, attempt, n, r),
    ensures
        outgoing_made(before, after, core, true, attempt, r),
{
    let turns = before.load_balancer.turns();
    let pipes = before.pipe_send_coordinator.pipes();
    let limit = attempts_left(attempt);
    let k = dead_in_front(turns, core, pipes, limit);
    lemma_dead_bounds(turns, core, pipes, limit);
    lemma_turns_after_dead(turns, core, pipes, limit, k);
    if n < k {
        lemma_turns_after_dead(turns, core, pipes, limit, n);
        assert(turns.skip(n as int)[0] == turns[n as int]);
        assert(false);
    }
    if k > 0 {
        assert(turns_after(turns, core, pipes, 0)[0] == turns[0]);
        assert(peer_taken_out(turns, core, pipes, n));
    }
    if n > k {
        let t = turns_after(turns, core, pipes, k);
        assert(t.len() > 0);
        assert(t[0] == turns[k as int]);
        assert(peer_refused(core, pipes, t[0]@));
    }
    if n == k {
        assert(k == 0 ==> !peer_taken_out(turns, core, pipes, n));
        if k < turns.len() {
            assert(turns.skip(k as int)[0] == turns[k as int]);
            assert(turns.skip(k as int).skip(1) =~= turns.skip(k as int + 1));
        }
    }
    if k < limit && k < turns.len() && at_once(core) && r is Requeued {
        assert forall|j: int|
            0 <= j < limit && j < turns.len() && live_route(core, pipes, (#[trigger] turns[j])@)
                is Some implies peer_refused(core, pipes, turns[j]@) by {
            if n <= j {
                lemma_turns_after(turns, core, pipes, n);
            }
            lemma_turns_after(turns, core, pipes, j as nat);
            let t = turns_after(turns, core, pipes, j as nat);
            assert(t.take(turns.len() - j)[0] == turns.skip(j)[0]);
            assert(t[0] == turns[j]);
        }
    }
}

impl DealerSocket {
    /// Takes the first message that waits, where there is a peer that it could go to.
    pub fn take_pending(&mut self) -> (r: Option<DealerAttempt>)
        requires
            old(self).wf(),
        ensures
            final(self).wf(),
            if old(self).pending_outgoing_queue@.len() > 0 && old(self).load_balancer.turns().len() > 0 {
                &&& r == Some(begun(*old(self), old(self).pending_outgoing_queue@[0]))
                &&& *final(self) == (DealerSocket {
                    pending_outgoing_queue: final(self).pending_outgoing_queue,
                    ..*old(self)
                })
                &&& final(self).pending_outgoing_queue@ == old(self).pending_outgoing_queue@.skip(1)
            } else {
                r is None && *final(self) == *old(self)
            },
    {
        if self.pending_outgoing_queue.len() > 0 && self.load_balancer.has_connections() {
            match self.pending_outgoing_queue.pop_front() {
                Some(frames) => {
                    assert(self.pending_outgoing_queue@ =~= old(self).pending_outgoing_queue@.skip(1));
                    Some(self.first_attempt(frames))
                },
                None => None,
            }
        } else {
            None
        }
    }

    fn requeue(&mut self, frames: Vec<Msg>)
        requires
            old(self).wf(),
        ensures
            final(self).wf(),
            *final(self) == (DealerSocket {
                pending_outgoing_queue: final(self).pending_outgoing_queue,
                notices: Notices { queue: true, ..old(self).notices },
                ..*old(self)
            }),
            final(self).pending_outgoing_queue@ == seq![frames] + old(self).pending_outgoing_queue@,
    {
        self.pending_outgoing_queue.push_front(frames);
        self.notices.queue = true;
    }

    /// Tries a message that waited on the peer whose turn it is.
    pub fn outgoing_attempt(&mut self, core: &CoreState, running: bool, attempt: DealerAttempt) -> (r:
        OutgoingStep)
        requires
            old(self).wf(),
        ensures
            final(self).wf(),
            same_rest(*final(self), *old(self)),
            final(self).current_send_transaction == old(self).current_send_transaction,
            outgoing_attempt_made(*old(self), *final(self), *core, running, attempt, r),
    {
        let DealerAttempt { frames, attempts, max_attempts } = attempt;
        if attempts >= max_attempts {
            self.requeue(frames);
            return OutgoingStep::Requeued;
        }
        if !running {
            let copy = copy_frames(&frames);
            self.requeue(copy);
            self.requeue(frames);
            assert(self.pending_outgoing_queue@.skip(2) =~= old(self).pending_outgoing_queue@);
            return OutgoingStep::Requeued;
        }
        let ghost turns = self.load_balancer.turns();
        let uri = match self.load_balancer.get_next_connection_uri() {
            Some(uri) => uri,
            None => {
                self.requeue(frames);
                return OutgoingStep::Requeued;
            },
        };
        let ghost rotated = self.load_balancer.turns();
        let next = DealerAttempt { frames, attempts: attempts + 1, max_attempts };
        if let Some((connection, pipe_read_id)) = core.route_of(uri.as_str()) {
            match self.pipe_send_coordinator.acquire_send_permit(
                pipe_read_id,
                core.options.sndtimeo,
            ) {
                PermitStep::Done(Ok(permit)) => {
                    return OutgoingStep::Send {
                        permit,
                        pending: PendingSend { uri, connection, pipe_read_id, attempt: next },
                    };
                },
                PermitStep::Wait(semaphore, timeout) => {
                    return OutgoingStep::WaitPermit {
                        semaphore,
                        timeout,
                        pending: PendingSend { uri, connection, pipe_read_id, attempt: next },
                    };
                },
                PermitStep::Done(Err(ZmqError::HostUnreachable(_))) => {},
                PermitStep::Done(Err(_)) => {
                    return OutgoingStep::Next(next);
                },
            }
        }
        self.load_balancer.remove_connection(uri.as_str());
        self.notices.peers = true;
        proof {
            load_balancer::lemma_remove_distinct(rotated, rotated.len() - 1);
            assert(rotated.remove(rotated.len() - 1) =~= turns.skip(1));
        }
        OutgoingStep::Next(next)
    }

    /// Tries a message that waited on one peer after another, until one takes it or the message
    /// waits again. Who holds the permits decides only with a send timeout of zero, and only
    /// which peer is the first to have one free.
    pub fn outgoing_next(&mut self, core: &CoreState, running: bool, attempt: DealerAttempt) -> (r:
        OutgoingStep)
        requires
            old(self).wf(),
        ensures
            final(self).wf(),
            same_rest(*final(self), *old(self)),
            final(self).current_send_transaction == old(self).current_send_transaction,
            final(self).pipe_send_coordinator == old(self).pipe_send_coordinator,
            outgoing_made(*old(self), *final(self), *core, running, attempt, r),
    {
        let ghost before = *self;
        let ghost turns = self.load_balancer.turns();
        let ghost pipes = self.pipe_send_coordinator.pipes();
        let ghost mut n: nat = 0;
        let mut current = attempt;
        loop
            invariant
                self.wf(),
                same_rest(*self, before),
                self.current_send_transaction == before.current_send_transaction,
                self.pipe_send_coordinator == before.pipe_send_coordinator,
                self.pending_outgoing_queue == before.pending_outgoing_queue,
                self.notices.queue == before.notices.queue,
                self.notices.peers == (before.notices.peers || peer_taken_out(
                    turns,
                    *core,
                    pipes,
                    n,
                )),
                before == *old(self),
                turns == before.load_balancer.turns(),
                pipes == before.pipe_send_coordinator.pipes(),
                self.load_balancer.turns() == turns_after(turns, *core, pipes, n),
                came_to_nothing(turns, *core, pipes, n),
                n <= attempts_left(attempt),
                n > 0 ==> running,
                n == 0 ==> *self == before,
                current == (DealerAttempt { attempts: (attempt.attempts + n) as usize, ..attempt }),
            decreases attempts_left(attempt) - n,
        {
            let step = self.outgoing_attempt(core, running, current);
            match step {
                OutgoingStep::Next(next) => {
                    current = next;
                    proof {
                        let t = turns_after(turns, *core, pipes, n);
                        n = n + 1;
                        assert(turns_after(turns, *core, pipes, n) == self.load_balancer.turns());
                        if live_route(*core, pipes, t[0]@) is None {
                            assert(peer_taken_out(turns, *core, pipes, n));
                        }
                    }
                },
                other => {
                    proof {
                        if running && attempts_left(attempt) > 0 {
                            assert(settled_after(before, *self, *core, attempt, n, other));
                            lemma_settled(before, *self, *core, attempt, n, other);
                        }
                    }
                    return other;
                },
            }
        }
    }

    /// Goes on with a message that waited, after a wait for a permit. Where there is none the
    /// next peer is tried, and a peer whose pipe is gone is taken out.
    pub fn outgoing_permitted(
        &mut self,
        pending: PendingSend,
        outcome: Result<OwnedSemaphorePermit, ZmqError>,
    ) -> (r: OutgoingStep)
        requires
            old(self).wf(),
        ensures
            final(self).wf(),
            match outcome {
                Ok(permit) => *final(self) == *old(self) && r == (OutgoingStep::Send {
                    permit,
                    pending,
                }),
                Err(ZmqError::HostUnreachable(_)) => {
                    &&& r == OutgoingStep::Next(pending.attempt)
                    &&& peer_dropped(*old(self), *final(self), pending.uri@)
                    &&& final(self).pipe_send_coordinator == old(self).pipe_send_coordinator
                },
                Err(_) => *final(self) == *old(self) && r == OutgoingStep::Next(pending.attempt),
            },
    {
        match outcome {
            Ok(permit) => OutgoingStep::Send { permit, pending },
            Err(ZmqError::HostUnreachable(_)) => {
                self.load_balancer.remove_connection(pending.uri.as_str());
                self.notices.peers = true;
                OutgoingStep::Next(pending.attempt)
            },
            Err(_) => OutgoingStep::Next(pending.attempt),
        }
    }

    /// Notes the outcome of sending a message that waited. Where the peer is slow the next one
    /// is tried; where it is gone it is taken out first; after any other error no further
    /// attempt is made.
    pub fn outgoing_sent(&mut self, pending: PendingSend, result: Result<(), ZmqError>) -> (r:
        OutgoingStep)
        requires
            old(self).wf(),
        ensures
            final(self).wf(),
            match result {
                Ok(()) => *final(self) == *old(self) && r == OutgoingStep::Sent,
                Err(ZmqError::ResourceLimitReached) | Err(ZmqError::Timeout) => *final(self)
                    == *old(self) && r == OutgoingStep::Next(pending.attempt),
                Err(ZmqError::ConnectionClosed) | Err(ZmqError::HostUnreachable(_)) => {
                    &&& r == OutgoingStep::Next(pending.attempt)
                    &&& peer_dropped(*old(self), *final(self), pending.uri@)
                    &&& final(self).pipe_send_coordinator.pipes() == old(self).pipe_send_coordinator.pipes().remove(pending.pipe_read_id)
                    &&& pipe_coordinator::writers_stopped(
                        old(self).pipe_send_coordinator.pipes(),
                        pending.pipe_read_id,
                    )
                },
                Err(_) => *final(self) == *old(self) && r == OutgoingStep::Next(
                    DealerAttempt { attempts: pending.attempt.max_attempts, ..pending.attempt },
                ),
            },
    {
        match result {
            Ok(()) => OutgoingStep::Sent,
            Err(ZmqError::ResourceLimitReached) => OutgoingStep::Next(pending.attempt),
            Err(ZmqError::Timeout) => OutgoingStep::Next(pending.attempt),
            Err(ZmqError::ConnectionClosed) => {
                self.drop_peer(pending.uri.as_str(), pending.pipe_read_id);
                OutgoingStep::Next(pending.attempt)
            },
            Err(ZmqError::HostUnreachable(_)) => {
                self.drop_peer(pending.uri.as_str(), pending.pipe_read_id);
                OutgoingStep::Next(pending.attempt)
            },
            Err(_) => {
                let mut attempt = pending.attempt;
                attempt.attempts = attempt.max_attempts;
                OutgoingStep::Next(attempt)
            },
        }
    }
}

// ---------------------------------------------------------------------------
// Receiving, options and peers
// ---------------------------------------------------------------------------
/// Everything but what has been received is the same.
pub open spec fn same_but_incoming(a: DealerSocket, b: DealerSocket) -> bool {
    a == DealerSocket { incoming: a.incoming, ..b }
}

impl DealerSocket {
    /// Receives one frame.
    pub fn recv(&mut self, core: &CoreState, running: bool) -> (r: RecvStep)
        requires
            old(self).wf(),
        ensures
            final(self).wf(),
            same_but_incoming(*final(self), *old(self)),
            if running {
                incoming_orchestrator::frame_received(
                    old(self).incoming,
                    final(self).incoming,
                    core.options.rcvtimeo,
                    old(self).incoming.queued()[0].frames@,
                    r,
                )
            } else {
                *final(self) == *old(self) && (r matches RecvStep::Done(Err(e))
                    && incoming_orchestrator::is_closing_error(e))
            },
    {
        if !running {
            return RecvStep::Done(Err(socket_is_closing()));
        }
        self.incoming.recv_plain(core.options.rcvtimeo)
    }

    /// Receives a whole message.
    pub fn recv_multipart(&mut self, core: &CoreState, running: bool) -> (r: MultipartStep)
        requires
            old(self).wf(),
        ensures
            final(self).wf(),
            same_but_incoming(*final(self), *old(self)),
            if running {
                incoming_orchestrator::message_received(
                    old(self).incoming,
                    final(self).incoming,
                    core.options.rcvtimeo,
                    message::frames_of(old(self).incoming.queued()[0].frames@),
                    r,
                )
            } else {
                *final(self) == *old(self) && (r matches MultipartStep::Done(Err(e))
                    && incoming_orchestrator::is_closing_error(e))
            },
    {
        if !running {
            return MultipartStep::Done(Err(socket_is_closing()));
        }
        self.incoming.recv_plain_multipart(core.options.rcvtimeo)
    }

    /// Sets an option of the pattern.
    pub fn set_pattern_option(&mut self, option: i32, value: &Vec<u8>) -> (r: Result<(), ZmqError>)
        requires
            old(self).wf(),
        ensures
            final(self).wf(),
            *final(self) == (DealerSocket { framing: final(self).framing, ..*old(self) }),
            final(self).framing.spec_manual() == (old(self).framing.spec_manual() || (option
                == AUTO_DELIMITER && value@ == seq![0u8, 0, 0, 0])),
            if option != AUTO_DELIMITER {
                r == Err::<(), ZmqError>(ZmqError::UnsupportedOption(option))
            } else if value@.len() != 4 {
                r == Err::<(), ZmqError>(ZmqError::InvalidOptionValue(option))
            } else {
                r is Ok
            },
    {
        if option != AUTO_DELIMITER {
            return Err(ZmqError::UnsupportedOption(option));
        }
        match parse_bool_option(option, value) {
            Ok(b) => {
                if !b {
                    self.framing.set_manual();
                }
                Ok(())
            },
            Err(e) => Err(e),
        }
    }

    /// The value of an option of the pattern.
    pub fn get_pattern_option(&self, option: i32) -> (r: Result<Vec<u8>, ZmqError>)
        ensures
            match r {
                Ok(v) => {
                    &&& option == AUTO_DELIMITER
                    &&& !self.framing.spec_manual() ==> v@ == types::low_first(1) || v@
                        == types::high_first(1)
                    &&& self.framing.spec_manual() ==> v@ == seq![0u8, 0, 0, 0]
                },
                Err(e) => option != AUTO_DELIMITER && e == ZmqError::UnsupportedOption(option),
            },
    {
        if option != AUTO_DELIMITER {
            return Err(ZmqError::UnsupportedOption(option));
        }
        let auto: bool = !self.framing.is_manual();
        Ok(auto.to_bytes())
    }

    /// Takes what happens on a pipe: frames are put together, and what a complete message holds
    /// for the application is queued.
    pub fn handle_pipe_event(&mut self, pipe_read_id: usize, event: PipeEvent) -> (r: Result<
        (),
        ZmqError,
    >)
        requires
            old(self).wf(),
        ensures
            final(self).wf(),
            same_but_incoming(*final(self), *old(self)),
            final(self).incoming.buffered() == old(self).incoming.buffered(),
            final(self).incoming.capacity() == old(self).incoming.capacity(),
            final(self).incoming.is_closed() == old(self).incoming.is_closed(),
            match event {
                PipeEvent::ClosedByPeer => r is Ok && *final(self) == *old(self),
                PipeEvent::MessageReceived(msg) => {
                    let all = old(self).incoming.partial_of(pipe_read_id).push(msg);
                    if msg@.more {
                        &&& r is Ok
                        &&& final(self).incoming.queued() == old(self).incoming.queued()
                        &&& final(self).incoming.partial() == old(self).incoming.partial().insert(
                            pipe_read_id,
                            all,
                        )
                    } else {
                        &&& final(self).incoming.partial() == old(self).incoming.partial().remove(
                            pipe_read_id,
                        )
                        &&& incoming_orchestrator::message_queued(
                            old(self).incoming,
                            final(self).incoming,
                            Origin::Unknown,
                            all.skip(
                                envelope_len(
                                    old(self).framing.spec_manual(),
                                    message::frames_of(all),
                                ),
                            ),
                            r,
                        )
                    }
                },
            },
    {
        match event {
            PipeEvent::MessageReceived(msg) => match self.incoming.accumulate_pipe_frame(
                pipe_read_id,
                msg,
            ) {
                Some(all) => {
                    let payload = self.process_incoming_zmtp_message_for_dealer(all);
                    let ghost queued = self.incoming.queued();
                    let r = self.incoming.queue_item(
                        QueueItem { origin: Origin::Unknown, frames: payload },
                    );
                    assert(queued.push(self.incoming.queued().last()).drop_last() =~= queued);
                    r
                },
                None => Ok(()),
            },
            PipeEvent::ClosedByPeer => Ok(()),
        }
    }

    /// A peer has come.
    pub fn pipe_attached(&mut self, core: &CoreState, pipe_read_id: usize)
        requires
            old(self).wf(),
        ensures
            final(self).wf(),
            final(self).incoming == old(self).incoming,
            final(self).framing == old(self).framing,
            final(self).current_send_transaction == old(self).current_send_transaction,
            final(self).pending_outgoing_queue == old(self).pending_outgoing_queue,
            if core.pipe_read_id_to_endpoint_uri@.dom().contains(pipe_read_id) {
                let uri = core.pipe_read_id_to_endpoint_uri@[pipe_read_id];
                &&& final(self).pipe_read_to_endpoint_uri@ == old(self).pipe_read_to_endpoint_uri@.insert(pipe_read_id, uri)
                &&& final(self).load_balancer.turns() == if load_balancer::has_text(
                    old(self).load_balancer.turns(),
                    uri@,
                ) {
                    old(self).load_balancer.turns()
                } else {
                    old(self).load_balancer.turns().push(uri)
                }
                &&& final(self).pipe_send_coordinator.pipes().dom() == old(self).pipe_send_coordinator.pipes().dom().insert(pipe_read_id)
                &&& final(self).pipe_send_coordinator.pipes().remove(pipe_read_id) == old(self).pipe_send_coordinator.pipes().remove(pipe_read_id)
                &&& old(self).pipe_send_coordinator.pipes().dom().contains(pipe_read_id)
                    ==> final(self).pipe_send_coordinator == old(self).pipe_send_coordinator
                &&& final(self).notices == (Notices { queue: true, peers: true })
            } else {
                *final(self) == *old(self)
            },
    {
        if let Some(uri) = core.uri_of_pipe(pipe_read_id) {
            let _ = self.pipe_read_to_endpoint_uri.insert(pipe_read_id, uri.clone());
            self.load_balancer.add_connection(uri);
            self.pipe_send_coordinator.add_pipe(pipe_read_id);
            self.notices = Notices { queue: true, peers: true };
        }
    }

    /// A peer has gone.
    pub fn pipe_detached(&mut self, pipe_read_id: usize)
        requires
            old(self).wf(),
        ensures
            final(self).wf(),
            final(self).framing == old(self).framing,
            final(self).current_send_transaction == old(self).current_send_transaction,
            final(self).pending_outgoing_queue == old(self).pending_outgoing_queue,
            final(self).pipe_read_to_endpoint_uri@ == old(self).pipe_read_to_endpoint_uri@.remove(
                pipe_read_id,
            ),
            final(self).load_balancer.turns() == if old(self).pipe_read_to_endpoint_uri@.dom().contains(pipe_read_id) {
                load_balancer::without_text(
                    old(self).load_balancer.turns(),
                    old(self).pipe_read_to_endpoint_uri@[pipe_read_id]@,
                )
            } else {
                old(self).load_balancer.turns()
            },
            final(self).pipe_send_coordinator.pipes() == old(self).pipe_send_coordinator.pipes().remove(pipe_read_id),
            pipe_coordinator::writers_stopped(
                old(self).pipe_send_coordinator.pipes(),
                pipe_read_id,
            ),
            final(self).notices == (Notices { peers: true, ..old(self).notices }),
            final(self).incoming.partial() == old(self).incoming.partial().remove(pipe_read_id),
            final(self).incoming.buffered() == Seq::<Msg>::empty(),
            final(self).incoming.queued() == old(self).incoming.queued(),
            final(self).incoming.capacity() == old(self).incoming.capacity(),
            final(self).incoming.is_closed() == old(self).incoming.is_closed(),
    {
        if let Some(uri) = self.pipe_read_to_endpoint_uri.remove(pipe_read_id) {
            self.load_balancer.remove_connection(uri.as_str());
        }
        let _ = self.pipe_send_coordinator.remove_pipe(pipe_read_id);
        self.incoming.clear_pipe_state(pipe_read_id);
        self.notices.peers = true;
    }

    /// Stops receiving; everybody is to be woken.
    pub fn stop(&mut self)
        requires
            old(self).wf(),
        ensures
            final(self).wf(),
            *final(self) == (DealerSocket {
                incoming: final(self).incoming,
                notices: Notices { queue: true, peers: true },
                ..*old(self)
            }),
            final(self).incoming.is_closed(),
            final(self).incoming.queued() == old(self).incoming.queued(),
            final(self).incoming.partial() == Map::<usize, Seq<Msg>>::empty(),
            final(self).incoming.buffered() == Seq::<Msg>::empty(),
    {
        self.incoming.close();
        self.notices = Notices { queue: true, peers: true };
    }
}

// ---------------------------------------------------------------------------
// Laws
// ---------------------------------------------------------------------------
/// What goes out for a message is one message.
pub proof fn what_goes_out_is_one_message(manual: bool, frames: Seq<message::Frame>)
    ensures
        message::is_one_message(wire(manual, frames)),
{
}

/// What one DEALER sends, another receives: the application there gets the frames of the
/// message, marked as one. A message without frames arrives as one empty frame.
pub proof fn dealer_gets_what_dealer_sends(frames: Seq<message::Frame>)
    ensures
        ({
            let sent = wire(false, frames);
            sent.skip(envelope_len(false, sent)) == if frames.len() == 0 {
                seq![delimiter()]
            } else {
                message::marked(frames)
            }
        }),
{
    let sent = wire(false, frames);
    assert(sent[0].data.len() == 0);
    if frames.len() == 0 {
        assert(sent.skip(1) =~= seq![delimiter()]);
    } else {
        assert(sent.skip(1) =~= message::marked(frames));
    }
}

/// A message that comes with this socket's identity and a delimiter in front, as from a
/// ROUTER, is received without them.
pub proof fn dealer_drops_identity_and_delimiter(
    identity: message::Frame,
    empty: message::Frame,
    payload: Seq<message::Frame>,
)
    requires
        identity.data.len() > 0,
        empty.data.len() == 0,
    ensures
        ({
            let arrived = seq![identity, empty] + payload;
            arrived.skip(envelope_len(false, arrived)) == payload
        }),
{
    let arrived = seq![identity, empty] + payload;
    assert(arrived.skip(2) =~= payload);
}

/// An application that does its own framing receives what was sent, marked as one message.
pub proof fn manual_framing_is_transparent(frames: Seq<message::Frame>)
    ensures
        ({
            let sent = wire(true, frames);
            sent.skip(envelope_len(true, sent)) == message::marked(frames)
        }),
{
    assert(wire(true, frames).skip(0) =~= wire(true, frames));
}

/// A message that was taken to be sent and waits again keeps its place in front of those that
/// came after it.
pub proof fn requeued_message_keeps_its_place(
    start: DealerSocket,
    taken: DealerSocket,
    end: DealerSocket,
    core: CoreState,
    attempt: DealerAttempt,
)
    requires
        start.pending_outgoing_queue@.len() > 0,
        attempt.frames == start.pending_outgoing_queue@[0],
        taken.pending_outgoing_queue@ == start.pending_outgoing_queue@.skip(1),
        outgoing_attempt_made(taken, end, core, true, attempt, OutgoingStep::Requeued),
    ensures
        end.pending_outgoing_queue@ == start.pending_outgoing_queue@,
{
    let queue = start.pending_outgoing_queue@;
    assert(seq![queue[0]] + queue.skip(1) =~= queue);
}

/// A message is acknowledged only when it stands behind those that wait. It is refused or has
/// to wait, with nothing queued, exactly where the queue is full or the socket is being closed.
pub proof fn queueing_keeps_what_it_acknowledges(
    before: DealerSocket,
    after: DealerSocket,
    core: CoreState,
    running: bool,
    frames: Vec<Msg>,
    r: DealerStep,
)
    requires
        queue_tried(before, after, core, running, frames, r),
    ensures
        r == DealerStep::Done(Ok(())) ==> running && after.pending_outgoing_queue@
            == before.pending_outgoing_queue@.push(frames) && after.notices.queue,
        r != DealerStep::Done(Ok(())) ==> after.pending_outgoing_queue
            == before.pending_outgoing_queue,
        running && before.pending_outgoing_queue@.len() < core.options.sndhwm ==> r
            == DealerStep::Done(Ok(())),
        running && before.pending_outgoing_queue@.len() == 0 ==> r == DealerStep::Done(Ok(())),
        running && before.pending_outgoing_queue@.len() > 0
            && before.pending_outgoing_queue@.len() >= core.options.sndhwm ==> match core.options.sndtimeo {
            Some(d) if d.spec_nanos() == 0 => r == DealerStep::Done(
                Err(ZmqError::ResourceLimitReached),
            ),
            timeout => r == (DealerStep::WaitQueue { frames, timeout }),
        },
        !running ==> r matches DealerStep::Done(Err(ZmqError::InvalidState(_))),
{
}

/// Queueing a message keeps the order of those that wait, and never lets more wait than the
/// high-water mark allows.
pub proof fn queue_stays_within_the_mark(
    socket: &mut DealerSocket,
    core: &CoreState,
    running: bool,
    frames: Vec<Msg>,
    r: DealerStep,
)
    requires
        call_ensures(DealerSocket::queue_message_or_error, (socket, core, running, frames), r),
    ensures
        r matches DealerStep::Done(Ok(_)) ==> final(socket).pending_outgoing_queue@
            == old(socket).pending_outgoing_queue@.push(frames),
        !(r matches DealerStep::Done(Ok(_))) ==> final(socket).pending_outgoing_queue@
            == old(socket).pending_outgoing_queue@,
        old(socket).pending_outgoing_queue@.len() <= core.options.sndhwm
            ==> final(socket).pending_outgoing_queue@.len() <= core.options.sndhwm
            || final(socket).pending_outgoing_queue@.len() <= 1,
        running && old(socket).pending_outgoing_queue@.len() < core.options.sndhwm ==> r
            matches DealerStep::Done(Ok(_)),
        running && old(socket).pending_outgoing_queue@.len() > 0
            && old(socket).pending_outgoing_queue@.len() >= core.options.sndhwm ==> match core.options.sndtimeo {
            Some(d) if d.spec_nanos() == 0 => r matches DealerStep::Done(
                Err(ZmqError::ResourceLimitReached),
            ),
            timeout => r == (DealerStep::WaitQueue { frames, timeout }),
        },
        !running ==> r matches DealerStep::Done(Err(ZmqError::InvalidState(_))),
        final(socket).load_balancer == old(socket).load_balancer,
        final(socket).pipe_send_coordinator == old(socket).pipe_send_coordinator,
        final(socket).incoming == old(socket).incoming,
{
}

/// A peer that can be written to is one that the core has an endpoint with pipes for, whose
/// read pipe is entered.
pub proof fn live_peers_have_an_entered_pipe(
    core: CoreState,
    pipes: Map<usize, pipe_coordinator::PipeState>,
    uri: Seq<char>,
)
    ensures
        live_route(core, pipes, uri) is Some <==> {
            &&& core.endpoints@.dom().contains(uri)
            &&& core.endpoints@[uri].pipe_ids matches Some((_, read)) && pipes.dom().contains(read)
        },
        live_route(core, pipes, uri) matches Some((connection, pipe)) ==> connection
            == core.endpoints@[uri].connection && (core.endpoints@[uri].pipe_ids->0).1 == pipe,
{
}

/// No message is lost or acknowledged early while it is tried on the peers: it is on its way to
/// one that can be written to, or it was queued, or it is handed back to be tried again, or its
/// sender hears an error.
pub proof fn tried_message_is_not_lost(
    before: DealerSocket,
    after: DealerSocket,
    core: CoreState,
    running: bool,
    attempt: DealerAttempt,
    r: DealerStep,
)
    requires
        attempt_made(before, after, core, running, attempt, r),
    ensures
        match r {
            DealerStep::Done(Ok(())) => after.pending_outgoing_queue@
                == before.pending_outgoing_queue@.push(attempt.frames),
            DealerStep::Done(Err(_)) => after.pending_outgoing_queue
                == before.pending_outgoing_queue,
            DealerStep::WaitQueue { frames, timeout } => frames == attempt.frames && timeout
                == core.options.sndtimeo && after.pending_outgoing_queue
                == before.pending_outgoing_queue,
            DealerStep::Send { pending, .. } => pending.attempt.frames == attempt.frames
                && after.pending_outgoing_queue == before.pending_outgoing_queue,
            DealerStep::WaitPermit { pending, timeout, .. } => pending.attempt.frames
                == attempt.frames && timeout == core.options.sndtimeo
                && after.pending_outgoing_queue == before.pending_outgoing_queue,
        },
        after.pipe_send_coordinator == before.pipe_send_coordinator,
{
}

/// The peer that is chosen is the first in turn that can be written to, and goes behind the
/// others; those in front of it that cannot be written to are taken out. Each costs an attempt.
pub proof fn first_live_peer_is_chosen(
    before: DealerSocket,
    after: DealerSocket,
    core: CoreState,
    attempt: DealerAttempt,
    r: DealerStep,
    k: int,
)
    requires
        attempt_made(before, after, core, true, attempt, r),
        0 <= k < before.load_balancer.turns().len(),
        k < attempt.max_attempts - attempt.attempts,
        live_route(
            core,
            before.pipe_send_coordinator.pipes(),
            before.load_balancer.turns()[k]@,
        ) is Some,
        forall|j: int|
            0 <= j < k ==> live_route(
                core,
                before.pipe_send_coordinator.pipes(),
                (#[trigger] before.load_balancer.turns()[j])@,
            ) is None,
    ensures
        after.load_balancer.turns() == before.load_balancer.turns().skip(k + 1).push(
            before.load_balancer.turns()[k],
        ),
        after.notices.peers == (before.notices.peers || k > 0),
        match r {
            DealerStep::Send { permit, pending } => {
                &&& pending.uri == before.load_balancer.turns()[k]
                &&& pending.attempt.attempts == attempt.attempts + k + 1
                &&& pending.attempt.max_attempts == attempt.max_attempts
                &&& core.endpoints@[pending.uri@].connection == pending.connection
                &&& pipe_coordinator::permit_source(permit)
                    == before.pipe_send_coordinator.pipes()[pending.pipe_read_id].guard()
                &&& core.options.sndtimeo matches Some(d) && d.spec_nanos() == 0
            },
            DealerStep::WaitPermit { semaphore, pending, .. } => {
                &&& pending.uri == before.load_balancer.turns()[k]
                &&& pending.attempt.attempts == attempt.attempts + k + 1
                &&& pending.attempt.max_attempts == attempt.max_attempts
                &&& core.endpoints@[pending.uri@].connection == pending.connection
                &&& *semaphore
                    == before.pipe_send_coordinator.pipes()[pending.pipe_read_id].guard()
                &&& !(core.options.sndtimeo matches Some(d) && d.spec_nanos() == 0)
            },
            _ => core.options.sndtimeo matches Some(d) && d.spec_nanos() == 0,
        },
{
    let turns = before.load_balancer.turns();
    let pipes = before.pipe_send_coordinator.pipes();
    lemma_dead_in_front(turns, core, pipes, attempts_left(attempt), k as nat);
}

/// Where none of the peers that attempts are left for can be written to, all of these are
/// taken out and the message is queued.
pub proof fn message_without_a_live_peer_is_queued(
    before: DealerSocket,
    after: DealerSocket,
    core: CoreState,
    attempt: DealerAttempt,
    r: DealerStep,
    n: int,
)
    requires
        attempt_made(before, after, core, true, attempt, r),
        0 <= n <= before.load_balancer.turns().len(),
        n <= attempt.max_attempts - attempt.attempts,
        n == before.load_balancer.turns().len() || n == attempt.max_attempts - attempt.attempts,
        forall|j: int|
            0 <= j < n ==> live_route(
                core,
                before.pipe_send_coordinator.pipes(),
                (#[trigger] before.load_balancer.turns()[j])@,
            ) is None,
    ensures
        after.load_balancer.turns() == before.load_balancer.turns().skip(n),
        r matches DealerStep::Done(_) || r is WaitQueue,
        before.pending_outgoing_queue@.len() < core.options.sndhwm ==> r == DealerStep::Done(Ok(())),
        r == DealerStep::Done(Ok(())) ==> after.pending_outgoing_queue@
            == before.pending_outgoing_queue@.push(attempt.frames),
{
    let turns = before.load_balancer.turns();
    let pipes = before.pipe_send_coordinator.pipes();
    lemma_dead_in_front(turns, core, pipes, attempts_left(attempt), n as nat);
    assert(turns.skip(0) =~= turns);
}

/// A message may be tried on every peer once, and once where there is none.
pub proof fn every_peer_is_worth_an_attempt(socket: DealerSocket, frames: Vec<Msg>)
    requires
        socket.load_balancer.turns().len() <= usize::MAX,
    ensures
        begun(socket, frames).frames == frames,
        begun(socket, frames).attempts == 0,
        begun(socket, frames).max_attempts >= 1,
        begun(socket, frames).max_attempts >= socket.load_balancer.turns().len(),
        begun(socket, frames).max_attempts <= 1 || begun(socket, frames).max_attempts
            == socket.load_balancer.turns().len(),
{
}

/// The frames of a message go out in their order behind an empty delimiter, unless the
/// application does the framing; nothing but the MORE flags is changed.
pub proof fn wire_is_delimiter_and_frames(frames: Seq<message::Frame>)
    requires
        frames.len() > 0,
    ensures
        wire(false, frames).len() == frames.len() + 1,
        wire(false, frames)[0].data == Seq::<u8>::empty(),
        wire(false, frames)[0].more,
        forall|i: int|
            0 <= i < frames.len() ==> {
                &&& (#[trigger] wire(false, frames)[i + 1]).data == frames[i].data
                &&& wire(false, frames)[i + 1].group == frames[i].group
                &&& wire(false, frames)[i + 1].command == frames[i].command
                &&& wire(false, frames)[i + 1].more == (i < frames.len() - 1)
            },
        wire(true, frames).len() == frames.len(),
        forall|i: int|
            0 <= i < frames.len() ==> {
                &&& (#[trigger] wire(true, frames)[i]).data == frames[i].data
                &&& wire(true, frames)[i].group == frames[i].group
                &&& wire(true, frames)[i].command == frames[i].command
                &&& wire(true, frames)[i].more == (i < frames.len() - 1)
            },
{
}

/// What a DEALER takes off a message: nothing where the application does the framing;
/// otherwise a first empty frame, or a first frame that is not empty together with an empty
/// one behind it. What follows is untouched.
pub proof fn envelope_is_what_stands_in_front(frames: Seq<message::Frame>)
    ensures
        envelope_len(true, frames) == 0,
        0 <= envelope_len(false, frames) <= frames.len(),
        envelope_len(false, frames) <= 2,
        frames.len() > 0 ==> envelope_len(false, frames) >= 1,
        frames.len() > 0 && frames[0].data.len() == 0 ==> envelope_len(false, frames) == 1,
        frames.len() > 1 && frames[0].data.len() > 0 ==> (envelope_len(false, frames) == 2
            <==> frames[1].data.len() == 0),
{
}

/// The frames of a message that is sent frame by frame are kept in order until the last one,
/// and then go out as one message; too many of them end it with an error.
pub proof fn frames_are_gathered_until_the_last(
    socket: &mut DealerSocket,
    core: &CoreState,
    running: bool,
    msg: Msg,
    r: (DealerStep, bool),
)
    requires
        call_ensures(DealerSocket::send, (socket, core, running, msg), r),
    ensures
        !running ==> *final(socket) == *old(socket) && (r.0 matches DealerStep::Done(Err(_))),
        running && msg.more && old(socket).current_send_transaction is Idle ==> (r.0
            matches DealerStep::Done(Ok(_))) && (final(socket).current_send_transaction
            matches DealerSendTransaction::Buffering(parts) && parts@ == seq![msg]),
        running && msg.more && (old(socket).current_send_transaction
            matches DealerSendTransaction::Buffering(parts) && parts@.len()
            < MAX_DEALER_SEND_BUFFER_PARTS) ==> (r.0 matches DealerStep::Done(Ok(_))) && (
        final(socket).current_send_transaction matches DealerSendTransaction::Buffering(now)
            && now@ == old(socket).current_send_transaction->0@.push(msg)),
        running && msg.more && (old(socket).current_send_transaction
            matches DealerSendTransaction::Buffering(parts) && parts@.len()
            >= MAX_DEALER_SEND_BUFFER_PARTS) ==> (r.0 matches DealerStep::Done(
            Err(ZmqError::ResourceLimitReached),
        )) && final(socket).current_send_transaction is Idle && r.1,
        running && msg.more ==> final(socket).pending_outgoing_queue
            == old(socket).pending_outgoing_queue && final(socket).load_balancer
            == old(socket).load_balancer,
        running && !msg.more ==> final(socket).current_send_transaction is Idle && r.1 == (old(socket).current_send_transaction is Buffering),
        running && !msg.more && old(socket).current_send_transaction is Idle ==> exists|
            frames: Vec<Msg>,
        |
            message::frames_of(frames@) == wire(
                old(socket).framing.spec_manual(),
                message::frames_of(seq![msg]),
            ) && #[trigger] attempt_made(
                *old(socket),
                *final(socket),
                *core,
                true,
                begun(*old(socket), frames),
                r.0,
            ),
        running && !msg.more && (old(socket).current_send_transaction
            matches DealerSendTransaction::Buffering(parts)) ==> exists|
            frames: Vec<Msg>,
            idle: DealerSocket,
        |
            message::frames_of(frames@) == wire(
                old(socket).framing.spec_manual(),
                message::frames_of(old(socket).current_send_transaction->0@.push(msg)),
            ) && #[trigger] attempt_made(
                idle,
                *final(socket),
                *core,
                true,
                begun(*old(socket), frames),
                r.0,
            ) && idle.load_balancer == old(socket).load_balancer && idle.pending_outgoing_queue
                == old(socket).pending_outgoing_queue,
{
    assert(Seq::<Msg>::empty().push(msg) =~= seq![msg]);
    if running && !msg.more {
        let idle = DealerSocket {
            current_send_transaction: DealerSendTransaction::Idle,
            ..*old(socket)
        };
        let frames = choose|frames: Vec<Msg>|
            message::frames_of(frames@) == wire(
                old(socket).framing.spec_manual(),
                message::frames_of(old(socket).parts_so_far().push(msg)),
            ) && #[trigger] logical_sent(idle, *final(socket), *core, running, frames, r.0);
        assert(begun(idle, frames) == begun(*old(socket), frames));
        assert(attempt_made(idle, *final(socket), *core, true, begun(*old(socket), frames), r.0));
    }
}

/// A whole message never breaks into one that is being sent frame by frame: it waits for that
/// to be over, or fails at once with a send timeout of zero.
pub proof fn whole_messages_do_not_interleave(
    socket: &mut DealerSocket,
    core: &CoreState,
    frames: Vec<Msg>,
    r: DealerMultipartStep,
)
    requires
        call_ensures(DealerSocket::send_multipart, (socket, core, true, frames), r)
            || call_ensures(DealerSocket::send_multipart_waited, (socket, core, true, frames), r),
    ensures
        final(socket).current_send_transaction == old(socket).current_send_transaction,
        old(socket).current_send_transaction is Buffering ==> {
            &&& *final(socket) == *old(socket)
            &&& match core.options.sndtimeo {
                Some(d) if d.spec_nanos() == 0 => r matches DealerMultipartStep::Step(
                    DealerStep::Done(Err(ZmqError::ResourceLimitReached)),
                ),
                timeout => r == (DealerMultipartStep::WaitTransaction { frames, timeout }),
            }
        },
        old(socket).current_send_transaction is Idle ==> {
            &&& r matches DealerMultipartStep::Step(step) && exists|out: Vec<Msg>|
                message::frames_of(out@) == wire(
                    old(socket).framing.spec_manual(),
                    message::frames_of(frames@),
                ) && #[trigger] attempt_made(
                    *old(socket),
                    *final(socket),
                    *core,
                    true,
                    begun(*old(socket), out),
                    step,
                )
        },
{
    if old(socket).current_send_transaction is Idle {
        let step = r->Step_0;
        let out = choose|out: Vec<Msg>|
            message::frames_of(out@) == wire(
                old(socket).framing.spec_manual(),
                message::frames_of(frames@),
            ) && #[trigger] logical_sent(*old(socket), *final(socket), *core, true, out, step);
        assert(attempt_made(
            *old(socket),
            *final(socket),
            *core,
            true,
            begun(*old(socket), out),
            step,
        ));
    }
}

/// A closing socket takes no message.
pub proof fn closing_dealer_takes_no_message(
    socket: &mut DealerSocket,
    core: &CoreState,
    frames: Vec<Msg>,
    r: DealerMultipartStep,
    s: DealerStep,
)
    requires
        call_ensures(DealerSocket::send_multipart, (socket, core, false, frames), r)
            || call_ensures(DealerSocket::send_multipart_waited, (socket, core, false, frames), r)
            || (call_ensures(DealerSocket::send_logical_message, (socket, core, false, frames), s)
            && r == DealerMultipartStep::Step(s)),
    ensures
        *final(socket) == *old(socket),
        r matches DealerMultipartStep::Step(DealerStep::Done(Err(ZmqError::InvalidState(_)))),
{
}

/// A message that waited for a permit goes to its peer with the permit. Without one in time it
/// is queued; where the pipe is gone the peer is forgotten and the next is tried.
pub proof fn permit_decides_what_follows(
    socket: &mut DealerSocket,
    core: &CoreState,
    running: bool,
    pending: PendingSend,
    outcome: Result<OwnedSemaphorePermit, ZmqError>,
    r: DealerStep,
)
    requires
        call_ensures(DealerSocket::permitted, (socket, core, running, pending, outcome), r),
    ensures
        outcome matches Ok(permit) ==> r == (DealerStep::Send { permit, pending })
            && *final(socket) == *old(socket),
        outcome matches Err(ZmqError::Timeout) ==> queue_tried(
            *old(socket),
            *final(socket),
            *core,
            running,
            pending.attempt.frames,
            r,
        ) && final(socket).load_balancer == old(socket).load_balancer,
        outcome matches Err(ZmqError::ResourceLimitReached) ==> queue_tried(
            *old(socket),
            *final(socket),
            *core,
            running,
            pending.attempt.frames,
            r,
        ) && final(socket).load_balancer == old(socket).load_balancer,
        outcome matches Err(ZmqError::HostUnreachable(_)) ==> exists|mid: DealerSocket|
            mid.load_balancer.turns() == load_balancer::without_text(
                old(socket).load_balancer.turns(),
                pending.uri@,
            ) && mid.pending_outgoing_queue == old(socket).pending_outgoing_queue
                && #[trigger] attempt_made(
                mid,
                *final(socket),
                *core,
                running,
                pending.attempt,
                r,
            ),
        outcome matches Err(ZmqError::ConnectionClosed) ==> (r matches DealerStep::Done(
            Err(ZmqError::ConnectionClosed),
        )) && *final(socket) == *old(socket),
{
}

/// A message that was sent is done. One that met a slow peer is tried on the next, and one
/// whose peer is gone likewise, with that peer forgotten; any other error is the sender's.
pub proof fn outcome_of_a_send_decides_what_follows(
    socket: &mut DealerSocket,
    core: &CoreState,
    running: bool,
    pending: PendingSend,
    result: Result<(), ZmqError>,
    r: DealerStep,
)
    requires
        call_ensures(DealerSocket::sent, (socket, core, running, pending, result), r),
    ensures
        result is Ok ==> (r matches DealerStep::Done(Ok(_))) && *final(socket) == *old(socket),
        (result matches Err(ZmqError::Timeout)) || (result matches Err(
            ZmqError::ResourceLimitReached,
        )) ==> attempt_made(*old(socket), *final(socket), *core, running, pending.attempt, r),
        (result matches Err(ZmqError::ConnectionClosed)) || (result matches Err(
            ZmqError::HostUnreachable(_),
        )) ==> exists|mid: DealerSocket|
            mid.load_balancer.turns() == load_balancer::without_text(
                old(socket).load_balancer.turns(),
                pending.uri@,
            ) && !mid.pipe_send_coordinator.pipes().dom().contains(pending.pipe_read_id)
                && mid.pending_outgoing_queue == old(socket).pending_outgoing_queue
                && #[trigger] attempt_made(
                mid,
                *final(socket),
                *core,
                running,
                pending.attempt,
                r,
            ),
        result matches Err(ZmqError::InvalidMessage(m)) ==> r == DealerStep::Done(
            Err(ZmqError::InvalidMessage(m)),
        ) && *final(socket) == *old(socket),
{
}

/// The message that has waited longest is taken first, and only when there is a peer.
pub proof fn waiting_messages_are_taken_in_order(socket: &mut DealerSocket, r: Option<DealerAttempt>)
    requires
        call_ensures(DealerSocket::take_pending, (socket,), r),
        old(socket).load_balancer.turns().len() <= usize::MAX,
    ensures
        r is Some <==> old(socket).pending_outgoing_queue@.len() > 0 && old(socket).load_balancer.turns().len() > 0,
        r matches Some(attempt) ==> {
            &&& old(socket).pending_outgoing_queue@ == seq![attempt.frames]
                + final(socket).pending_outgoing_queue@
            &&& attempt.attempts == 0
            &&& attempt.max_attempts == old(socket).load_balancer.turns().len()
        },
        r is None ==> final(socket).pending_outgoing_queue@ == old(socket).pending_outgoing_queue@,
        final(socket).load_balancer == old(socket).load_balancer,
{
    let queue = old(socket).pending_outgoing_queue@;
    if queue.len() > 0 {
        assert(seq![queue[0]] + queue.skip(1) =~= queue);
    }
}

/// A message that waited is not lost while it is tried: it is for a peer, or it waits again in
/// front of the others.
pub proof fn waiting_message_is_not_lost(
    socket: &mut DealerSocket,
    core: &CoreState,
    attempt: DealerAttempt,
    r: OutgoingStep,
)
    requires
        call_ensures(DealerSocket::outgoing_next, (socket, core, true, attempt), r),
    ensures
        match r {
            OutgoingStep::Requeued => final(socket).pending_outgoing_queue@ == seq![attempt.frames]
                + old(socket).pending_outgoing_queue@ && final(socket).notices.queue,
            OutgoingStep::Send { permit, pending } => {
                &&& pending.attempt.frames == attempt.frames
                &&& pending.attempt.attempts > attempt.attempts
                &&& pending.attempt.attempts <= attempt.max_attempts
                &&& final(socket).pending_outgoing_queue == old(socket).pending_outgoing_queue
                &&& core.options.sndtimeo matches Some(d) && d.spec_nanos() == 0
                &&& core.endpoints@.dom().contains(pending.uri@)
                &&& core.endpoints@[pending.uri@].connection == pending.connection
                &&& pipe_coordinator::permit_source(permit) == old(socket).pipe_send_coordinator.pipes()[pending.pipe_read_id].guard()
            },
            OutgoingStep::WaitPermit { semaphore, timeout, pending } => {
                &&& pending.attempt.frames == attempt.frames
                &&& pending.attempt.attempts > attempt.attempts
                &&& pending.attempt.attempts <= attempt.max_attempts
                &&& final(socket).pending_outgoing_queue == old(socket).pending_outgoing_queue
                &&& timeout == core.options.sndtimeo
                &&& !(timeout matches Some(d) && d.spec_nanos() == 0)
                &&& core.endpoints@.dom().contains(pending.uri@)
                &&& core.endpoints@[pending.uri@].connection == pending.connection
                &&& *semaphore == old(socket).pipe_send_coordinator.pipes()[pending.pipe_read_id].guard()
            },
            _ => false,
        },
{
    let pipes = old(socket).pipe_send_coordinator.pipes();
    lemma_dead_bounds(
        old(socket).load_balancer.turns(),
        *core,
        pipes,
        attempts_left(attempt),
    );
}

/// The first peer in turn that can be written to is the one that a waiting message waits for.
pub proof fn waiting_message_takes_the_first_live_peer(
    socket: &mut DealerSocket,
    core: &CoreState,
    attempt: DealerAttempt,
    r: OutgoingStep,
    k: int,
)
    requires
        call_ensures(DealerSocket::outgoing_next, (socket, core, true, attempt), r),
        !(core.options.sndtimeo matches Some(d) && d.spec_nanos() == 0),
        0 <= k < old(socket).load_balancer.turns().len(),
        k < attempt.max_attempts - attempt.attempts,
        live_route(
            *core,
            old(socket).pipe_send_coordinator.pipes(),
            old(socket).load_balancer.turns()[k]@,
        ) is Some,
        forall|j: int|
            0 <= j < k ==> live_route(
                *core,
                old(socket).pipe_send_coordinator.pipes(),
                (#[trigger] old(socket).load_balancer.turns()[j])@,
            ) is None,
    ensures
        r matches OutgoingStep::WaitPermit { pending, .. } && pending.uri == old(socket).load_balancer.turns()[k] && pending.attempt.attempts == attempt.attempts + k + 1,
        final(socket).load_balancer.turns() == old(socket).load_balancer.turns().skip(
            k + 1,
        ).push(old(socket).load_balancer.turns()[k]),
{
    lemma_dead_in_front(
        old(socket).load_balancer.turns(),
        *core,
        old(socket).pipe_send_coordinator.pipes(),
        attempts_left(attempt),
        k as nat,
    );
}

/// After a send that failed, a waiting message is tried on the next peer, without the one that
/// is gone; after an error that no other peer would mend it is not tried further.
pub proof fn failed_waiting_message_goes_on(
    socket: &mut DealerSocket,
    pending: PendingSend,
    result: Result<(), ZmqError>,
    r: OutgoingStep,
)
    requires
        call_ensures(DealerSocket::outgoing_sent, (socket, pending, result), r),
    ensures
        result is Ok <==> r is Sent,
        r matches OutgoingStep::Next(next) ==> next.frames == pending.attempt.frames
            && next.max_attempts == pending.attempt.max_attempts,
        result is Err ==> r is Next,
        (result matches Err(ZmqError::Timeout)) || (result matches Err(
            ZmqError::ResourceLimitReached,
        )) ==> *final(socket) == *old(socket) && r == OutgoingStep::Next(pending.attempt),
        (result matches Err(ZmqError::ConnectionClosed)) || (result matches Err(
            ZmqError::HostUnreachable(_),
        )) ==> {
            &&& r == OutgoingStep::Next(pending.attempt)
            &&& final(socket).load_balancer.turns() == load_balancer::without_text(
                old(socket).load_balancer.turns(),
                pending.uri@,
            )
            &&& !final(socket).pipe_send_coordinator.pipes().dom().contains(pending.pipe_read_id)
            &&& final(socket).notices.peers
        },
        (result matches Err(ZmqError::InvalidMessage(_))) || (result matches Err(
            ZmqError::ProtocolViolation(_),
        )) ==> (r matches OutgoingStep::Next(next) && next.attempts == next.max_attempts),
        final(socket).pending_outgoing_queue == old(socket).pending_outgoing_queue,
{
}

/// After a wait for a permit a waiting message goes to its peer, or is tried on the next one.
pub proof fn waiting_message_goes_with_its_permit(
    socket: &mut DealerSocket,
    pending: PendingSend,
    outcome: Result<OwnedSemaphorePermit, ZmqError>,
    r: OutgoingStep,
)
    requires
        call_ensures(DealerSocket::outgoing_permitted, (socket, pending, outcome), r),
    ensures
        outcome matches Ok(permit) ==> r == (OutgoingStep::Send { permit, pending }),
        outcome is Err ==> r == OutgoingStep::Next(pending.attempt),
        outcome matches Err(ZmqError::HostUnreachable(_)) ==> final(socket).load_balancer.turns()
            == load_balancer::without_text(old(socket).load_balancer.turns(), pending.uri@),
        outcome matches Err(ZmqError::Timeout) ==> *final(socket) == *old(socket),
        outcome is Ok ==> *final(socket) == *old(socket),
        final(socket).pending_outgoing_queue == old(socket).pending_outgoing_queue,
{
}

/// A peer that comes has its turn once, behind the others, and its pipe can be written to; a
/// peer that goes has neither, and nobody else is touched.
pub proof fn peers_come_and_go(
    coming: &mut DealerSocket,
    going: &mut DealerSocket,
    core: &CoreState,
    pipe: usize,
)
    requires
        call_ensures(DealerSocket::pipe_attached, (coming, core, pipe), ()),
        core.pipe_read_id_to_endpoint_uri@.dom().contains(pipe),
        call_ensures(DealerSocket::pipe_detached, (going, pipe), ()),
    ensures
        load_balancer::has_text(
            final(coming).load_balancer.turns(),
            core.pipe_read_id_to_endpoint_uri@[pipe]@,
        ),
        final(coming).pipe_send_coordinator.pipes().dom().contains(pipe),
        final(coming).pipe_read_to_endpoint_uri@[pipe]
            == core.pipe_read_id_to_endpoint_uri@[pipe],
        final(coming).notices.queue && final(coming).notices.peers,
        final(coming).pending_outgoing_queue == old(coming).pending_outgoing_queue,
        forall|i: int|
            0 <= i < old(coming).load_balancer.turns().len()
                ==> final(coming).load_balancer.turns()[i] == #[trigger] old(coming).load_balancer.turns()[i],
        !final(going).pipe_send_coordinator.pipes().dom().contains(pipe),
        !final(going).pipe_read_to_endpoint_uri@.dom().contains(pipe),
        final(going).pending_outgoing_queue == old(going).pending_outgoing_queue,
        final(going).incoming.queued() == old(going).incoming.queued(),
        final(going).notices.peers,
{
    let uri = core.pipe_read_id_to_endpoint_uri@[pipe];
    let turns = old(coming).load_balancer.turns();
    if !load_balancer::has_text(turns, uri@) {
        assert(final(coming).load_balancer.turns()[turns.len() as int] == uri);
    }
}

/// Framing is left to the application for good once the automatic delimiter is switched off,
/// and never otherwise.
pub proof fn framing_is_switched_off_for_good(
    socket: &mut DealerSocket,
    option: i32,
    value: &Vec<u8>,
    r: Result<(), ZmqError>,
)
    requires
        call_ensures(DealerSocket::set_pattern_option, (socket, option, value), r),
    ensures
        old(socket).framing.spec_manual() ==> final(socket).framing.spec_manual(),
        final(socket).framing.spec_manual() && !old(socket).framing.spec_manual() ==> option
            == AUTO_DELIMITER && value@ == seq![0u8, 0, 0, 0],
        option == AUTO_DELIMITER && value@ == seq![0u8, 0, 0, 0] ==> final(socket).framing.spec_manual() && r is Ok,
        r is Ok <==> option == AUTO_DELIMITER && value@.len() == 4,
        option != AUTO_DELIMITER ==> (r matches Err(ZmqError::UnsupportedOption(o)) && o
            == option),
{
    if value@ == seq![0u8, 0, 0, 0] {
        assert(value@.len() == 4);
    }
}

/// A message as it goes out is tried on the first peer in turn that can be written to.
pub proof fn wire_message_goes_to_the_first_live_peer(
    socket: &mut DealerSocket,
    core: &CoreState,
    frames: Vec<Msg>,
    r: DealerStep,
    k: int,
)
    requires
        call_ensures(DealerSocket::send_logical_message, (socket, core, true, frames), r),
        0 <= k < old(socket).load_balancer.turns().len() <= usize::MAX,
        live_route(
            *core,
            old(socket).pipe_send_coordinator.pipes(),
            old(socket).load_balancer.turns()[k]@,
        ) is Some,
        forall|j: int|
            0 <= j < k ==> live_route(
                *core,
                old(socket).pipe_send_coordinator.pipes(),
                (#[trigger] old(socket).load_balancer.turns()[j])@,
            ) is None,
    ensures
        core.options.sndtimeo is None || core.options.sndtimeo->0.spec_nanos() > 0 ==> (
        r matches DealerStep::WaitPermit { timeout, pending, .. } && timeout
            == core.options.sndtimeo && pending.uri == old(socket).load_balancer.turns()[k]
            && pending.attempt.frames == frames && pending.connection
            == core.endpoints@[pending.uri@].connection),
        core.options.sndtimeo is Some && core.options.sndtimeo->0.spec_nanos() == 0 ==> (
        r matches DealerStep::Send { pending, .. } ==> pending.uri == old(socket).load_balancer.turns()[k] && pending.attempt.frames == frames),
        final(socket).load_balancer.turns() == old(socket).load_balancer.turns().skip(k + 1).push(
            old(socket).load_balancer.turns()[k],
        ),
{
    first_live_peer_is_chosen(
        *old(socket),
        *final(socket),
        *core,
        begun(*old(socket), frames),
        r,
        k,
    );
    tried_message_is_not_lost(
        *old(socket),
        *final(socket),
        *core,
        true,
        begun(*old(socket), frames),
        r,
    );
}

/// An attempt that goes on takes the first peer in turn that can be written to, while attempts
/// are left; without one the message is queued or waits, and is acknowledged only when queued.
pub proof fn attempt_goes_on_with_the_first_live_peer(
    socket: &mut DealerSocket,
    core: &CoreState,
    running: bool,
    attempt: DealerAttempt,
    r: DealerStep,
)
    requires
        call_ensures(DealerSocket::next_attempt, (socket, core, running, attempt), r),
    ensures
        running && attempt.attempts < attempt.max_attempts && old(socket).load_balancer.turns().len() > 0 && live_route(
            *core,
            old(socket).pipe_send_coordinator.pipes(),
            old(socket).load_balancer.turns()[0]@,
        ) is Some && (core.options.sndtimeo is None || core.options.sndtimeo->0.spec_nanos() > 0)
            ==> (r matches DealerStep::WaitPermit { pending, .. } && pending.uri == old(socket).load_balancer.turns()[0] && pending.attempt.attempts == attempt.attempts + 1
            && pending.attempt.frames == attempt.frames),
        running && (attempt.attempts >= attempt.max_attempts || old(socket).load_balancer.turns().len() == 0) && old(socket).pending_outgoing_queue@.len()
            < core.options.sndhwm ==> (r matches DealerStep::Done(Ok(_))) && final(socket).pending_outgoing_queue@ == old(socket).pending_outgoing_queue@.push(attempt.frames),
        r matches DealerStep::Done(Ok(_)) ==> final(socket).pending_outgoing_queue@ == old(socket).pending_outgoing_queue@.push(attempt.frames),
        !(r matches DealerStep::Done(Ok(_))) ==> final(socket).pending_outgoing_queue@ == old(socket).pending_outgoing_queue@,
        !running ==> (r matches DealerStep::Done(Err(e)) && e is InvalidState),
{
    let turns = old(socket).load_balancer.turns();
    let pipes = old(socket).pipe_send_coordinator.pipes();
    if attempt.attempts < attempt.max_attempts && turns.len() == 0 {
        lemma_dead_in_front(turns, *core, pipes, attempts_left(attempt), 0);
    }
    if attempt.attempts < attempt.max_attempts && turns.len() > 0 && live_route(
        *core,
        pipes,
        turns[0]@,
    ) is Some {
        lemma_dead_in_front(turns, *core, pipes, attempts_left(attempt), 0);
    }
}

/// One attempt on a message that waited: it is for the peer in front where that can be written
/// to; a peer that cannot is taken out; without a peer or an attempt the message waits again in
/// front of the others.
pub proof fn waiting_message_is_tried_on_the_peer_in_front(
    socket: &mut DealerSocket,
    core: &CoreState,
    attempt: DealerAttempt,
    r: OutgoingStep,
)
    requires
        call_ensures(DealerSocket::outgoing_attempt, (socket, core, true, attempt), r),
    ensures
        attempt.attempts >= attempt.max_attempts || old(socket).load_balancer.turns().len() == 0
            ==> r is Requeued && final(socket).pending_outgoing_queue@ == seq![attempt.frames]
            + old(socket).pending_outgoing_queue@,
        attempt.attempts < attempt.max_attempts && old(socket).load_balancer.turns().len() > 0
            && live_route(
            *core,
            old(socket).pipe_send_coordinator.pipes(),
            old(socket).load_balancer.turns()[0]@,
        ) is None ==> (r matches OutgoingStep::Next(a) && a.attempts == attempt.attempts + 1
            && a.frames == attempt.frames) && final(socket).load_balancer.turns() == old(socket).load_balancer.turns().skip(1),
        attempt.attempts < attempt.max_attempts && old(socket).load_balancer.turns().len() > 0
            && live_route(
            *core,
            old(socket).pipe_send_coordinator.pipes(),
            old(socket).load_balancer.turns()[0]@,
        ) is Some ==> final(socket).load_balancer.turns() == old(socket).load_balancer.turns().skip(1).push(old(socket).load_balancer.turns()[0]) && (
        core.options.sndtimeo is None || core.options.sndtimeo->0.spec_nanos() > 0 ==> (
        r matches OutgoingStep::WaitPermit { pending, timeout, .. } && pending.uri == old(socket).load_balancer.turns()[0] && timeout == core.options.sndtimeo && pending.attempt.frames
            == attempt.frames)),
{
}

/// An error of sending that no other peer would mend is the sender's, and changes nothing.
pub proof fn other_errors_are_the_senders(
    a: &mut DealerSocket,
    b: &mut DealerSocket,
    core: &CoreState,
    running: bool,
    pending: PendingSend,
    e: ZmqError,
    r: DealerStep,
    s: DealerStep,
)
    requires
        call_ensures(DealerSocket::sent, (a, core, running, pending, Err(e)), r),
        call_ensures(DealerSocket::permitted, (b, core, running, pending, Err(e)), s),
    ensures
        !(e is Timeout) && !(e is ResourceLimitReached) && !(e is ConnectionClosed)
            && !(e is HostUnreachable) ==> r == DealerStep::Done(Err(e)) && *final(a) == *old(a),
        !(e is Timeout) && !(e is ResourceLimitReached) && !(e is HostUnreachable) ==> s
            == DealerStep::Done(Err(e)) && *final(b) == *old(b),
{
}

/// A complete message is queued without what stands in front of its payload, and every frame
/// of the payload is kept.
pub proof fn complete_message_is_queued_without_its_envelope(
    socket: &mut DealerSocket,
    pipe: usize,
    msg: Msg,
    r: Result<(), ZmqError>,
)
    requires
        call_ensures(
            DealerSocket::handle_pipe_event,
            (socket, pipe, PipeEvent::MessageReceived(msg)),
            r,
        ),
    ensures
        msg.more ==> r is Ok && final(socket).incoming.queued() == old(socket).incoming.queued()
            && final(socket).incoming.partial()[pipe] == old(socket).incoming.partial_of(
            pipe,
        ).push(msg),
        !msg.more && !old(socket).incoming.is_closed() && old(socket).incoming.queued().len() < old(socket).incoming.capacity() ==> {
            let all = old(socket).incoming.partial_of(pipe).push(msg);
            let kept = final(socket).incoming.queued().last().frames@;
            &&& r is Ok
            &&& final(socket).incoming.queued().drop_last() == old(socket).incoming.queued()
            &&& final(socket).incoming.queued().len() == old(socket).incoming.queued().len() + 1
            &&& old(socket).framing.spec_manual() ==> kept == all
            &&& !old(socket).framing.spec_manual() && all[0]@.data.len() == 0 ==> kept
                == all.skip(1)
            &&& !old(socket).framing.spec_manual() && all[0]@.data.len() > 0 && all.len() > 1
                && all[1]@.data.len() == 0 ==> kept == all.skip(2)
        },
        !msg.more && old(socket).incoming.is_closed() ==> r is Err,
        final(socket).pending_outgoing_queue == old(socket).pending_outgoing_queue,
{
    let all = old(socket).incoming.partial_of(pipe).push(msg);
    assert(message::frames_of(all).len() == all.len());
    assert(message::frames_of(all)[0] == all[0]@);
    if all.len() > 1 {
        assert(message::frames_of(all)[1] == all[1]@);
    }
    assert(all.skip(0) =~= all);
}

/// The envelope is taken off what is received, and put in front of what is sent.
pub proof fn envelope_is_taken_off_and_put_on(
    socket: &DealerSocket,
    received: Vec<Msg>,
    shown: Vec<Msg>,
    given: Vec<Msg>,
    out: Vec<Msg>,
    i: int,
)
    requires
        call_ensures(
            DealerSocket::process_incoming_zmtp_message_for_dealer,
            (socket, received),
            shown,
        ),
        call_ensures(DealerSocket::prepare_full_multipart_send_sequence, (socket, given), out),
        0 <= i < given@.len(),
    ensures
        socket.framing.spec_manual() ==> shown@ == received@,
        !socket.framing.spec_manual() && received@.len() > 0 && received@[0]@.data.len() == 0
            ==> shown@ == received@.skip(1),
        !socket.framing.spec_manual() && received@.len() > 1 && received@[0]@.data.len() > 0
            && received@[1]@.data.len() == 0 ==> shown@ == received@.skip(2),
        socket.framing.spec_manual() ==> out@.len() == given@.len() && out@[i]@.data
            == given@[i]@.data,
        !socket.framing.spec_manual() ==> out@.len() == given@.len() + 1 && out@[0]@.data.len() == 0
            && out@[0]@.more && out@[i + 1]@.data == given@[i]@.data,
        !out@.last()@.more,
{
    if received@.len() > 0 {
        assert(message::frames_of(received@)[0] == received@[0]@);
    }
    if received@.len() > 1 {
        assert(message::frames_of(received@)[1] == received@[1]@);
    }
    assert(received@.skip(0) =~= received@);
    let w = wire(socket.framing.spec_manual(), message::frames_of(given@));
    assert(message::frames_of(out@).len() == w.len());
    assert(message::frames_of(out@)[0] == w[0]);
    assert(message::frames_of(out@)[i] == w[i]);
    if !socket.framing.spec_manual() {
        assert(message::frames_of(out@)[i + 1] == w[i + 1]);
    }
    assert(message::frames_of(out@)[out@.len() - 1] == w[out@.len() - 1]);
}

/// The oldest message is received whole, as it was queued.
pub proof fn oldest_message_is_received(
    socket: &mut DealerSocket,
    core: &CoreState,
    running: bool,
    r: MultipartStep,
    i: int,
)
    requires
        call_ensures(DealerSocket::recv_multipart, (socket, core, running), r),
    ensures
        running && old(socket).incoming.queued().len() > 0 ==> (r matches MultipartStep::Done(Ok(v))
            && v@.len() == old(socket).incoming.queued()[0].frames@.len() && (0 <= i < v@.len()
            ==> v@[i]@ == old(socket).incoming.queued()[0].frames@[i]@)) && final(socket).incoming.queued() == old(socket).incoming.queued().skip(1),
        running && old(socket).incoming.queued().len() == 0 && !old(socket).incoming.is_closed() && (
        core.options.rcvtimeo is None || core.options.rcvtimeo->0.spec_nanos() > 0) ==> r
            == MultipartStep::Wait(core.options.rcvtimeo),
        !running ==> (r matches MultipartStep::Done(Err(e)) && e is InvalidState) && *final(socket)
            == *old(socket),
        final(socket).pending_outgoing_queue == old(socket).pending_outgoing_queue,
{
    if running && old(socket).incoming.queued().len() > 0 {
        let v = r->Done_0->Ok_0;
        let given = old(socket).incoming.queued()[0].frames@;
        assert(message::frames_of(v@).len() == message::frames_of(given).len());
        if 0 <= i < v@.len() {
            assert(message::frames_of(v@)[i] == message::frames_of(given)[i]);
        }
    }
}

/// The same frame by frame: each message to its end before the next.
pub proof fn frames_are_received_in_order(
    socket: &mut DealerSocket,
    core: &CoreState,
    running: bool,
    r: RecvStep,
)
    requires
        call_ensures(DealerSocket::recv, (socket, core, running), r),
    ensures
        running && old(socket).incoming.buffered().len() > 0 ==> (r matches RecvStep::Done(Ok(m))
            && m@.data == old(socket).incoming.buffered()[0]@.data) && final(socket).incoming.queued() == old(socket).incoming.queued(),
        running && old(socket).incoming.buffered().len() == 0 && old(socket).incoming.queued().len() > 0 && old(socket).incoming.queued()[0].frames@.len() > 0 ==> (
        r matches RecvStep::Done(Ok(m)) && m@ == old(socket).incoming.queued()[0].frames@[0]@)
            && final(socket).incoming.buffered() == old(socket).incoming.queued()[0].frames@.skip(1),
        running && old(socket).incoming.buffered().len() == 0 && old(socket).incoming.queued().len() == 0 && !old(socket).incoming.is_closed() && (
        core.options.rcvtimeo is None || core.options.rcvtimeo->0.spec_nanos() > 0) ==> r
            == RecvStep::Wait(core.options.rcvtimeo),
        !running ==> (r matches RecvStep::Done(Err(e)) && e is InvalidState) && *final(socket)
            == *old(socket),
{
}

/// The option says whether the delimiter is automatic; a new DEALER has it so, knows nobody and
/// holds nothing; whoever is to be woken is told once, and stopping wakes everybody and keeps
/// what waits.
pub proof fn dealer_starts_empty_and_stops_in_order(
    core: &CoreState,
    fresh: DealerSocket,
    socket: &DealerSocket,
    option: i32,
    value: Result<Vec<u8>, ZmqError>,
    a: &mut DealerSocket,
    n: Notices,
    b: &mut DealerSocket,
)
    requires
        call_ensures(DealerSocket::new, (core,), fresh),
        call_ensures(DealerSocket::get_pattern_option, (socket, option), value),
        call_ensures(DealerSocket::take_notices, (a,), n),
        call_ensures(DealerSocket::stop, (b,), ()),
    ensures
        fresh.load_balancer.turns().len() == 0 && fresh.pending_outgoing_queue@.len() == 0
            && fresh.current_send_transaction is Idle && !fresh.framing.spec_manual(),
        core.options.rcvhwm > 0 ==> fresh.incoming.capacity() == core.options.rcvhwm,
        value is Ok <==> option == AUTO_DELIMITER,
        value matches Ok(v) ==> v@.len() == 4 && (socket.framing.spec_manual() <==> forall|i: int|
            0 <= i < 4 ==> #[trigger] v@[i] == 0),
        n == old(a).notices && !final(a).notices.queue && !final(a).notices.peers && final(a).pending_outgoing_queue == old(a).pending_outgoing_queue,
        final(b).incoming.is_closed() && final(b).incoming.queued() == old(b).incoming.queued()
            && final(b).pending_outgoing_queue == old(b).pending_outgoing_queue && final(b).notices.queue && final(b).notices.peers,
{
    if value is Ok {
        let v = value->Ok_0@;
        assert(types::low_first(1)[0] == 1);
        assert(types::high_first(1)[3] == 1);
        if v == types::low_first(1) {
            assert(v[0] != 0);
        }
        if v == types::high_first(1) {
            assert(v[3] != 0);
        }
    }
}

/// However many attempts come to nothing, a peer that can be written to keeps its turn, and
/// nobody has one that had none.
proof fn lemma_live_peers_stay(
    turns: Seq<String>,
    core: CoreState,
    pipes: Map<usize, pipe_coordinator::PipeState>,
    n: nat,
    peer: String,
)
    ensures
        turns.contains(peer) && live_route(core, pipes, peer@) is Some ==> turns_after(
            turns,
            core,
            pipes,
            n,
        ).contains(peer),
        turns_after(turns, core, pipes, n).contains(peer) ==> turns.contains(peer),
    decreases n,
{
    if n > 0 {
        let m = (n - 1) as nat;
        lemma_live_peers_stay(turns, core, pipes, m, peer);
        let t = turns_after(turns, core, pipes, m);
        let u = turns_after(turns, core, pipes, n);
        if t.contains(peer) && live_route(core, pipes, peer@) is Some {
            let i = choose|i: int| 0 <= i < t.len() && t[i] == peer;
            if i == 0 {
                assert(u[u.len() - 1] == peer);
            } else {
                assert(u[i - 1] == peer);
            }
        }
        if u.contains(peer) && t.len() > 0 {
            let i = choose|i: int| 0 <= i < u.len() && u[i] == peer;
            if i < t.len() - 1 {
                assert(t[i + 1] == peer);
            } else {
                assert(t[0] == peer);
            }
        }
    }
}

/// While a message that waited is tried on one peer after another, every peer that can be
/// written to keeps a turn, nobody gains one, and no pipe is touched. The message is for a peer
/// that can be written to, under a permit of that peer's own pipe, and that peer stands behind
/// the others.
pub proof fn waiting_message_costs_no_live_peer_its_turn(
    socket: &mut DealerSocket,
    core: &CoreState,
    attempt: DealerAttempt,
    r: OutgoingStep,
    peer: String,
)
    requires
        call_ensures(DealerSocket::outgoing_next, (socket, core, true, attempt), r),
        attempt.attempts < attempt.max_attempts,
    ensures
        old(socket).load_balancer.turns().contains(peer) && live_route(
            *core,
            old(socket).pipe_send_coordinator.pipes(),
            peer@,
        ) is Some ==> final(socket).load_balancer.turns().contains(peer),
        final(socket).load_balancer.turns().contains(peer) ==> old(socket).load_balancer.turns().contains(
            peer,
        ),
        final(socket).pipe_send_coordinator == old(socket).pipe_send_coordinator,
        final(socket).current_send_transaction == old(socket).current_send_transaction,
        final(socket).incoming == old(socket).incoming,
        final(socket).framing == old(socket).framing,
        final(socket).pipe_read_to_endpoint_uri == old(socket).pipe_read_to_endpoint_uri,
        old(socket).notices.peers ==> final(socket).notices.peers,
        r is Requeued ==> final(socket).notices.queue,
        !(r is Requeued) ==> final(socket).notices.queue == old(socket).notices.queue,
        r matches OutgoingStep::Send { permit, pending } ==> {
            &&& at_once(*core)
            &&& live_route(*core, old(socket).pipe_send_coordinator.pipes(), pending.uri@) == Some(
                (pending.connection, pending.pipe_read_id),
            )
            &&& pipe_coordinator::permit_source(permit)
                == old(socket).pipe_send_coordinator.pipes()[pending.pipe_read_id].guard()
            &&& final(socket).load_balancer.turns().last() == pending.uri
        },
        r matches OutgoingStep::WaitPermit { semaphore, timeout, pending } ==> {
            &&& !at_once(*core)
            &&& timeout == core.options.sndtimeo
            &&& live_route(*core, old(socket).pipe_send_coordinator.pipes(), pending.uri@) == Some(
                (pending.connection, pending.pipe_read_id),
            )
            &&& *semaphore
                == old(socket).pipe_send_coordinator.pipes()[pending.pipe_read_id].guard()
            &&& final(socket).load_balancer.turns().last() == pending.uri
        },
{
    let turns = old(socket).load_balancer.turns();
    let pipes = old(socket).pipe_send_coordinator.pipes();
    let limit = attempts_left(attempt);
    let k = dead_in_front(turns, *core, pipes, limit);
    lemma_dead_bounds(turns, *core, pipes, limit);
    lemma_turns_after_dead(turns, *core, pipes, limit, k);
    if k == limit || k == turns.len() {
        lemma_live_peers_stay(turns, *core, pipes, k, peer);
    } else if !at_once(*core) {
        let n = (k + 1) as nat;
        lemma_live_peers_stay(turns, *core, pipes, n, peer);
        assert(turns.skip(k as int)[0] == turns[k as int]);
        assert(turns.skip(k as int).skip(1) =~= turns.skip(k as int + 1));
    } else {
        let n = choose|n: nat|
            k <= n && #[trigger] settled_after(
                *old(socket),
                *final(socket),
                *core,
                attempt,
                n,
                r,
            );
        lemma_live_peers_stay(turns, *core, pipes, n, peer);
        lemma_live_peers_stay(turns, *core, pipes, (n + 1) as nat, peer);
    }
}

/// A message that waits again after one attempt leaves everything as it was but the queue; one
/// that is tried further leaves the queue and the pipes as they were.
pub proof fn one_attempt_on_a_waiting_message_touches_little(
    socket: &mut DealerSocket,
    core: &CoreState,
    running: bool,
    attempt: DealerAttempt,
    r: OutgoingStep,
)
    requires
        call_ensures(DealerSocket::outgoing_attempt, (socket, core, running, attempt), r),
    ensures
        !running ==> r is Requeued,
        r is Requeued ==> {
            &&& final(socket).load_balancer == old(socket).load_balancer
            &&& final(socket).notices == (Notices { queue: true, ..old(socket).notices })
            &&& final(socket).pending_outgoing_queue@[0] == attempt.frames
            &&& final(socket).pending_outgoing_queue@.len()
                > old(socket).pending_outgoing_queue@.len()
        },
        !(r is Requeued) ==> {
            &&& final(socket).pending_outgoing_queue == old(socket).pending_outgoing_queue
            &&& final(socket).notices.queue == old(socket).notices.queue
        },
        running && old(socket).load_balancer.turns().len() > 0 && attempt.attempts
            < attempt.max_attempts && live_route(
            *core,
            old(socket).pipe_send_coordinator.pipes(),
            old(socket).load_balancer.turns()[0]@,
        ) is Some ==> final(socket).notices == old(socket).notices && final(socket).load_balancer.turns().last() == old(socket).load_balancer.turns()[0],
        final(socket).pipe_send_coordinator == old(socket).pipe_send_coordinator,
        final(socket).current_send_transaction == old(socket).current_send_transaction,
        final(socket).incoming == old(socket).incoming,
        final(socket).framing == old(socket).framing,
        final(socket).pipe_read_to_endpoint_uri == old(socket).pipe_read_to_endpoint_uri,
{
}

/// Those who wait for a message that is sent frame by frame to be over are told exactly when it
/// is: with its last frame, or when it had too many.
pub proof fn end_of_a_framewise_message_is_told(
    socket: &mut DealerSocket,
    core: &CoreState,
    running: bool,
    msg: Msg,
    r: (DealerStep, bool),
)
    requires
        call_ensures(DealerSocket::send, (socket, core, running, msg), r),
    ensures
        !running ==> !r.1 && *final(socket) == *old(socket),
        running && msg@.more ==> (r.1 <==> old(socket).parts_so_far().len()
            >= MAX_DEALER_SEND_BUFFER_PARTS),
        running && !msg@.more ==> (r.1 <==> old(socket).current_send_transaction is Buffering),
        r.1 ==> final(socket).current_send_transaction is Idle,
        final(socket).incoming == old(socket).incoming,
        final(socket).framing == old(socket).framing,
        final(socket).pipe_read_to_endpoint_uri == old(socket).pipe_read_to_endpoint_uri,
{
}

/// A pipe that is attached again stays as it is, an unknown one changes nothing, and the pipes
/// of others are never touched by one that comes or goes.
pub proof fn pipes_of_other_peers_are_not_touched(
    coming: &mut DealerSocket,
    going: &mut DealerSocket,
    core: &CoreState,
    pipe: usize,
    other: usize,
)
    requires
        call_ensures(DealerSocket::pipe_attached, (coming, core, pipe), ()),
        call_ensures(DealerSocket::pipe_detached, (going, pipe), ()),
        other != pipe,
    ensures
        !core.pipe_read_id_to_endpoint_uri@.dom().contains(pipe) ==> *final(coming) == *old(coming),
        old(coming).pipe_send_coordinator.pipes().dom().contains(pipe)
            ==> final(coming).pipe_send_coordinator == old(coming).pipe_send_coordinator,
        final(coming).pipe_send_coordinator.pipes().dom().contains(other)
            <==> old(coming).pipe_send_coordinator.pipes().dom().contains(other),
        old(coming).pipe_send_coordinator.pipes().dom().contains(other)
            ==> final(coming).pipe_send_coordinator.pipes()[other]
            == old(coming).pipe_send_coordinator.pipes()[other],
        final(coming).pipe_read_to_endpoint_uri@.dom().contains(other)
            <==> old(coming).pipe_read_to_endpoint_uri@.dom().contains(other),
        final(coming).incoming == old(coming).incoming,
        final(coming).framing == old(coming).framing,
        final(coming).current_send_transaction == old(coming).current_send_transaction,
        final(going).pipe_send_coordinator.pipes().dom().contains(other)
            <==> old(going).pipe_send_coordinator.pipes().dom().contains(other),
        old(going).pipe_send_coordinator.pipes().dom().contains(other)
            ==> final(going).pipe_send_coordinator.pipes()[other]
            == old(going).pipe_send_coordinator.pipes()[other],
        final(going).pipe_read_to_endpoint_uri@.dom().contains(other)
            <==> old(going).pipe_read_to_endpoint_uri@.dom().contains(other),
        final(going).framing == old(going).framing,
        final(going).current_send_transaction == old(going).current_send_transaction,
        final(going).incoming.is_closed() == old(going).incoming.is_closed(),
        final(going).incoming.capacity() == old(going).incoming.capacity(),
        final(going).notices.queue == old(going).notices.queue,
        !final(going).incoming.partial().dom().contains(pipe),
        final(going).incoming.partial().dom().contains(other)
            <==> old(going).incoming.partial().dom().contains(other),
{
    let a = old(coming).pipe_send_coordinator.pipes();
    let b = final(coming).pipe_send_coordinator.pipes();
    if core.pipe_read_id_to_endpoint_uri@.dom().contains(pipe) {
        assert(b.dom().contains(other) <==> a.dom().insert(pipe).contains(other));
        assert(a.remove(pipe) == b.remove(pipe));
        if a.dom().contains(other) {
            assert(a.remove(pipe)[other] == a[other]);
            assert(b.remove(pipe)[other] == b[other]);
        }
    }
}

/// After any error but those of a slow or lost peer a waiting message is tried no further, and
/// a wait for a permit that failed for another reason than a lost pipe changes nothing; a peer
/// that is lost costs nobody else a pipe.
pub proof fn other_errors_end_the_attempts(
    a: &mut DealerSocket,
    b: &mut DealerSocket,
    pending: PendingSend,
    error: ZmqError,
    r: OutgoingStep,
    q: OutgoingStep,
    other: usize,
)
    requires
        call_ensures(DealerSocket::outgoing_sent, (a, pending, Err::<(), ZmqError>(error)), r),
        call_ensures(
            DealerSocket::outgoing_permitted,
            (b, pending, Err::<OwnedSemaphorePermit, ZmqError>(error)),
            q,
        ),
        other != pending.pipe_read_id,
    ensures
        !(error is Timeout) && !(error is ResourceLimitReached) && !(error is ConnectionClosed) && !(
        error is HostUnreachable) ==> *final(a) == *old(a) && r == OutgoingStep::Next(
            DealerAttempt { attempts: pending.attempt.max_attempts, ..pending.attempt },
        ),
        !(error is HostUnreachable) ==> *final(b) == *old(b),
        final(b).pipe_send_coordinator == old(b).pipe_send_coordinator,
        final(a).pipe_send_coordinator.pipes().dom().contains(other)
            <==> old(a).pipe_send_coordinator.pipes().dom().contains(other),
        old(a).pipe_send_coordinator.pipes().dom().contains(other)
            ==> final(a).pipe_send_coordinator.pipes()[other]
            == old(a).pipe_send_coordinator.pipes()[other],
        final(a).current_send_transaction == old(a).current_send_transaction,
        final(a).incoming == old(a).incoming,
        final(a).pipe_read_to_endpoint_uri == old(a).pipe_read_to_endpoint_uri,
        final(b).current_send_transaction == old(b).current_send_transaction,
        final(b).incoming == old(b).incoming,
        final(b).pipe_read_to_endpoint_uri == old(b).pipe_read_to_endpoint_uri,
{
}

/// An option that a DEALER does not have is named in the error, to be set and to be read, and
/// so is one whose value has the wrong size.
pub proof fn dealer_names_the_option_it_refuses(
    s: &DealerSocket,
    t: &mut DealerSocket,
    option: i32,
    value: &Vec<u8>,
    set: Result<(), ZmqError>,
    got: Result<Vec<u8>, ZmqError>,
)
    requires
        call_ensures(DealerSocket::set_pattern_option, (t, option, value), set),
        call_ensures(DealerSocket::get_pattern_option, (s, option), got),
    ensures
        set is Ok <==> option == AUTO_DELIMITER && value@.len() == 4,
        option != AUTO_DELIMITER ==> set == Err::<(), ZmqError>(
            ZmqError::UnsupportedOption(option),
        ) && got == Err::<Vec<u8>, ZmqError>(ZmqError::UnsupportedOption(option)),
        option == AUTO_DELIMITER && value@.len() != 4 ==> set == Err::<(), ZmqError>(
            ZmqError::InvalidOptionValue(option),
        ),
        got is Ok <==> option == AUTO_DELIMITER,
{
}

/// A peer loses its turn over a message that waited exactly where the turns grow fewer.
proof fn lemma_fewer_turns_after_a_loss(
    turns: Seq<String>,
    core: CoreState,
    pipes: Map<usize, pipe_coordinator::PipeState>,
    n: nat,
)
    requires
        came_to_nothing(turns, core, pipes, n),
    ensures
        turns_after(turns, core, pipes, n).len() <= turns.len(),
        turns_after(turns, core, pipes, n).len() < turns.len() <==> peer_taken_out(
            turns,
            core,
            pipes,
            n,
        ),
    decreases n,
{
    if n > 0 {
        let m = (n - 1) as nat;
        assert(came_to_nothing(turns, core, pipes, m));
        lemma_fewer_turns_after_a_loss(turns, core, pipes, m);
        let t = turns_after(turns, core, pipes, m);
        assert(t.len() > 0);
        if live_route(core, pipes, t[0]@) is None {
            assert(peer_taken_out(turns, core, pipes, n));
        } else if peer_taken_out(turns, core, pipes, m) {
            let i = choose|i: nat|
                i < m && live_route(
                    core,
                    pipes,
                    (#[trigger] turns_after(turns, core, pipes, i))[0]@,
                ) is None;
            assert(peer_taken_out(turns, core, pipes, n));
        } else if peer_taken_out(turns, core, pipes, n) {
            let i = choose|i: nat|
                i < n && live_route(
                    core,
                    pipes,
                    (#[trigger] turns_after(turns, core, pipes, i))[0]@,
                ) is None;
            assert(i == m);
        }
    }
}

/// Those who watch the peers are told exactly when one of them lost its turn while a message
/// that waited was tried.
pub proof fn lost_turns_are_told(
    socket: &mut DealerSocket,
    core: &CoreState,
    attempt: DealerAttempt,
    r: OutgoingStep,
)
    requires
        call_ensures(DealerSocket::outgoing_next, (socket, core, true, attempt), r),
        attempt.attempts < attempt.max_attempts,
    ensures
        final(socket).load_balancer.turns().len() <= old(socket).load_balancer.turns().len(),
        final(socket).notices.peers <==> old(socket).notices.peers || final(socket).load_balancer.turns().len() < old(socket).load_balancer.turns().len(),
{
    let turns = old(socket).load_balancer.turns();
    let pipes = old(socket).pipe_send_coordinator.pipes();
    let limit = attempts_left(attempt);
    let k = dead_in_front(turns, *core, pipes, limit);
    lemma_dead_bounds(turns, *core, pipes, limit);
    lemma_turns_after_dead(turns, *core, pipes, limit, k);
    if !(k == limit || k == turns.len()) && at_once(*core) {
        let n = choose|n: nat|
            k <= n && #[trigger] settled_after(
                *old(socket),
                *final(socket),
                *core,
                attempt,
                n,
                r,
            );
        lemma_fewer_turns_after_a_loss(turns, *core, pipes, n);
    }
}

/// The end of a pipe changes nothing by itself, and what comes over a pipe touches neither the
/// peers nor what is to be sent.
pub proof fn events_of_a_pipe_touch_only_what_arrives(
    socket: &mut DealerSocket,
    pipe: usize,
    event: PipeEvent,
    r: Result<(), ZmqError>,
)
    requires
        call_ensures(DealerSocket::handle_pipe_event, (socket, pipe, event), r),
    ensures
        event is ClosedByPeer ==> r is Ok && *final(socket) == *old(socket),
        final(socket).load_balancer == old(socket).load_balancer,
        final(socket).pipe_send_coordinator == old(socket).pipe_send_coordinator,
        final(socket).pending_outgoing_queue == old(socket).pending_outgoing_queue,
        final(socket).current_send_transaction == old(socket).current_send_transaction,
        final(socket).pipe_read_to_endpoint_uri == old(socket).pipe_read_to_endpoint_uri,
        final(socket).notices == old(socket).notices,
        final(socket).framing == old(socket).framing,
        final(socket).incoming.buffered() == old(socket).incoming.buffered(),
        final(socket).incoming.capacity() == old(socket).incoming.capacity(),
        final(socket).incoming.is_closed() == old(socket).incoming.is_closed(),
{
}

} // verus!
