use vstd::prelude::*;

use dashmap::DashMap;
use std::collections::VecDeque;

use crate::error::ZmqError;
use crate::message;
use crate::message::Msg;
use crate::socket::patterns::fair_queue::{FairQueue, PopStep, PushError};
use crate::socket::patterns::item::{Origin, QueueItem};
use crate::socket::patterns::pipe_table;
use crate::socket::patterns::pipe_table::{
    frames_clear, frames_insert, frames_new, frames_remove,
};
use crate::time::Duration;

verus! {

/// The outcome of a receive that may have to wait.
#[derive(Debug)]
pub enum ItemStep {
    Done(Result<QueueItem, ZmqError>),
    /// Nothing waits yet. Ask again when an item has been queued, or hand the lapse of
    /// the time given, if any, to `wait_lapsed`.
    Wait(Option<Duration>),
}

/// Puts the frames that arrive on many pipes together into messages, queues these, and
/// hands them to the application whole or frame by frame.
#[derive(Debug)]
pub struct IncomingMessageOrchestrator {
    main_incoming_queue: FairQueue,
    /// The frames of messages that are not complete yet, by pipe.
    partial_pipe_messages: DashMap<usize, Vec<Msg>>,
    /// The rest of a message that is being handed out frame by frame.
    current_recv_frames_buffer: VecDeque<Msg>,
}

/// The outcome of a receive that may have to wait, where frames are handed out one by
/// one.
#[derive(Debug)]
pub enum FrameStep {
    /// The next frame.
    Frame(Msg),
    /// A new message: hand the frames that the application is to see of it to
    /// `begin_frames`.
    Item(QueueItem),
    Failed(ZmqError),
    /// Nothing waits yet, as for `ItemStep::Wait`.
    Wait(Option<Duration>),
}

/// The outcome of receiving one frame.
#[derive(Debug)]
pub enum RecvStep {
    Done(Result<Msg, ZmqError>),
    /// Nothing waits yet, as for `ItemStep::Wait`.
    Wait(Option<Duration>),
}

/// The outcome of receiving a whole message.
#[derive(Debug)]
pub enum MultipartStep {
    Done(Result<Vec<Msg>, ZmqError>),
    /// Nothing waits yet, as for `ItemStep::Wait`.
    Wait(Option<Duration>),
}

/// A receive with time limit `limit` took the oldest of the messages that waited. Where
/// none did, it failed on a closed queue, failed at once under a limit of zero, and
/// otherwise is to wait.
pub open spec fn takes_next(
    before: Seq<QueueItem>,
    closed: bool,
    limit: Option<Duration>,
    after: Seq<QueueItem>,
    r: ItemStep,
) -> bool {
    let at_once = limit matches Some(d) && d.spec_nanos() == 0;
    if before.len() > 0 {
        r == ItemStep::Done(Ok(before[0])) && after == before.skip(1)
    } else {
        &&& after == before
        &&& if closed {
            r matches ItemStep::Done(Err(ZmqError::Internal(m))) && m@ == if at_once {
                "FairQueue channel closed unexpectedly"@
            } else if limit is Some {
                "Orchestrator: Main receive queue closed while popping item"@
            } else {
                "Orchestrator: Main receive queue closed (inf wait)"@
            }
        } else if at_once {
            r == ItemStep::Done(Err(ZmqError::ResourceLimitReached))
        } else {
            r == ItemStep::Wait(limit)
        }
    }
}

/// What is received where an item's frames are handed out one by one: the first of
/// them, or one empty frame where there is none.
pub open spec fn first_frame(frames: Seq<message::Frame>) -> message::Frame {
    if frames.len() == 0 {
        message::Frame::of(Seq::empty())
    } else {
        frames[0]
    }
}

/// One frame was received: the next of the message that was being handed out, or else the
/// first of the next message, whose frames for the application are `given`. Where there is
/// neither, the receive failed or is to wait, as `takes_next` says.
pub open spec fn frame_received(
    before: IncomingMessageOrchestrator,
    after: IncomingMessageOrchestrator,
    limit: Option<Duration>,
    given: Seq<Msg>,
    r: RecvStep,
) -> bool {
    &&& after.partial() == before.partial()
    &&& after.capacity() == before.capacity()
    &&& after.is_closed() == before.is_closed()
    &&& if before.buffered().len() > 0 {
        &&& r matches RecvStep::Done(Ok(m)) && m@ == before.buffered()[0]@.with_more(
            before.buffered().len() > 1,
        )
        &&& after.buffered() == before.buffered().skip(1)
        &&& after.queued() == before.queued()
    } else if before.queued().len() > 0 {
        &&& r matches RecvStep::Done(Ok(m)) && m@ == first_frame(message::frames_of(given))
        &&& after.buffered() == if given.len() == 0 {
            given
        } else {
            given.skip(1)
        }
        &&& after.queued() == before.queued().skip(1)
    } else {
        &&& after.buffered() == before.buffered()
        &&& takes_next(
            before.queued(),
            before.is_closed(),
            limit,
            after.queued(),
            match r {
                RecvStep::Done(Err(e)) => ItemStep::Done(Err(e)),
                RecvStep::Done(Ok(_)) => ItemStep::Done(Ok(arbitrary())),
                RecvStep::Wait(t) => ItemStep::Wait(t),
            },
        )
    }
}

/// A whole message was received, whose frames for the application are `given`. Where none
/// waits, the receive failed or is to wait, as `takes_next` says. What was left of a message
/// that was being handed out is gone.
pub open spec fn message_received(
    before: IncomingMessageOrchestrator,
    after: IncomingMessageOrchestrator,
    limit: Option<Duration>,
    given: Seq<message::Frame>,
    r: MultipartStep,
) -> bool {
    &&& after.partial() == before.partial()
    &&& after.capacity() == before.capacity()
    &&& after.is_closed() == before.is_closed()
    &&& after.buffered() == Seq::<Msg>::empty()
    &&& if before.queued().len() > 0 {
        &&& r matches MultipartStep::Done(Ok(v)) && message::frames_of(v@) == given
        &&& after.queued() == before.queued().skip(1)
    } else {
        takes_next(
            before.queued(),
            before.is_closed(),
            limit,
            after.queued(),
            match r {
                MultipartStep::Done(Err(e)) => ItemStep::Done(Err(e)),
                MultipartStep::Done(Ok(_)) => ItemStep::Done(Ok(arbitrary())),
                MultipartStep::Wait(t) => ItemStep::Wait(t),
            },
        )
    }
}

/// The message `frames`, put together from what arrived on a pipe, was queued with `origin`
/// where there was room for it.
pub open spec fn message_queued(
    before: IncomingMessageOrchestrator,
    after: IncomingMessageOrchestrator,
    origin: Origin,
    frames: Seq<Msg>,
    r: Result<(), ZmqError>,
) -> bool {
    if before.is_closed() {
        (r matches Err(ZmqError::Internal(m)) && m@ == "Main incoming queue closed"@)
            && after.queued() == before.queued()
    } else {
        &&& r is Ok
        &&& if before.queued().len() < before.capacity() {
            &&& after.queued().len() == before.queued().len() + 1
            &&& after.queued().drop_last() == before.queued()
            &&& after.queued().last().origin == origin
            &&& after.queued().last().frames@ == frames
        } else {
            after.queued() == before.queued()
        }
    }
}

/// The frames of the incomplete message of a pipe.
pub open spec fn held(partial: Map<usize, Seq<Msg>>, pipe: usize) -> Seq<Msg> {
    if partial.dom().contains(pipe) {
        partial[pipe]
    } else {
        Seq::empty()
    }
}

/// The incomplete messages once a frame has arrived on a pipe.
pub open spec fn after_frame(partial: Map<usize, Seq<Msg>>, pipe: usize, frame: Msg) -> Map<
    usize,
    Seq<Msg>,
> {
    if frame@.more {
        partial.insert(pipe, held(partial, pipe).push(frame))
    } else {
        partial.remove(pipe)
    }
}

/// The error of an operation on a socket that is being closed.
pub fn socket_is_closing() -> (e: ZmqError)
    ensures
        is_closing_error(e),
{
    ZmqError::InvalidState("Socket is closing".to_owned())
}

pub open spec fn is_closing_error(e: ZmqError) -> bool {
    e matches ZmqError::InvalidState(m) && m@ == "Socket is closing"@
}

impl IncomingMessageOrchestrator {
    /// The messages that are complete and wait.
    pub closed spec fn queued(self) -> Seq<QueueItem> {
        self.main_incoming_queue.items()
    }

    /// The most messages that wait.
    pub closed spec fn capacity(self) -> nat {
        self.main_incoming_queue.spec_capacity()
    }

    pub closed spec fn is_closed(self) -> bool {
        self.main_incoming_queue.is_closed()
    }

    /// The frames of incomplete messages, by pipe.
    pub closed spec fn partial(self) -> Map<usize, Seq<Msg>> {
        pipe_table::partial_frames(self.partial_pipe_messages)
    }

    /// The frames still to be handed out of the message that is being received.
    pub closed spec fn buffered(self) -> Seq<Msg> {
        self.current_recv_frames_buffer@
    }

    pub closed spec fn queue_wf(self) -> bool {
        self.main_incoming_queue.wf()
    }

    /// No more messages wait than there is room for.
    pub open spec fn wf(self) -> bool {
        self.queue_wf() && self.queued().len() <= self.capacity()
    }

    /// The frames that have arrived on a pipe of the message not yet complete.
    pub open spec fn partial_of(self, pipe: usize) -> Seq<Msg> {
        held(self.partial(), pipe)
    }

    /// Nothing but the queue of complete messages may differ.
    pub open spec fn same_but_queue(self, other: Self) -> bool {
        &&& self.capacity() == other.capacity()
        &&& self.is_closed() == other.is_closed()
        &&& self.partial() == other.partial()
        &&& self.buffered() == other.buffered()
    }

    /// Nothing but the partial messages may differ.
    pub open spec fn same_but_partial(self, other: Self) -> bool {
        &&& self.capacity() == other.capacity()
        &&& self.is_closed() == other.is_closed()
        &&& self.queued() == other.queued()
        &&& self.buffered() == other.buffered()
    }

    /// Nothing has arrived, and there is room for `rcvhwm` messages, or for one where that is 0.
    pub open spec fn is_new(self, rcvhwm: usize) -> bool {
        &&& self.queued() == Seq::<QueueItem>::empty()
        &&& self.capacity() == if rcvhwm == 0 {
            1
        } else {
            rcvhwm as int
        }
        &&& !self.is_closed()
        &&& self.partial() == Map::<usize, Seq<Msg>>::empty()
        &&& self.buffered() == Seq::<Msg>::empty()
    }

    /// An orchestrator with room for `rcvhwm` messages, and for one where that is 0.
    pub fn new(rcvhwm: usize) -> (o: Self)
        ensures
            o.wf(),
            o.is_new(rcvhwm),
    {
        let o = IncomingMessageOrchestrator {
            main_incoming_queue: FairQueue::new(rcvhwm),
            partial_pipe_messages: frames_new(),
            current_recv_frames_buffer: VecDeque::new(),
        };
        assert(o.partial() =~= Map::<usize, Seq<Msg>>::empty());
        o
    }

    /// Takes a frame that arrived on a pipe. The last frame of a message gives the
    /// message; any other is kept.
    pub fn accumulate_pipe_frame(&mut self, pipe_read_id: usize, incoming_frame: Msg) -> (r: Option<
        Vec<Msg>,
    >)
        requires
            old(self).wf(),
        ensures
            final(self).wf(),
            final(self).same_but_partial(*old(self)),
            final(self).partial() == after_frame(
                old(self).partial(),
                pipe_read_id,
                incoming_frame,
            ),
            match r {
                Some(v) => !incoming_frame@.more && v@ == old(self).partial_of(pipe_read_id).push(
                    incoming_frame,
                ),
                None => incoming_frame@.more,
            },
    {
        let mut frames = match frames_remove(&mut self.partial_pipe_messages, pipe_read_id) {
            Some(v) => v,
            None => Vec::new(),
        };
        let last: bool = !incoming_frame.is_more();
        frames.push(incoming_frame);
        if last {
            Some(frames)
        } else {
            frames_insert(&mut self.partial_pipe_messages, pipe_read_id, frames);
            proof {
                let before = old(self).partial();
                let added = old(self).partial_of(pipe_read_id).push(incoming_frame);
                assert(before.remove(pipe_read_id).insert(pipe_read_id, added) =~= before.insert(
                    pipe_read_id,
                    added,
                ));
            }
            None
        }
    }

    /// Queues a message. Where the queue is full the message is dropped.
    pub fn queue_item(&mut self, item_to_queue: QueueItem) -> (r: Result<(), ZmqError>)
        requires
            old(self).wf(),
        ensures
            final(self).wf(),
            final(self).same_but_queue(*old(self)),
            if old(self).is_closed() {
                (r matches Err(ZmqError::Internal(m)) && m@ == "Main incoming queue closed"@)
                    && final(self).queued() == old(self).queued()
            } else {
                &&& r is Ok
                &&& final(self).queued() == if old(self).queued().len() < old(self).capacity() {
                    old(self).queued().push(item_to_queue)
                } else {
                    old(self).queued()
                }
            },
    {
        match self.main_incoming_queue.try_push_item(item_to_queue) {
            Ok(()) => Ok(()),
            Err(PushError::Full(_)) => Ok(()),
            Err(PushError::Closed(_)) => Err(
                ZmqError::Internal("Main incoming queue closed".to_owned()),
            ),
        }
    }

    /// Takes the next message. A time of zero asks for one that is there already; any
    /// other time, and none, may wait.
    pub fn recv_item_from_main_queue(&mut self, rcvtimeo_opt: Option<Duration>) -> (r: ItemStep)
        requires
            old(self).wf(),
        ensures
            final(self).wf(),
            final(self).same_but_queue(*old(self)),
            takes_next(
                old(self).queued(),
                old(self).is_closed(),
                rcvtimeo_opt,
                final(self).queued(),
                r,
            ),
    {
        match rcvtimeo_opt {
            Some(d) => {
                if d.is_zero() {
                    return match self.main_incoming_queue.try_pop_item() {
                        Ok(Some(item)) => ItemStep::Done(Ok(item)),
                        Ok(None) => ItemStep::Done(Err(ZmqError::ResourceLimitReached)),
                        Err(e) => ItemStep::Done(Err(e)),
                    };
                }
                match self.main_incoming_queue.pop_item() {
                    PopStep::Done(Some(item)) => ItemStep::Done(Ok(item)),
                    PopStep::Done(None) => ItemStep::Done(
                        Err(
                            ZmqError::Internal(
                                "Orchestrator: Main receive queue closed while popping item".to_owned(),
                            ),
                        ),
                    ),
                    PopStep::Wait => ItemStep::Wait(Some(d)),
                }
            },
            None => match self.main_incoming_queue.pop_item() {
                PopStep::Done(Some(item)) => ItemStep::Done(Ok(item)),
                PopStep::Done(None) => ItemStep::Done(
                    Err(
                        ZmqError::Internal(
                            "Orchestrator: Main receive queue closed (inf wait)".to_owned(),
                        ),
                    ),
                ),
                PopStep::Wait => ItemStep::Wait(None),
            },
        }
    }

    /// What a receive comes to when its time has lapsed with nothing received.
    pub fn wait_lapsed() -> (e: ZmqError)
        ensures
            e == ZmqError::Timeout,
    {
        ZmqError::Timeout
    }

    /// Takes the next message whole. What is left of a message that was being handed
    /// out frame by frame is given up.
    pub fn recv_logical_message(&mut self, rcvtimeo_opt: Option<Duration>) -> (r: ItemStep)
        requires
            old(self).wf(),
        ensures
            final(self).wf(),
            final(self).partial() == old(self).partial(),
            final(self).capacity() == old(self).capacity(),
            final(self).is_closed() == old(self).is_closed(),
            final(self).buffered() == Seq::<Msg>::empty(),
            takes_next(
                old(self).queued(),
                old(self).is_closed(),
                rcvtimeo_opt,
                final(self).queued(),
                r,
            ),
    {
        self.reset_recv_message_buffer();
        self.recv_item_from_main_queue(rcvtimeo_opt)
    }

    /// The next frame of the message that is being handed out, where one is left. MORE
    /// says whether another follows.
    fn next_buffered_frame(&mut self) -> (r: Option<Msg>)
        requires
            old(self).wf(),
        ensures
            final(self).wf(),
            final(self).partial() == old(self).partial(),
            final(self).capacity() == old(self).capacity(),
            final(self).is_closed() == old(self).is_closed(),
            final(self).queued() == old(self).queued(),
            match r {
                Some(m) => old(self).buffered().len() > 0 && final(self).buffered() == old(self).buffered().skip(1) && m@ == old(self).buffered()[0]@.with_more(
                    old(self).buffered().len() > 1,
                ),
                None => old(self).buffered().len() == 0 && final(self).buffered() == old(self).buffered(),
            },
    {
        match self.current_recv_frames_buffer.pop_front() {
            Some(mut frame) => {
                frame.set_more(self.current_recv_frames_buffer.len() > 0);
                Some(frame)
            },
            None => None,
        }
    }

    /// The next frame: of the message that is being handed out, where one is left, and
    /// of the next message otherwise.
    pub fn recv_message(&mut self, rcvtimeo_opt: Option<Duration>) -> (r: FrameStep)
        requires
            old(self).wf(),
        ensures
            final(self).wf(),
            final(self).partial() == old(self).partial(),
            final(self).capacity() == old(self).capacity(),
            final(self).is_closed() == old(self).is_closed(),
            if old(self).buffered().len() > 0 {
                &&& r matches FrameStep::Frame(m) && m@ == old(self).buffered()[0]@.with_more(
                    old(self).buffered().len() > 1,
                )
                &&& final(self).buffered() == old(self).buffered().skip(1)
                &&& final(self).queued() == old(self).queued()
            } else {
                &&& final(self).buffered() == old(self).buffered()
                &&& !(r is Frame)
                &&& takes_next(
                    old(self).queued(),
                    old(self).is_closed(),
                    rcvtimeo_opt,
                    final(self).queued(),
                    match r {
                        FrameStep::Item(i) => ItemStep::Done(Ok(i)),
                        FrameStep::Failed(e) => ItemStep::Done(Err(e)),
                        FrameStep::Wait(t) => ItemStep::Wait(t),
                        FrameStep::Frame(_) => arbitrary(),
                    },
                )
            },
    {
        match self.next_buffered_frame() {
            Some(frame) => FrameStep::Frame(frame),
            None => match self.recv_item_from_main_queue(rcvtimeo_opt) {
                ItemStep::Done(Ok(item)) => FrameStep::Item(item),
                ItemStep::Done(Err(e)) => FrameStep::Failed(e),
                ItemStep::Wait(t) => FrameStep::Wait(t),
            },
        }
    }

    /// Starts to hand out a message frame by frame: the first frame is returned and the
    /// others are kept.
    pub fn begin_frames(&mut self, app_frames: Vec<Msg>) -> (m: Msg)
        requires
            old(self).wf(),
            old(self).buffered().len() == 0,
        ensures
            final(self).wf(),
            final(self).partial() == old(self).partial(),
            final(self).capacity() == old(self).capacity(),
            final(self).is_closed() == old(self).is_closed(),
            final(self).queued() == old(self).queued(),
            m@ == first_frame(message::frames_of(app_frames@)),
            final(self).buffered() == if app_frames@.len() == 0 {
                app_frames@
            } else {
                app_frames@.skip(1)
            },
    {
        if app_frames.len() == 0 {
            return Msg::new();
        }
        let mut frames = app_frames;
        let first = frames.remove(0);
        let mut rest: VecDeque<Msg> = VecDeque::new();
        let ghost all = app_frames@;
        while frames.len() > 0
            invariant
                rest@ + frames@ == all.skip(1),
            decreases frames@.len(),
        {
            let ghost before = frames@;
            let frame = frames.remove(0);
            rest.push_back(frame);
            assert(before == seq![frame] + frames@);
        }
        assert(rest@ == all.skip(1));
        self.current_recv_frames_buffer = rest;
        first
    }

    /// Receives one frame of messages that the application sees as they are queued.
    pub fn recv_plain(&mut self, rcvtimeo_opt: Option<Duration>) -> (r: RecvStep)
        requires
            old(self).wf(),
        ensures
            final(self).wf(),
            frame_received(
                *old(self),
                *final(self),
                rcvtimeo_opt,
                old(self).queued()[0].frames@,
                r,
            ),
    {
        match self.recv_message(rcvtimeo_opt) {
            FrameStep::Frame(m) => RecvStep::Done(Ok(m)),
            FrameStep::Item(item) => RecvStep::Done(Ok(self.begin_frames(item.frames))),
            FrameStep::Failed(e) => RecvStep::Done(Err(e)),
            FrameStep::Wait(t) => RecvStep::Wait(t),
        }
    }

    /// Receives a message that the application sees as it is queued.
    pub fn recv_plain_multipart(&mut self, rcvtimeo_opt: Option<Duration>) -> (r: MultipartStep)
        requires
            old(self).wf(),
        ensures
            final(self).wf(),
            message_received(
                *old(self),
                *final(self),
                rcvtimeo_opt,
                message::frames_of(old(self).queued()[0].frames@),
                r,
            ),
    {
        match self.recv_logical_message(rcvtimeo_opt) {
            ItemStep::Done(Ok(item)) => MultipartStep::Done(Ok(item.frames)),
            ItemStep::Done(Err(e)) => MultipartStep::Done(Err(e)),
            ItemStep::Wait(t) => MultipartStep::Wait(t),
        }
    }

    /// Gives up what is left of the message that is being handed out.
    pub fn reset_recv_message_buffer(&mut self)
        requires
            old(self).wf(),
        ensures
            final(self).wf(),
            final(self).partial() == old(self).partial(),
            final(self).capacity() == old(self).capacity(),
            final(self).is_closed() == old(self).is_closed(),
            final(self).queued() == old(self).queued(),
            final(self).buffered() == Seq::<Msg>::empty(),
    {
        self.current_recv_frames_buffer = VecDeque::new();
    }

    /// Forgets a pipe: its incomplete message, and what is left of the message that is
    /// being handed out.
    pub fn clear_pipe_state(&mut self, pipe_read_id: usize)
        requires
            old(self).wf(),
        ensures
            final(self).wf(),
            final(self).partial() == old(self).partial().remove(pipe_read_id),
            final(self).capacity() == old(self).capacity(),
            final(self).is_closed() == old(self).is_closed(),
            final(self).queued() == old(self).queued(),
            final(self).buffered() == Seq::<Msg>::empty(),
    {
        let _ = frames_remove(&mut self.partial_pipe_messages, pipe_read_id);
        self.reset_recv_message_buffer();
    }

    /// Closes the queue and gives up every message that is not complete.
    pub fn close(&mut self)
        requires
            old(self).wf(),
        ensures
            final(self).wf(),
            final(self).is_closed(),
            final(self).queued() == old(self).queued(),
            final(self).capacity() == old(self).capacity(),
            final(self).partial() == Map::<usize, Seq<Msg>>::empty(),
            final(self).buffered() == Seq::<Msg>::empty(),
    {
        self.main_incoming_queue.close();
        frames_clear(&mut self.partial_pipe_messages);
        self.reset_recv_message_buffer();
    }
}

// ---------------------------------------------------------------------------
// Laws
// ---------------------------------------------------------------------------
/// The messages that frames arriving on many pipes complete on one of them, in order.
pub open spec fn completed(
    partial: Map<usize, Seq<Msg>>,
    arrivals: Seq<(usize, Msg)>,
    pipe: usize,
) -> Seq<Seq<Msg>>
    decreases arrivals.len(),
{
    if arrivals.len() == 0 {
        Seq::empty()
    } else {
        let (p, frame) = arrivals[0];
        let later = completed(after_frame(partial, p, frame), arrivals.skip(1), pipe);
        if p == pipe && !frame@.more {
            seq![held(partial, p).push(frame)] + later
        } else {
            later
        }
    }
}

/// The frames that arrive on one pipe.
pub open spec fn frames_on(arrivals: Seq<(usize, Msg)>, pipe: usize) -> Seq<Msg>
    decreases arrivals.len(),
{
    if arrivals.len() == 0 {
        Seq::empty()
    } else if arrivals[0].0 == pipe {
        seq![arrivals[0].1] + frames_on(arrivals.skip(1), pipe)
    } else {
        frames_on(arrivals.skip(1), pipe)
    }
}

/// The messages that frames complete where nothing else arrives, after the frames `begun`.
pub open spec fn completed_alone(begun: Seq<Msg>, frames: Seq<Msg>) -> Seq<Seq<Msg>>
    decreases frames.len(),
{
    if frames.len() == 0 {
        Seq::empty()
    } else if frames[0]@.more {
        completed_alone(begun.push(frames[0]), frames.skip(1))
    } else {
        seq![begun.push(frames[0])] + completed_alone(Seq::empty(), frames.skip(1))
    }
}

/// Messages, one after the other.
pub open spec fn chained(messages: Seq<Seq<Msg>>) -> Seq<Msg>
    decreases messages.len(),
{
    if messages.len() == 0 {
        Seq::empty()
    } else {
        messages[0] + chained(messages.skip(1))
    }
}

/// Pipes do not mix: however the frames of many pipes arrive among each other, each pipe gives
/// the messages that its own frames give alone.
pub proof fn pipes_do_not_mix(
    partial: Map<usize, Seq<Msg>>,
    arrivals: Seq<(usize, Msg)>,
    pipe: usize,
)
    ensures
        completed(partial, arrivals, pipe) == completed_alone(
            held(partial, pipe),
            frames_on(arrivals, pipe),
        ),
    decreases arrivals.len(),
{
    if arrivals.len() > 0 {
        let (p, frame) = arrivals[0];
        let next = after_frame(partial, p, frame);
        pipes_do_not_mix(next, arrivals.skip(1), pipe);
        if p == pipe {
            let own = frames_on(arrivals, pipe);
            assert(own.skip(1) =~= frames_on(arrivals.skip(1), pipe));
            assert(own[0] == frame);
        }
    }
}

/// Messages stay whole: frames that are sent as messages, one after the other, arrive as these
/// messages.
pub proof fn messages_stay_whole(messages: Seq<Seq<Msg>>)
    requires
        forall|i: int|
            0 <= i < messages.len() ==> (#[trigger] messages[i]).len() > 0
                && message::is_one_message(message::frames_of(messages[i])),
    ensures
        completed_alone(Seq::empty(), chained(messages)) == messages,
    decreases messages.len(),
{
    if messages.len() > 0 {
        let first = messages[0];
        let rest = messages.skip(1);
        assert forall|i: int| 0 <= i < rest.len() implies (#[trigger] rest[i]).len() > 0
            && message::is_one_message(message::frames_of(rest[i])) by {
            assert(rest[i] == messages[i + 1]);
        }
        messages_stay_whole(rest);
        lemma_one_message(Seq::empty(), first, chained(rest));
        assert(Seq::<Msg>::empty() + first =~= first);
        assert(seq![first] + rest =~= messages);
    }
}

proof fn lemma_one_message(begun: Seq<Msg>, rest: Seq<Msg>, later: Seq<Msg>)
    requires
        rest.len() > 0,
        message::is_one_message(message::frames_of(rest)),
    ensures
        completed_alone(begun, rest + later) == seq![begun + rest] + completed_alone(
            Seq::empty(),
            later,
        ),
    decreases rest.len(),
{
    let all = rest + later;
    assert(message::frames_of(rest)[0] == rest[0]@);
    assert(all[0] == rest[0]);
    assert(all.skip(1) =~= rest.skip(1) + later);
    if rest.len() == 1 {
        assert(all.skip(1) =~= later);
        assert(begun.push(rest[0]) =~= begun + rest);
    } else {
        assert forall|i: int| 0 <= i < rest.len() - 1 implies (
        #[trigger] message::frames_of(rest.skip(1))[i]).more == (i < rest.len() - 2) by {
            assert(message::frames_of(rest)[i + 1].more == (i + 1 < rest.len() - 1));
        }
        lemma_one_message(begun.push(rest[0]), rest.skip(1), later);
        assert(begun.push(rest[0]) + rest.skip(1) =~= begun + rest);
    }
}

/// Received frame by frame, a message is received whole and in order: once its first `k`
/// frames have been handed out, the next receive gives frame `k` and leaves the others.
pub proof fn frames_come_in_order(
    whole: Seq<Msg>,
    k: int,
    before: IncomingMessageOrchestrator,
    after: IncomingMessageOrchestrator,
    limit: Option<Duration>,
    given: Seq<Msg>,
    r: RecvStep,
)
    requires
        message::is_one_message(message::frames_of(whole)),
        0 <= k < whole.len(),
        if k == 0 {
            before.buffered().len() == 0 && before.queued().len() > 0 && given == whole
        } else {
            before.buffered() == whole.skip(k)
        },
        frame_received(before, after, limit, given, r),
    ensures
        r matches RecvStep::Done(Ok(m)) && m@ == whole[k]@,
        after.buffered() == whole.skip(k + 1),
        after.queued() == if k == 0 {
            before.queued().skip(1)
        } else {
            before.queued()
        },
{
    assert(message::frames_of(whole)[k] == whole[k]@);
    if k > 0 {
        assert(whole.skip(k).skip(1) =~= whole.skip(k + 1));
        assert(whole.skip(k)[0] == whole[k]);
        assert(whole[k]@.with_more(whole.skip(k).len() > 1) == whole[k]@);
    }
}

/// First come, first served: a message that is queued behind `n` others is the next to be
/// taken once these have been.
pub proof fn first_queued_is_first_received(queue: Seq<QueueItem>, item: QueueItem)
    ensures
        queue.push(item).skip(queue.len() as int) == seq![item],
        forall|n: int|
            0 <= n < queue.len() ==> (#[trigger] queue.push(item).skip(n))[0] == queue[n],
{
    assert(queue.push(item).skip(queue.len() as int) =~= seq![item]);
}

/// What is queued where there is room is received, as it is and exactly once, when everything
/// that waited before it has been.
pub proof fn queued_message_is_kept(
    o: &mut IncomingMessageOrchestrator,
    item: QueueItem,
    r: Result<(), ZmqError>,
)
    requires
        call_ensures(IncomingMessageOrchestrator::queue_item, (o, item), r),
    ensures
        r is Ok <==> !old(o).is_closed(),
        r is Ok && old(o).queued().len() < old(o).capacity() ==> final(o).queued().len() == old(o).queued().len() + 1 && final(o).queued().last() == item,
        old(o).queued().len() >= old(o).capacity() || r is Err ==> final(o).queued() == old(o).queued(),
        forall|i: int|
            0 <= i < old(o).queued().len() ==> #[trigger] final(o).queued()[i] == old(o).queued()[i],
        final(o).partial() == old(o).partial(),
        final(o).buffered() == old(o).buffered(),
{
}

/// A message that waits is received at once, whatever the time limit, and nothing else leaves
/// the queue.
pub proof fn waiting_message_is_received(
    o: &mut IncomingMessageOrchestrator,
    limit: Option<Duration>,
    r: ItemStep,
)
    requires
        call_ensures(IncomingMessageOrchestrator::recv_item_from_main_queue, (o, limit), r),
    ensures
        old(o).queued().len() > 0 ==> r == ItemStep::Done(Ok(old(o).queued()[0])),
        old(o).queued().len() > 0 ==> final(o).queued().len() == old(o).queued().len() - 1
            && forall|i: int|
            0 <= i < final(o).queued().len() ==> #[trigger] final(o).queued()[i] == old(o).queued()[i + 1],
        old(o).queued().len() == 0 ==> final(o).queued().len() == 0 && !(r matches ItemStep::Done(
            Ok(_),
        )),
{
}

/// An empty queue is waited on for as long as the time limit says: for ever without one, and
/// not at all where it is zero. A closed queue is not waited on.
pub proof fn empty_queue_is_waited_on(
    o: &mut IncomingMessageOrchestrator,
    limit: Option<Duration>,
    r: ItemStep,
)
    requires
        call_ensures(IncomingMessageOrchestrator::recv_item_from_main_queue, (o, limit), r),
        old(o).queued().len() == 0,
    ensures
        !old(o).is_closed() && limit is None ==> r == ItemStep::Wait(None),
        !old(o).is_closed() && limit is Some && limit->0.spec_nanos() > 0 ==> r == ItemStep::Wait(
            limit,
        ),
        !old(o).is_closed() && limit is Some && limit->0.spec_nanos() == 0 ==> r == ItemStep::Done(
            Err(ZmqError::ResourceLimitReached),
        ),
        old(o).is_closed() ==> (r matches ItemStep::Done(Err(e)) && e is Internal),
{
}

/// A receive that waited in vain has timed out.
pub proof fn lapsed_wait_is_a_timeout(e: ZmqError)
    requires
        call_ensures(IncomingMessageOrchestrator::wait_lapsed, (), e),
    ensures
        e == ZmqError::Timeout,
{
}

/// A frame that is followed by more is kept for its pipe, and the last one gives the whole
/// message: the frames kept and itself, in order. Other pipes are not touched.
pub proof fn last_frame_completes_the_message(
    o: &mut IncomingMessageOrchestrator,
    pipe: usize,
    frame: Msg,
    r: Option<Vec<Msg>>,
    other: usize,
)
    requires
        call_ensures(IncomingMessageOrchestrator::accumulate_pipe_frame, (o, pipe, frame), r),
        other != pipe,
    ensures
        r is Some <==> !frame.more,
        r matches Some(v) ==> v@.last() == frame && v@.drop_last() == (if old(o).partial().dom().contains(pipe) {
            old(o).partial()[pipe]
        } else {
            Seq::empty()
        }) && !final(o).partial().dom().contains(pipe),
        r is None ==> final(o).partial().dom().contains(pipe) && final(o).partial()[pipe].last()
            == frame && final(o).partial()[pipe].drop_last() == (if old(o).partial().dom().contains(pipe) {
            old(o).partial()[pipe]
        } else {
            Seq::empty()
        }),
        final(o).partial().dom().contains(other) <==> old(o).partial().dom().contains(other),
        final(o).partial().dom().contains(other) ==> final(o).partial()[other] == old(o).partial()[other],
        final(o).queued() == old(o).queued(),
        final(o).buffered() == old(o).buffered(),
{
    if r is Some {
        assert(r->0@.drop_last() =~= held(old(o).partial(), pipe));
    } else {
        assert(final(o).partial()[pipe].drop_last() =~= held(old(o).partial(), pipe));
    }
}

/// A message received whole is the oldest one with every frame as it arrived.
pub proof fn whole_message_is_received(
    o: &mut IncomingMessageOrchestrator,
    limit: Option<Duration>,
    r: MultipartStep,
)
    requires
        call_ensures(IncomingMessageOrchestrator::recv_plain_multipart, (o, limit), r),
    ensures
        old(o).queued().len() > 0 ==> (r matches MultipartStep::Done(Ok(v)) && v@.len() == old(o).queued()[0].frames@.len() && (forall|i: int|
            0 <= i < v@.len() ==> (#[trigger] v@[i])@ == old(o).queued()[0].frames@[i]@)),
        old(o).queued().len() > 0 ==> final(o).queued() == old(o).queued().skip(1),
        old(o).queued().len() == 0 ==> !(r matches MultipartStep::Done(Ok(_))),
        old(o).queued().len() == 0 && !old(o).is_closed() && (limit is None
            || limit->0.spec_nanos() > 0) ==> r == MultipartStep::Wait(limit),
        final(o).buffered().len() == 0,
{
    if old(o).queued().len() > 0 {
        let v = r->Done_0->Ok_0;
        let given = old(o).queued()[0].frames@;
        assert(message::frames_of(v@).len() == message::frames_of(given).len());
        assert forall|i: int| 0 <= i < v@.len() implies (#[trigger] v@[i])@ == given[i]@ by {
            assert(message::frames_of(v@)[i] == message::frames_of(given)[i]);
        }
    }
}

/// Received frame by frame, a message gives its first frame and keeps the others, and while
/// frames are kept no other message is begun.
pub proof fn frames_are_received_one_by_one(
    o: &mut IncomingMessageOrchestrator,
    limit: Option<Duration>,
    r: RecvStep,
)
    requires
        call_ensures(IncomingMessageOrchestrator::recv_plain, (o, limit), r),
    ensures
        old(o).buffered().len() > 0 ==> (r matches RecvStep::Done(Ok(m)) && m@.data == old(o).buffered()[0]@.data && m@.more == (old(o).buffered().len() > 1)) && final(o).queued() == old(o).queued() && final(o).buffered().len() == old(o).buffered().len() - 1,
        old(o).buffered().len() == 0 && old(o).queued().len() > 0 && old(o).queued()[0].frames@.len() > 0 ==> (r matches RecvStep::Done(Ok(m)) && m@ == old(o).queued()[0].frames@[0]@) && final(o).buffered() == old(o).queued()[0].frames@.skip(1)
            && final(o).queued() == old(o).queued().skip(1),
        old(o).buffered().len() == 0 && old(o).queued().len() == 0 ==> !(r matches RecvStep::Done(
            Ok(_),
        )),
        old(o).buffered().len() == 0 && old(o).queued().len() == 0 && !old(o).is_closed() && (
        limit is None || limit->0.spec_nanos() > 0) ==> r == RecvStep::Wait(limit),
{
}

/// A message handed out frame by frame begins with its first frame and keeps all the others; a
/// message with no frames is one empty frame.
pub proof fn handing_out_loses_no_frame(
    o: &mut IncomingMessageOrchestrator,
    frames: Vec<Msg>,
    m: Msg,
)
    requires
        call_ensures(IncomingMessageOrchestrator::begin_frames, (o, frames), m),
    ensures
        frames@.len() > 0 ==> m@ == frames@[0]@ && final(o).buffered().len() == frames@.len() - 1
            && forall|i: int|
            0 <= i < final(o).buffered().len() ==> #[trigger] final(o).buffered()[i] == frames@[i
                + 1],
        frames@.len() == 0 ==> m@.data.len() == 0 && !m@.more && final(o).buffered().len() == 0,
        final(o).queued() == old(o).queued(),
{
}

/// A closed queue takes nothing more, gives out what waits, and forgets what was incomplete.
pub proof fn closing_keeps_what_waits(o: &mut IncomingMessageOrchestrator)
    requires
        call_ensures(IncomingMessageOrchestrator::close, (o,), ()),
    ensures
        final(o).is_closed(),
        final(o).queued() == old(o).queued(),
        forall|pipe: usize| !final(o).partial().dom().contains(pipe),
        final(o).buffered().len() == 0,
{
}

/// A pipe that goes takes its incomplete message along, and no complete one.
pub proof fn gone_pipe_leaves_complete_messages(
    o: &mut IncomingMessageOrchestrator,
    pipe: usize,
    other: usize,
)
    requires
        call_ensures(IncomingMessageOrchestrator::clear_pipe_state, (o, pipe), ()),
        other != pipe,
    ensures
        final(o).queued() == old(o).queued(),
        !final(o).partial().dom().contains(pipe),
        final(o).partial().dom().contains(other) <==> old(o).partial().dom().contains(other),
        final(o).partial().dom().contains(other) ==> final(o).partial()[other] == old(o).partial()[other],
{
}

/// A new orchestrator has room for as many messages as are asked for, and for one at least.
pub proof fn room_is_as_asked_for(rcvhwm: usize, o: IncomingMessageOrchestrator)
    requires
        call_ensures(IncomingMessageOrchestrator::new, (rcvhwm,), o),
    ensures
        o.queued().len() == 0 && o.buffered().len() == 0 && !o.is_closed(),
        rcvhwm > 0 ==> o.capacity() == rcvhwm,
        rcvhwm == 0 ==> o.capacity() == 1,
        forall|pipe: usize| !o.partial().dom().contains(pipe),
{
}

/// What a socket that is being closed answers.
pub proof fn closing_is_an_invalid_state(e: ZmqError)
    requires
        call_ensures(socket_is_closing, (), e),
    ensures
        e is InvalidState,
{
}

/// The next frame is the next of the message being handed out, and otherwise the next message
/// is taken, oldest first; giving up the rest of a message loses no other.
pub proof fn next_frame_or_next_message(
    a: &mut IncomingMessageOrchestrator,
    b: &mut IncomingMessageOrchestrator,
    c: &mut IncomingMessageOrchestrator,
    limit: Option<Duration>,
    r: FrameStep,
    s: ItemStep,
)
    requires
        call_ensures(IncomingMessageOrchestrator::recv_message, (a, limit), r),
        call_ensures(IncomingMessageOrchestrator::recv_logical_message, (b, limit), s),
        call_ensures(IncomingMessageOrchestrator::reset_recv_message_buffer, (c,), ()),
    ensures
        old(a).buffered().len() > 0 ==> (r matches FrameStep::Frame(m) && m@.data == old(a).buffered()[0]@.data && m@.more == (old(a).buffered().len() > 1)) && final(a).queued()
            == old(a).queued() && final(a).buffered() == old(a).buffered().skip(1),
        old(a).buffered().len() == 0 && old(a).queued().len() > 0 ==> r == FrameStep::Item(
            old(a).queued()[0],
        ) && final(a).queued() == old(a).queued().skip(1),
        old(a).buffered().len() == 0 && old(a).queued().len() == 0 && !old(a).is_closed() && (
        limit is None || limit->0.spec_nanos() > 0) ==> r == FrameStep::Wait(limit),
        old(b).queued().len() > 0 ==> s == ItemStep::Done(Ok(old(b).queued()[0])) && final(b).queued() == old(b).queued().skip(1),
        final(b).buffered().len() == 0,
        final(c).buffered().len() == 0 && final(c).queued() == old(c).queued() && final(c).partial() == old(c).partial(),
{
}

/// An operation on a socket that is being closed says so.
pub proof fn closing_is_said(e: ZmqError)
    requires
        call_ensures(socket_is_closing, (), e),
    ensures
        e matches ZmqError::InvalidState(m) && m@ == "Socket is closing"@,
{
}

} // verus!
