use vstd::prelude::*;

use crate::error::ZmqError;
use crate::message;
use crate::message::Msg;
use crate::socket::patterns::incoming_orchestrator;
use crate::socket::patterns::incoming_orchestrator::{
    socket_is_closing, IncomingMessageOrchestrator, MultipartStep, RecvStep,
};
use crate::socket::patterns::item::{Origin, PipeEvent, QueueItem};
use crate::socket::socket_core::state::CoreState;

verus! {

/// Collects the messages of many senders.
#[derive(Debug)]
pub struct PullSocket {
    pub incoming: IncomingMessageOrchestrator,
}

impl PullSocket {
    pub open spec fn wf(self) -> bool {
        self.incoming.wf()
    }

    /// Nothing has arrived.
    pub open spec fn is_new(self, rcvhwm: usize) -> bool {
        self.incoming.is_new(rcvhwm)
    }

    pub fn new(core: &CoreState) -> (s: PullSocket)
        ensures
            s.wf(),
            s.is_new(core.options.rcvhwm),
    {
        PullSocket { incoming: IncomingMessageOrchestrator::new(core.options.rcvhwm) }
    }

    pub fn send(&self, _msg: Msg) -> (r: Result<(), ZmqError>)
        ensures
            r matches Err(ZmqError::InvalidState(m)) && m@ == "PULL sockets cannot send messages"@,
    {
        Err(ZmqError::InvalidState("PULL sockets cannot send messages".to_owned()))
    }

    pub fn send_multipart(&self, _frames: Vec<Msg>) -> (r: Result<(), ZmqError>)
        ensures
            r matches Err(ZmqError::InvalidState(m)) && m@ == "PULL sockets cannot send messages"@,
    {
        Err(ZmqError::InvalidState("PULL sockets cannot send messages".to_owned()))
    }

    /// Receives one frame.
    pub fn recv(&mut self, core: &CoreState, running: bool) -> (r: RecvStep)
        requires
            old(self).wf(),
        ensures
            final(self).wf(),
            if running {
                incoming_orchestrator::frame_received(
                    old(self).incoming,
                    final(self).incoming,
                    core.options.rcvtimeo,
                    old(self).incoming.queued()[0].frames@,
                    r,
                )
            } else {
                *final(self) == *old(self) && (r matches RecvStep::Done(Err(e))
                    && incoming_orchestrator::is_closing_error(e))
            },
    {
        if !running {
            return RecvStep::Done(Err(socket_is_closing()));
        }
        self.incoming.recv_plain(core.options.rcvtimeo)
    }

    /// Receives a whole message.
    pub fn recv_multipart(&mut self, core: &CoreState, running: bool) -> (r: MultipartStep)
        requires
            old(self).wf(),
        ensures
            final(self).wf(),
            if running {
                incoming_orchestrator::message_received(
                    old(self).incoming,
                    final(self).incoming,
                    core.options.rcvtimeo,
                    message::frames_of(old(self).incoming.queued()[0].frames@),
                    r,
                )
            } else {
                *final(self) == *old(self) && (r matches MultipartStep::Done(Err(e))
                    && incoming_orchestrator::is_closing_error(e))
            },
    {
        if !running {
            return MultipartStep::Done(Err(socket_is_closing()));
        }
        self.incoming.recv_plain_multipart(core.options.rcvtimeo)
    }

    /// Takes what happens on a pipe: frames are put together, and a complete message is
    /// queued.
    pub fn handle_pipe_event(&mut self, pipe_id: usize, event: PipeEvent) -> (r: Result<
        (),
        ZmqError,
    >)
        requires
            old(self).wf(),
        ensures
            final(self).wf(),
            final(self).incoming.buffered() == old(self).incoming.buffered(),
            final(self).incoming.capacity() == old(self).incoming.capacity(),
            final(self).incoming.is_closed() == old(self).incoming.is_closed(),
            match event {
                PipeEvent::ClosedByPeer => r is Ok && *final(self) == *old(self),
                PipeEvent::MessageReceived(msg) => if msg@.more {
                    &&& r is Ok
                    &&& final(self).incoming.queued() == old(self).incoming.queued()
                    &&& final(self).incoming.partial() == old(self).incoming.partial().insert(
                        pipe_id,
                        old(self).incoming.partial_of(pipe_id).push(msg),
                    )
                } else {
                    &&& final(self).incoming.partial() == old(self).incoming.partial().remove(
                        pipe_id,
                    )
                    &&& incoming_orchestrator::message_queued(
                        old(self).incoming,
                        final(self).incoming,
                        Origin::Unknown,
                        old(self).incoming.partial_of(pipe_id).push(msg),
                        r,
                    )
                },
            },
    {
        match event {
            PipeEvent::MessageReceived(msg) => match self.incoming.accumulate_pipe_frame(
                pipe_id,
                msg,
            ) {
                Some(frames) => {
                    let r = self.incoming.queue_item(QueueItem { origin: Origin::Unknown, frames });
                    assert(self.incoming.queued().drop_last() =~= old(self).incoming.queued()
                        || self.incoming.queued() == old(self).incoming.queued());
                    r
                },
                None => Ok(()),
            },
            PipeEvent::ClosedByPeer => Ok(()),
        }
    }

    /// Forgets a pipe.
    pub fn pipe_detached(&mut self, pipe_read_id: usize)
        requires
            old(self).wf(),
        ensures
            final(self).wf(),
            final(self).incoming.partial() == old(self).incoming.partial().remove(pipe_read_id),
            final(self).incoming.buffered() == Seq::<Msg>::empty(),
            final(self).incoming.queued() == old(self).incoming.queued(),
            final(self).incoming.capacity() == old(self).incoming.capacity(),
            final(self).incoming.is_closed() == old(self).incoming.is_closed(),
    {
        self.incoming.clear_pipe_state(pipe_read_id);
    }
}

impl PullSocket {
    /// The pattern has no options of its own.
    pub fn set_pattern_option(&self, option: i32, _value: &Vec<u8>) -> (r: Result<(), ZmqError>)
        ensures
            r == Err::<(), ZmqError>(ZmqError::UnsupportedOption(option)),
    {
        Err(ZmqError::UnsupportedOption(option))
    }

    /// The pattern has no options that could be read.
    pub fn get_pattern_option(&self, option: i32) -> (r: Result<Vec<u8>, ZmqError>)
        ensures
            r == Err::<Vec<u8>, ZmqError>(ZmqError::UnsupportedOption(option)),
    {
        Err(ZmqError::UnsupportedOption(option))
    }
}

// ---------------------------------------------------------------------------
// Laws
// ---------------------------------------------------------------------------
/// Frames are collected until the last one of a message; then the message, with all its frames
/// in order, waits behind the others, where there is room.
pub proof fn complete_messages_are_queued(
    s: &mut PullSocket,
    pipe: usize,
    msg: Msg,
    r: Result<(), ZmqError>,
)
    requires
        call_ensures(PullSocket::handle_pipe_event, (s, pipe, PipeEvent::MessageReceived(msg)), r),
    ensures
        msg.more ==> r is Ok && final(s).incoming.queued() == old(s).incoming.queued() && final(s).incoming.partial()[pipe] == old(s).incoming.partial_of(pipe).push(msg),
        !msg.more && !old(s).incoming.is_closed() && old(s).incoming.queued().len() < old(s).incoming.capacity() ==> r is Ok && final(s).incoming.queued().len() == old(s).incoming.queued().len() + 1 && final(s).incoming.queued().drop_last() == old(s).incoming.queued() && final(s).incoming.queued().last().frames@ == old(s).incoming.partial_of(pipe).push(msg),
        !msg.more && old(s).incoming.queued().len() >= old(s).incoming.capacity() ==> final(s).incoming.queued() == old(s).incoming.queued(),
        !msg.more && old(s).incoming.is_closed() ==> r is Err,
        !msg.more ==> !final(s).incoming.partial().dom().contains(pipe),
{
}

/// A whole message is received as it was queued, and the oldest one first.
pub proof fn oldest_message_is_pulled(
    s: &mut PullSocket,
    core: &CoreState,
    running: bool,
    r: MultipartStep,
    i: int,
)
    requires
        call_ensures(PullSocket::recv_multipart, (s, core, running), r),
    ensures
        running && old(s).incoming.queued().len() > 0 ==> (r matches MultipartStep::Done(Ok(v))
            && v@.len() == old(s).incoming.queued()[0].frames@.len() && (0 <= i < v@.len()
            ==> v@[i]@ == old(s).incoming.queued()[0].frames@[i]@)) && final(s).incoming.queued() == old(s).incoming.queued().skip(1),
        running && old(s).incoming.queued().len() == 0 && !old(s).incoming.is_closed() && (
        core.options.rcvtimeo is None || core.options.rcvtimeo->0.spec_nanos() > 0) ==> r
            == MultipartStep::Wait(core.options.rcvtimeo),
        running && old(s).incoming.queued().len() == 0 && !old(s).incoming.is_closed()
            && core.options.rcvtimeo is Some && core.options.rcvtimeo->0.spec_nanos() == 0 ==> r
            == MultipartStep::Done(Err(ZmqError::ResourceLimitReached)),
        !running ==> (r matches MultipartStep::Done(Err(e)) && e is InvalidState) && *final(s)
            == *old(s),
{
    if running && old(s).incoming.queued().len() > 0 {
        let v = r->Done_0->Ok_0;
        let given = old(s).incoming.queued()[0].frames@;
        assert(message::frames_of(v@).len() == message::frames_of(given).len());
        if 0 <= i < v@.len() {
            assert(message::frames_of(v@)[i] == message::frames_of(given)[i]);
        }
    }
}

/// Frames are received one by one, each message to its end before the next.
pub proof fn frames_are_pulled_in_order(
    s: &mut PullSocket,
    core: &CoreState,
    running: bool,
    r: RecvStep,
)
    requires
        call_ensures(PullSocket::recv, (s, core, running), r),
    ensures
        running && old(s).incoming.buffered().len() > 0 ==> (r matches RecvStep::Done(Ok(m))
            && m@.data == old(s).incoming.buffered()[0]@.data && m@.more == (old(s).incoming.buffered().len() > 1)) && final(s).incoming.queued() == old(s).incoming.queued(),
        running && old(s).incoming.buffered().len() == 0 && old(s).incoming.queued().len() > 0
            && old(s).incoming.queued()[0].frames@.len() > 0 ==> (r matches RecvStep::Done(Ok(m))
            && m@ == old(s).incoming.queued()[0].frames@[0]@) && final(s).incoming.buffered()
            == old(s).incoming.queued()[0].frames@.skip(1),
        running && old(s).incoming.buffered().len() == 0 && old(s).incoming.queued().len() == 0
            && !old(s).incoming.is_closed() && (core.options.rcvtimeo is None
            || core.options.rcvtimeo->0.spec_nanos() > 0) ==> r == RecvStep::Wait(
            core.options.rcvtimeo,
        ),
        !running ==> (r matches RecvStep::Done(Err(e)) && e is InvalidState) && *final(s) == *old(s),
{
}

/// A PULL sends nothing, keeps what is complete when a sender goes, and has room for as many
/// messages as its option says.
pub proof fn pull_only_receives(
    s: &PullSocket,
    msg: Msg,
    frames: Vec<Msg>,
    a: Result<(), ZmqError>,
    b: Result<(), ZmqError>,
    t: &mut PullSocket,
    pipe: usize,
    core: &CoreState,
    fresh: PullSocket,
)
    requires
        call_ensures(PullSocket::send, (s, msg), a),
        call_ensures(PullSocket::send_multipart, (s, frames), b),
        call_ensures(PullSocket::pipe_detached, (t, pipe), ()),
        call_ensures(PullSocket::new, (core,), fresh),
    ensures
        a is Err && a->Err_0 is InvalidState,
        b is Err && b->Err_0 is InvalidState,
        final(t).incoming.queued() == old(t).incoming.queued(),
        !final(t).incoming.partial().dom().contains(pipe),
        core.options.rcvhwm > 0 ==> fresh.incoming.capacity() == core.options.rcvhwm,
        fresh.incoming.queued().len() == 0,
{
}

/// The pattern has no options of its own, to be set or read.
pub proof fn pull_has_no_options(
    s: &PullSocket,
    option: i32,
    value: &Vec<u8>,
    a: Result<(), ZmqError>,
    b: Result<Vec<u8>, ZmqError>,
)
    requires
        call_ensures(PullSocket::set_pattern_option, (s, option, value), a),
        call_ensures(PullSocket::get_pattern_option, (s, option), b),
    ensures
        a is Err && a->Err_0 is UnsupportedOption,
        b is Err && b->Err_0 is UnsupportedOption,
{
}

/// The errors say what was asked for in vain: the option, or sending on a PULL.
pub proof fn pull_errors_name_their_cause(
    s: &PullSocket,
    option: i32,
    value: &Vec<u8>,
    msg: Msg,
    frames: Vec<Msg>,
    set: Result<(), ZmqError>,
    got: Result<Vec<u8>, ZmqError>,
    frame: Result<(), ZmqError>,
    message: Result<(), ZmqError>,
)
    requires
        call_ensures(PullSocket::set_pattern_option, (s, option, value), set),
        call_ensures(PullSocket::get_pattern_option, (s, option), got),
        call_ensures(PullSocket::send, (s, msg), frame),
        call_ensures(PullSocket::send_multipart, (s, frames), message),
    ensures
        set == Err::<(), ZmqError>(ZmqError::UnsupportedOption(option)),
        got == Err::<Vec<u8>, ZmqError>(ZmqError::UnsupportedOption(option)),
        frame matches Err(ZmqError::InvalidState(m)) && m@ == "PULL sockets cannot send messages"@,
        message matches Err(ZmqError::InvalidState(m)) && m@
            == "PULL sockets cannot send messages"@,
{
}

/// A pipe that goes takes its unfinished message with it, and nothing else.
pub proof fn gone_pipe_takes_only_its_own(s: &mut PullSocket, pipe: usize, other: usize)
    requires
        call_ensures(PullSocket::pipe_detached, (s, pipe), ()),
        other != pipe,
    ensures
        !final(s).incoming.partial().dom().contains(pipe),
        final(s).incoming.partial().dom().contains(other)
            <==> old(s).incoming.partial().dom().contains(other),
        old(s).incoming.partial().dom().contains(other) ==> final(s).incoming.partial()[other]
            == old(s).incoming.partial()[other],
        final(s).incoming.queued() == old(s).incoming.queued(),
        final(s).incoming.capacity() == old(s).incoming.capacity(),
        final(s).incoming.is_closed() == old(s).incoming.is_closed(),
{
}

/// The end of a pipe changes nothing by itself; what comes over one changes neither the room
/// nor the message that is being read.
pub proof fn end_of_a_pipe_changes_nothing(
    s: &mut PullSocket,
    pipe: usize,
    event: PipeEvent,
    r: Result<(), ZmqError>,
)
    requires
        call_ensures(PullSocket::handle_pipe_event, (s, pipe, event), r),
    ensures
        event is ClosedByPeer ==> r is Ok && *final(s) == *old(s),
        final(s).incoming.buffered() == old(s).incoming.buffered(),
        final(s).incoming.capacity() == old(s).incoming.capacity(),
        final(s).incoming.is_closed() == old(s).incoming.is_closed(),
{
}

} // verus!
