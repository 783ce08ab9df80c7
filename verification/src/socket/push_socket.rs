use vstd::prelude::*;

use crate::error::ZmqError;
use crate::id_map::IdMap;
use crate::message;
use crate::message::{mark_frames, Msg};
use crate::socket::patterns::item::PipeEvent;
use crate::socket::patterns::load_balancer;
use crate::socket::patterns::load_balancer::LoadBalancer;
use crate::socket::socket_core::state::{ConnectionRef, CoreState};
use crate::time::Duration;

verus! {

/// The next step of sending `T` to one of the workers.
#[derive(Debug)]
pub enum PushStep<T> {
    Done(Result<(), ZmqError>),
    /// Send to the connection and hand the outcome to `sent` or `sent_multipart`, with the
    /// worker's URI.
    Send { uri: String, connection: ConnectionRef, payload: T },
    /// There is no worker yet. Try again when one has come, or give up with
    /// `ZmqError::Timeout` when the time given, if any, has lapsed.
    Wait { payload: T, timeout: Option<Duration> },
}

/// Shares messages out among its workers.
#[derive(Debug)]
pub struct PushSocket {
    pub load_balancer: LoadBalancer,
    pub pipe_read_to_endpoint_uri: IdMap<String>,
}

/// The position of the first connection that the core still knows, or the number of them.
pub open spec fn first_live(turns: Seq<String>, core: CoreState) -> int
    decreases turns.len(),
{
    if turns.len() == 0 || core.endpoints@.dom().contains(turns[0]@) {
        0
    } else {
        1 + first_live(turns.skip(1), core)
    }
}

proof fn lemma_first_live(turns: Seq<String>, core: CoreState, i: int)
    requires
        0 <= i <= turns.len(),
        forall|j: int| 0 <= j < i ==> !core.endpoints@.dom().contains((#[trigger] turns[j])@),
        i < turns.len() ==> core.endpoints@.dom().contains(turns[i]@),
    ensures
        first_live(turns, core) == i,
    decreases turns.len(),
{
    if i > 0 {
        assert forall|j: int| 0 <= j < i - 1 implies !core.endpoints@.dom().contains(
            (#[trigger] turns.skip(1)[j])@,
        ) by {
            assert(turns.skip(1)[j] == turns[j + 1]);
        }
        assert(!core.endpoints@.dom().contains(turns[0]@));
        lemma_first_live(turns.skip(1), core, i - 1);
    }
}

/// The turns once the first connection that the core still knows has been chosen: those in
/// front of it are gone, and it goes behind the others.
pub open spec fn turns_chosen(turns: Seq<String>, core: CoreState) -> Seq<String> {
    let i = first_live(turns, core);
    if i < turns.len() {
        turns.skip(i + 1).push(turns[i])
    } else {
        Seq::empty()
    }
}

/// Chooses the connection whose turn it is among those that the core still knows. The others
/// that had their turn before are taken out.
pub fn choose_connection(balancer: &mut LoadBalancer, core: &CoreState) -> (r: Option<
    (String, ConnectionRef),
>)
    requires
        old(balancer).wf(),
    ensures
        final(balancer).wf(),
        final(balancer).turns() == turns_chosen(old(balancer).turns(), *core),
        ({
            let turns = old(balancer).turns();
            let i = first_live(turns, *core);
            match r {
                Some((uri, c)) => i < turns.len() && uri == turns[i]
                    && core.endpoints@.dom().contains(uri@) && c
                    == core.endpoints@[uri@].connection,
                None => i == turns.len(),
            }
        }),
{
    let ghost turns = balancer.turns();
    let mut k: Ghost<int> = Ghost(0);
    assert(turns.skip(0) =~= turns);
    loop
        invariant
            balancer.wf(),
            turns == old(balancer).turns(),
            0 <= k@ <= turns.len(),
            balancer.turns() == turns.skip(k@),
            load_balancer::texts_distinct(turns),
            forall|j: int| 0 <= j < k@ ==> !core.endpoints@.dom().contains((#[trigger] turns[j])@),
        decreases turns.len() - k@,
    {
        match balancer.get_next_connection_uri() {
            Some(uri) => {
                assert(uri == turns[k@]);
                assert(turns.skip(k@).skip(1) =~= turns.skip(k@ + 1));
                match core.connection_of(uri.as_str()) {
                    Some(c) => {
                        proof {
                            lemma_first_live(turns, *core, k@);
                        }
                        return Some((uri, c));
                    },
                    None => {
                        let ghost rotated = balancer.turns();
                        balancer.remove_connection(uri.as_str());
                        proof {
                            load_balancer::lemma_remove_distinct(rotated, rotated.len() - 1);
                            assert(rotated.remove(rotated.len() - 1) =~= turns.skip(k@ + 1));
                            k@ = k@ + 1;
                        }
                    },
                }
            },
            None => {
                proof {
                    assert(k@ == turns.len());
                    lemma_first_live(turns, *core, k@);
                }
                return None;
            },
        }
    }
}

/// What sending `payload` to the next worker comes to, for a socket that has or has not been
/// terminated.
pub open spec fn push_step<T>(
    turns: Seq<String>,
    core: CoreState,
    terminated: bool,
    message: Seq<char>,
    payload: T,
    r: PushStep<T>,
) -> bool {
    let i = first_live(turns, core);
    if i < turns.len() {
        r == PushStep::Send {
            uri: turns[i],
            connection: core.endpoints@[turns[i]@].connection,
            payload,
        }
    } else if terminated {
        r matches PushStep::Done(Err(ZmqError::InvalidState(m))) && m@ == message
    } else if core.options.sndtimeo matches Some(d) && d.spec_nanos() == 0 {
        r == PushStep::<T>::Done(Err(ZmqError::ResourceLimitReached))
    } else {
        r == PushStep::Wait { payload, timeout: core.options.sndtimeo }
    }
}

impl PushSocket {
    pub open spec fn wf(self) -> bool {
        self.load_balancer.wf()
    }

    /// Nobody has come yet.
    pub open spec fn is_new(self) -> bool {
        &&& self.load_balancer.turns() == Seq::<String>::empty()
        &&& self.pipe_read_to_endpoint_uri@ == Map::<usize, String>::empty()
    }

    pub fn new() -> (s: PushSocket)
        ensures
            s.wf(),
            s.is_new(),
    {
        PushSocket { load_balancer: LoadBalancer::new(), pipe_read_to_endpoint_uri: IdMap::new() }
    }

    fn step<T>(&mut self, core: &CoreState, terminated: bool, message: &str, payload: T) -> (r:
        PushStep<T>)
        requires
            old(self).wf(),
        ensures
            final(self).wf(),
            final(self).pipe_read_to_endpoint_uri == old(self).pipe_read_to_endpoint_uri,
            final(self).load_balancer.turns() == turns_chosen(
                old(self).load_balancer.turns(),
                *core,
            ),
            push_step(
                old(self).load_balancer.turns(),
                *core,
                terminated,
                message@,
                payload,
                r,
            ),
    {
        match choose_connection(&mut self.load_balancer, core) {
            Some((uri, connection)) => PushStep::Send { uri, connection, payload },
            None => {
                if terminated {
                    return PushStep::Done(Err(ZmqError::InvalidState(message.to_owned())));
                }
                if let Some(d) = core.options.sndtimeo {
                    if d.is_zero() {
                        return PushStep::Done(Err(ZmqError::ResourceLimitReached));
                    }
                }
                PushStep::Wait { payload, timeout: core.options.sndtimeo }
            },
        }
    }

    /// Sends a frame to the next worker.
    pub fn send(&mut self, core: &CoreState, running: bool, terminated: bool, msg: Msg) -> (r:
        PushStep<Msg>)
        requires
            old(self).wf(),
        ensures
            final(self).wf(),
            final(self).pipe_read_to_endpoint_uri == old(self).pipe_read_to_endpoint_uri,
            if running {
                &&& final(self).load_balancer.turns() == turns_chosen(
                    old(self).load_balancer.turns(),
                    *core,
                )
                &&& push_step(
                    old(self).load_balancer.turns(),
                    *core,
                    terminated,
                    "Socket terminated"@,
                    msg,
                    r,
                )
            } else {
                r == PushStep::<Msg>::Done(Err(ZmqError::ResourceLimitReached)) && *final(self)
                    == *old(self)
            },
    {
        if !running {
            return PushStep::Done(Err(ZmqError::ResourceLimitReached));
        }
        self.step(core, terminated, "Socket terminated", msg)
    }

    /// Sends a frame to the next worker after a wait for one.
    pub fn send_waited(&mut self, core: &CoreState, terminated: bool, msg: Msg) -> (r: PushStep<
        Msg,
    >)
        requires
            old(self).wf(),
        ensures
            final(self).wf(),
            final(self).pipe_read_to_endpoint_uri == old(self).pipe_read_to_endpoint_uri,
            final(self).load_balancer.turns() == turns_chosen(
                old(self).load_balancer.turns(),
                *core,
            ),
            push_step(
                old(self).load_balancer.turns(),
                *core,
                terminated,
                "Socket terminated"@,
                msg,
                r,
            ),
    {
        self.step(core, terminated, "Socket terminated", msg)
    }

    /// Notes the outcome of sending a frame to a worker. A worker that is gone, or that
    /// fails for another reason than being slow, is taken out.
    pub fn sent(&mut self, uri: &str, result: Result<(), ZmqError>) -> (r: Result<(), ZmqError>)
        requires
            old(self).wf(),
        ensures
            final(self).wf(),
            final(self).pipe_read_to_endpoint_uri == old(self).pipe_read_to_endpoint_uri,
            final(self).load_balancer.turns() == match result {
                Err(e) if !(e is ResourceLimitReached || e is Timeout)
                    => load_balancer::without_text(old(self).load_balancer.turns(), uri@),
                _ => old(self).load_balancer.turns(),
            },
            match result {
                Ok(()) => r is Ok,
                Err(ZmqError::ConnectionClosed) => r matches Err(ZmqError::HostUnreachable(m))
                    && m@ == "Peer connection closed during send"@,
                Err(e) => r == Err::<(), ZmqError>(e),
            },
    {
        match result {
            Ok(()) => Ok(()),
            Err(ZmqError::ConnectionClosed) => {
                self.load_balancer.remove_connection(uri);
                Err(ZmqError::HostUnreachable("Peer connection closed during send".to_owned()))
            },
            Err(ZmqError::ResourceLimitReached) => Err(ZmqError::ResourceLimitReached),
            Err(ZmqError::Timeout) => Err(ZmqError::Timeout),
            Err(e) => {
                self.load_balancer.remove_connection(uri);
                Err(e)
            },
        }
    }

    /// Sends a message to the next worker. A message without frames goes nowhere.
    pub fn send_multipart(&mut self, core: &CoreState, running: bool, frames: Vec<Msg>) -> (r:
        PushStep<Vec<Msg>>)
        requires
            old(self).wf(),
        ensures
            final(self).wf(),
            final(self).pipe_read_to_endpoint_uri == old(self).pipe_read_to_endpoint_uri,
            if !running {
                r == PushStep::<Vec<Msg>>::Done(Err(ZmqError::ResourceLimitReached)) && *final(self)
                    == *old(self)
            } else if frames@.len() == 0 {
                r == PushStep::<Vec<Msg>>::Done(Ok(())) && *final(self) == *old(self)
            } else {
                &&& final(self).load_balancer.turns() == turns_chosen(
                    old(self).load_balancer.turns(),
                    *core,
                )
                &&& exists|p: Vec<Msg>|
                    message::frames_of(p@) == message::marked(message::frames_of(frames@))
                        && #[trigger] push_step(
                        old(self).load_balancer.turns(),
                        *core,
                        false,
                        "Socket terminated while waiting for peer"@,
                        p,
                        r,
                    )
            },
    {
        if !running {
            return PushStep::Done(Err(ZmqError::ResourceLimitReached));
        }
        if frames.len() == 0 {
            return PushStep::Done(Ok(()));
        }
        self.step(core, false, "Socket terminated while waiting for peer", mark_frames(frames))
    }

    /// Sends a message to the next worker after a wait for one.
    pub fn send_multipart_waited(&mut self, core: &CoreState, running: bool, frames: Vec<Msg>)
        -> (r: PushStep<Vec<Msg>>)
        requires
            old(self).wf(),
        ensures
            final(self).wf(),
            final(self).pipe_read_to_endpoint_uri == old(self).pipe_read_to_endpoint_uri,
            final(self).load_balancer.turns() == turns_chosen(
                old(self).load_balancer.turns(),
                *core,
            ),
            push_step(
                old(self).load_balancer.turns(),
                *core,
                !running,
                "Socket terminated while waiting for peer"@,
                frames,
                r,
            ),
    {
        self.step(core, !running, "Socket terminated while waiting for peer", frames)
    }

    /// Notes the outcome of sending a message to a worker. A worker that is gone is taken
    /// out.
    pub fn sent_multipart(&mut self, uri: &str, result: Result<(), ZmqError>) -> (r: Result<
        (),
        ZmqError,
    >)
        requires
            old(self).wf(),
        ensures
            final(self).wf(),
            final(self).pipe_read_to_endpoint_uri == old(self).pipe_read_to_endpoint_uri,
            final(self).load_balancer.turns() == if result == Err::<(), ZmqError>(
                ZmqError::ConnectionClosed,
            ) {
                load_balancer::without_text(old(self).load_balancer.turns(), uri@)
            } else {
                old(self).load_balancer.turns()
            },
            match result {
                Ok(()) => r is Ok,
                Err(ZmqError::ConnectionClosed) => r matches Err(ZmqError::HostUnreachable(m))
                    && m@ == "PUSH: Peer connection closed during multipart send"@,
                Err(e) => r == Err::<(), ZmqError>(e),
            },
    {
        match result {
            Ok(()) => Ok(()),
            Err(ZmqError::ConnectionClosed) => {
                self.load_balancer.remove_connection(uri);
                Err(
                    ZmqError::HostUnreachable(
                        "PUSH: Peer connection closed during multipart send".to_owned(),
                    ),
                )
            },
            Err(e) => Err(e),
        }
    }

    pub fn recv(&self) -> (r: Result<Msg, ZmqError>)
        ensures
            r matches Err(ZmqError::UnsupportedFeature(m)) && m@
                == "PUSH sockets cannot receive messages"@,
    {
        Err(ZmqError::UnsupportedFeature("PUSH sockets cannot receive messages".to_owned()))
    }

    /// A worker has come.
    pub fn pipe_attached(&mut self, core: &CoreState, pipe_read_id: usize)
        requires
            old(self).wf(),
        ensures
            final(self).wf(),
            if core.pipe_read_id_to_endpoint_uri@.dom().contains(pipe_read_id) {
                let uri = core.pipe_read_id_to_endpoint_uri@[pipe_read_id];
                &&& final(self).pipe_read_to_endpoint_uri@ == old(self).pipe_read_to_endpoint_uri@.insert(pipe_read_id, uri)
                &&& final(self).load_balancer.turns() == if load_balancer::has_text(
                    old(self).load_balancer.turns(),
                    uri@,
                ) {
                    old(self).load_balancer.turns()
                } else {
                    old(self).load_balancer.turns().push(uri)
                }
            } else {
                *final(self) == *old(self)
            },
    {
        if let Some(uri) = core.uri_of_pipe(pipe_read_id) {
            let _ = self.pipe_read_to_endpoint_uri.insert(pipe_read_id, uri.clone());
            self.load_balancer.add_connection(uri);
        }
    }

    /// A worker has gone.
    pub fn pipe_detached(&mut self, pipe_read_id: usize)
        requires
            old(self).wf(),
        ensures
            final(self).wf(),
            final(self).pipe_read_to_endpoint_uri@ == old(self).pipe_read_to_endpoint_uri@.remove(
                pipe_read_id,
            ),
            final(self).load_balancer.turns() == if old(self).pipe_read_to_endpoint_uri@.dom().contains(pipe_read_id) {
                load_balancer::without_text(
                    old(self).load_balancer.turns(),
                    old(self).pipe_read_to_endpoint_uri@[pipe_read_id]@,
                )
            } else {
                old(self).load_balancer.turns()
            },
    {
        if let Some(uri) = self.pipe_read_to_endpoint_uri.remove(pipe_read_id) {
            self.load_balancer.remove_connection(uri.as_str());
        }
    }
}

impl PushSocket {
    /// A PUSH socket cannot receive.
    pub fn recv_multipart(&self) -> (r: Result<Vec<Msg>, ZmqError>)
        ensures
            r matches Err(ZmqError::UnsupportedFeature(m)) && m@
                == "PUSH sockets cannot receive messages"@,
    {
        Err(ZmqError::UnsupportedFeature("PUSH sockets cannot receive messages".to_owned()))
    }

    /// The pattern has no options of its own.
    pub fn set_pattern_option(&self, option: i32, _value: &Vec<u8>) -> (r: Result<(), ZmqError>)
        ensures
            r == Err::<(), ZmqError>(ZmqError::UnsupportedOption(option)),
    {
        Err(ZmqError::UnsupportedOption(option))
    }

    /// The pattern has no options that could be read.
    pub fn get_pattern_option(&self, option: i32) -> (r: Result<Vec<u8>, ZmqError>)
        ensures
            r == Err::<Vec<u8>, ZmqError>(ZmqError::UnsupportedOption(option)),
    {
        Err(ZmqError::UnsupportedOption(option))
    }

    /// What arrives on a pipe is of no use to a pattern that only sends.
    pub fn handle_pipe_event(&self, _pipe_id: usize, _event: PipeEvent) -> (r: Result<(), ZmqError>)
        ensures
            r is Ok,
    {
        Ok(())
    }
}

// ---------------------------------------------------------------------------
// Laws
// ---------------------------------------------------------------------------
/// The worker chosen is the first in turn that the core knows: none in front of it is known,
/// and it goes behind all the others. Where none is known nobody is chosen.
pub proof fn first_known_worker_is_chosen(
    b: &mut LoadBalancer,
    core: &CoreState,
    r: Option<(String, ConnectionRef)>,
    k: int,
)
    requires
        call_ensures(choose_connection, (b, core), r),
    ensures
        0 <= k < old(b).turns().len() && core.endpoints@.dom().contains(old(b).turns()[k]@) && (
        forall|i: int|
            0 <= i < k ==> !core.endpoints@.dom().contains((#[trigger] old(b).turns()[i])@)) ==> {
            &&& r == Some((old(b).turns()[k], core.endpoints@[old(b).turns()[k]@].connection))
            &&& final(b).turns() == old(b).turns().skip(k + 1).push(old(b).turns()[k])
        },
        (forall|i: int|
            0 <= i < old(b).turns().len() ==> !core.endpoints@.dom().contains(
                (#[trigger] old(b).turns()[i])@,
            )) ==> r is None && final(b).turns().len() == 0,
{
    let turns = old(b).turns();
    if 0 <= k < turns.len() && core.endpoints@.dom().contains(turns[k]@) && (forall|i: int|
        0 <= i < k ==> !core.endpoints@.dom().contains((#[trigger] turns[i])@)) {
        lemma_first_live(turns, *core, k);
    }
    if forall|i: int|
        0 <= i < turns.len() ==> !core.endpoints@.dom().contains((#[trigger] turns[i])@) {
        lemma_first_live(turns, *core, turns.len() as int);
    }
}

/// A frame goes to the worker whose turn it is, as it is.
pub proof fn frame_goes_to_the_worker_in_turn(
    s: &mut PushSocket,
    core: &CoreState,
    terminated: bool,
    msg: Msg,
    r: PushStep<Msg>,
    t: &mut PushSocket,
    waited: PushStep<Msg>,
)
    requires
        call_ensures(PushSocket::send, (s, core, true, terminated, msg), r),
        call_ensures(PushSocket::send_waited, (t, core, terminated, msg), waited),
        old(s).load_balancer.turns().len() > 0,
        core.endpoints@.dom().contains(old(s).load_balancer.turns()[0]@),
        old(t).load_balancer.turns() == old(s).load_balancer.turns(),
    ensures
        r == (PushStep::Send {
            uri: old(s).load_balancer.turns()[0],
            connection: core.endpoints@[old(s).load_balancer.turns()[0]@].connection,
            payload: msg,
        }),
        final(s).load_balancer.turns() == old(s).load_balancer.turns().skip(1).push(
            old(s).load_balancer.turns()[0],
        ),
        waited == r,
        final(t).load_balancer.turns() == final(s).load_balancer.turns(),
{
}

/// Without a worker a send waits as long as the option says: for ever without one, not at all
/// where it is zero. It is never acknowledged, and what is to be sent is kept.
pub proof fn send_waits_for_a_worker(
    s: &mut PushSocket,
    core: &CoreState,
    terminated: bool,
    msg: Msg,
    r: PushStep<Msg>,
)
    requires
        call_ensures(PushSocket::send, (s, core, true, terminated, msg), r),
        forall|i: int|
            0 <= i < old(s).load_balancer.turns().len() ==> !core.endpoints@.dom().contains(
                (#[trigger] old(s).load_balancer.turns()[i])@,
            ),
    ensures
        r != PushStep::<Msg>::Done(Ok(())),
        !terminated && (core.options.sndtimeo is None || core.options.sndtimeo->0.spec_nanos() > 0)
            ==> r == (PushStep::Wait { payload: msg, timeout: core.options.sndtimeo }),
        !terminated && core.options.sndtimeo is Some && core.options.sndtimeo->0.spec_nanos() == 0
            ==> r == PushStep::<Msg>::Done(Err(ZmqError::ResourceLimitReached)),
        terminated ==> (r matches PushStep::Done(Err(e)) && e is InvalidState),
{
    lemma_first_live(old(s).load_balancer.turns(), *core, old(s).load_balancer.turns().len() as int);
}

/// The same of a whole message, after a wait too.
pub proof fn message_waits_for_a_worker(
    s: &mut PushSocket,
    t: &mut PushSocket,
    core: &CoreState,
    running: bool,
    frames: Vec<Msg>,
    r: PushStep<Vec<Msg>>,
    waited: PushStep<Vec<Msg>>,
)
    requires
        call_ensures(PushSocket::send_multipart, (s, core, true, frames), r),
        call_ensures(PushSocket::send_multipart_waited, (t, core, running, frames), waited),
        frames@.len() > 0,
        forall|i: int|
            0 <= i < old(s).load_balancer.turns().len() ==> !core.endpoints@.dom().contains(
                (#[trigger] old(s).load_balancer.turns()[i])@,
            ),
        old(t).load_balancer.turns() == old(s).load_balancer.turns(),
    ensures
        r != PushStep::<Vec<Msg>>::Done(Ok(())),
        waited != PushStep::<Vec<Msg>>::Done(Ok(())),
        core.options.sndtimeo is None || core.options.sndtimeo->0.spec_nanos() > 0 ==> (
        r matches PushStep::Wait { payload, timeout } && timeout == core.options.sndtimeo
            && payload@.len() == frames@.len()) && (running ==> waited == (PushStep::Wait {
            payload: frames,
            timeout: core.options.sndtimeo,
        })),
        core.options.sndtimeo is Some && core.options.sndtimeo->0.spec_nanos() == 0 ==> r
            == PushStep::<Vec<Msg>>::Done(Err(ZmqError::ResourceLimitReached)),
        !running ==> (waited matches PushStep::Done(Err(e)) && e is InvalidState),
{
    lemma_first_live(old(s).load_balancer.turns(), *core, old(s).load_balancer.turns().len() as int);
    assert forall|p: Vec<Msg>|
        #![trigger message::frames_of(p@)]
        message::frames_of(p@) == message::marked(message::frames_of(frames@)) implies p@.len()
        == frames@.len() by {
        assert(message::frames_of(p@).len() == message::marked(
            message::frames_of(frames@),
        ).len());
    }
}

/// A message goes whole to the worker in turn: every frame as given, with MORE on all but the
/// last.
pub proof fn message_goes_whole_to_one_worker(
    s: &mut PushSocket,
    core: &CoreState,
    frames: Vec<Msg>,
    r: PushStep<Vec<Msg>>,
    k: int,
)
    requires
        call_ensures(PushSocket::send_multipart, (s, core, true, frames), r),
        old(s).load_balancer.turns().len() > 0,
        core.endpoints@.dom().contains(old(s).load_balancer.turns()[0]@),
        0 <= k < frames@.len(),
    ensures
        r matches PushStep::Send { uri, connection, payload } && {
            &&& uri == old(s).load_balancer.turns()[0]
            &&& connection == core.endpoints@[uri@].connection
            &&& payload@.len() == frames@.len()
            &&& payload@[k]@.data == frames@[k]@.data
            &&& payload@[k]@.more == (k < frames@.len() - 1)
        },
        final(s).load_balancer.turns() == old(s).load_balancer.turns().skip(1).push(
            old(s).load_balancer.turns()[0],
        ),
{
    let w = message::marked(message::frames_of(frames@));
    let p = choose|p: Vec<Msg>|
        message::frames_of(p@) == w && #[trigger] push_step(
            old(s).load_balancer.turns(),
            *core,
            false,
            "Socket terminated while waiting for peer"@,
            p,
            r,
        );
    assert(message::frames_of(p@).len() == w.len());
    assert(message::frames_of(p@)[k] == w[k]);
}

/// A socket that is being closed sends nothing, and a message without frames goes nowhere.
pub proof fn closing_push_sends_nothing(
    s: &mut PushSocket,
    t: &mut PushSocket,
    core: &CoreState,
    running: bool,
    terminated: bool,
    msg: Msg,
    frames: Vec<Msg>,
    r: PushStep<Msg>,
    q: PushStep<Vec<Msg>>,
)
    requires
        call_ensures(PushSocket::send, (s, core, running, terminated, msg), r),
        call_ensures(PushSocket::send_multipart, (t, core, running, frames), q),
    ensures
        !running ==> r == PushStep::<Msg>::Done(Err(ZmqError::ResourceLimitReached)) && *final(s)
            == *old(s),
        !running ==> q == PushStep::<Vec<Msg>>::Done(Err(ZmqError::ResourceLimitReached)) && *final(t) == *old(t),
        running && frames@.len() == 0 ==> q == PushStep::<Vec<Msg>>::Done(Ok(())) && *final(t)
            == *old(t),
{
}

/// A send that failed is reported. The worker stays only where it was merely slow; where its
/// connection is closed it is taken out.
pub proof fn failed_workers_are_taken_out(
    s: &mut PushSocket,
    t: &mut PushSocket,
    uri: &str,
    result: Result<(), ZmqError>,
    r: Result<(), ZmqError>,
    q: Result<(), ZmqError>,
)
    requires
        old(s).wf(),
        old(t).wf(),
        call_ensures(PushSocket::sent, (s, uri, result), r),
        call_ensures(PushSocket::sent_multipart, (t, uri, result), q),
    ensures
        r is Ok <==> result is Ok,
        q is Ok <==> result is Ok,
        result is Ok || result == Err::<(), ZmqError>(ZmqError::Timeout) || result == Err::<
            (),
            ZmqError,
        >(ZmqError::ResourceLimitReached) ==> final(s).load_balancer.turns() == old(s).load_balancer.turns() && final(t).load_balancer.turns()
            == old(t).load_balancer.turns(),
        result == Err::<(), ZmqError>(ZmqError::ConnectionClosed) ==> (r matches Err(e)
            && e is HostUnreachable) && (q matches Err(e) && e is HostUnreachable)
            && !load_balancer::has_text(final(s).load_balancer.turns(), uri@)
            && !load_balancer::has_text(final(t).load_balancer.turns(), uri@),
        result matches Err(e) ==> (!(e is ConnectionClosed) ==> r == result && q == result),
        result matches Err(e) ==> (!(e is Timeout) && !(e is ResourceLimitReached)
            ==> !load_balancer::has_text(final(s).load_balancer.turns(), uri@)),
        result matches Err(e) ==> (!(e is ConnectionClosed) ==> final(t).load_balancer.turns()
            == old(t).load_balancer.turns()),
{
    let a = old(s).load_balancer.turns();
    let b = old(t).load_balancer.turns();
    if load_balancer::has_text(a, uri@) {
        let i = choose|i: int| 0 <= i < a.len() && (#[trigger] a[i])@ == uri@;
        load_balancer::lemma_remove_distinct(a, i);
    }
    if load_balancer::has_text(b, uri@) {
        let i = choose|i: int| 0 <= i < b.len() && (#[trigger] b[i])@ == uri@;
        load_balancer::lemma_remove_distinct(b, i);
    }
}

/// A worker that comes has its turn behind the others, one that goes has none, and a new socket
/// has no workers.
pub proof fn workers_come_and_go(
    s: &mut PushSocket,
    t: &mut PushSocket,
    core: &CoreState,
    pipe: usize,
    fresh: PushSocket,
)
    requires
        old(t).wf(),
        call_ensures(PushSocket::pipe_attached, (s, core, pipe), ()),
        call_ensures(PushSocket::pipe_detached, (t, pipe), ()),
        call_ensures(PushSocket::new, (), fresh),
    ensures
        core.pipe_read_id_to_endpoint_uri@.dom().contains(pipe) ==> load_balancer::has_text(
            final(s).load_balancer.turns(),
            core.pipe_read_id_to_endpoint_uri@[pipe]@,
        ) && final(s).pipe_read_to_endpoint_uri@[pipe] == core.pipe_read_id_to_endpoint_uri@[pipe],
        forall|i: int|
            0 <= i < old(s).load_balancer.turns().len() ==> #[trigger] final(s).load_balancer.turns()[i] == old(s).load_balancer.turns()[i],
        old(t).pipe_read_to_endpoint_uri@.dom().contains(pipe) ==> !load_balancer::has_text(
            final(t).load_balancer.turns(),
            old(t).pipe_read_to_endpoint_uri@[pipe]@,
        ),
        !old(t).pipe_read_to_endpoint_uri@.dom().contains(pipe) ==> final(t).load_balancer.turns()
            == old(t).load_balancer.turns(),
        !final(t).pipe_read_to_endpoint_uri@.dom().contains(pipe),
        fresh.load_balancer.turns().len() == 0,
{
    let a = old(s).load_balancer.turns();
    if core.pipe_read_id_to_endpoint_uri@.dom().contains(pipe) {
        let uri = core.pipe_read_id_to_endpoint_uri@[pipe];
        if !load_balancer::has_text(a, uri@) {
            assert(final(s).load_balancer.turns()[a.len() as int]@ == uri@);
        }
    }
    let b = old(t).load_balancer.turns();
    if old(t).pipe_read_to_endpoint_uri@.dom().contains(pipe) {
        let u = old(t).pipe_read_to_endpoint_uri@[pipe]@;
        if load_balancer::has_text(b, u) {
            let i = choose|i: int| 0 <= i < b.len() && (#[trigger] b[i])@ == u;
            load_balancer::lemma_remove_distinct(b, i);
        }
    }
}

/// A PUSH receives nothing.
pub proof fn push_receives_nothing(
    s: &PushSocket,
    a: Result<Msg, ZmqError>,
    b: Result<Vec<Msg>, ZmqError>,
)
    requires
        call_ensures(PushSocket::recv, (s,), a),
        call_ensures(PushSocket::recv_multipart, (s,), b),
    ensures
        a is Err && a->Err_0 is UnsupportedFeature,
        b is Err && b->Err_0 is UnsupportedFeature,
{
}

/// The pattern has no options of its own, to be set or read.
pub proof fn push_has_no_options(
    s: &PushSocket,
    option: i32,
    value: &Vec<u8>,
    a: Result<(), ZmqError>,
    b: Result<Vec<u8>, ZmqError>,
    pipe: usize,
    event: PipeEvent,
    c: Result<(), ZmqError>,
)
    requires
        call_ensures(PushSocket::set_pattern_option, (s, option, value), a),
        call_ensures(PushSocket::get_pattern_option, (s, option), b),
        call_ensures(PushSocket::handle_pipe_event, (s, pipe, event), c),
    ensures
        a is Err && a->Err_0 is UnsupportedOption,
        b is Err && b->Err_0 is UnsupportedOption,
        c is Ok,
{
}

/// Sending, and noting how it went, leaves the pipes of the workers as they are.
pub proof fn sending_keeps_the_pipes_of_the_workers(
    a: &mut PushSocket,
    b: &mut PushSocket,
    c: &mut PushSocket,
    core: &CoreState,
    running: bool,
    terminated: bool,
    msg: Msg,
    uri: &str,
    result: Result<(), ZmqError>,
    sent: PushStep<Msg>,
    waited: PushStep<Msg>,
    noted: Result<(), ZmqError>,
)
    requires
        call_ensures(PushSocket::send, (a, core, running, terminated, msg), sent),
        call_ensures(PushSocket::send_waited, (b, core, terminated, msg), waited),
        call_ensures(PushSocket::sent, (c, uri, result), noted),
    ensures
        final(a).pipe_read_to_endpoint_uri == old(a).pipe_read_to_endpoint_uri,
        final(b).pipe_read_to_endpoint_uri == old(b).pipe_read_to_endpoint_uri,
        final(c).pipe_read_to_endpoint_uri == old(c).pipe_read_to_endpoint_uri,
{
}

/// The same of whole messages. One that waited goes as it is to the worker in turn, who then
/// stands behind the others.
pub proof fn waited_message_goes_to_the_worker_in_turn(
    a: &mut PushSocket,
    b: &mut PushSocket,
    c: &mut PushSocket,
    core: &CoreState,
    running: bool,
    frames: Vec<Msg>,
    uri: &str,
    result: Result<(), ZmqError>,
    sent: PushStep<Vec<Msg>>,
    waited: PushStep<Vec<Msg>>,
    noted: Result<(), ZmqError>,
)
    requires
        call_ensures(PushSocket::send_multipart, (a, core, running, frames), sent),
        call_ensures(PushSocket::send_multipart_waited, (b, core, running, frames), waited),
        call_ensures(PushSocket::sent_multipart, (c, uri, result), noted),
        old(b).load_balancer.turns().len() > 0,
        core.endpoints@.dom().contains(old(b).load_balancer.turns()[0]@),
    ensures
        final(a).pipe_read_to_endpoint_uri == old(a).pipe_read_to_endpoint_uri,
        final(b).pipe_read_to_endpoint_uri == old(b).pipe_read_to_endpoint_uri,
        final(c).pipe_read_to_endpoint_uri == old(c).pipe_read_to_endpoint_uri,
        waited == (PushStep::Send {
            uri: old(b).load_balancer.turns()[0],
            connection: core.endpoints@[old(b).load_balancer.turns()[0]@].connection,
            payload: frames,
        }),
        final(b).load_balancer.turns() == old(b).load_balancer.turns().skip(1).push(
            old(b).load_balancer.turns()[0],
        ),
{
}

/// The errors say what was asked for in vain: the option, receiving on a PUSH, or a worker
/// whose connection closed.
pub proof fn push_errors_name_their_cause(
    s: &PushSocket,
    t: &mut PushSocket,
    u: &mut PushSocket,
    option: i32,
    value: &Vec<u8>,
    uri: &str,
    set: Result<(), ZmqError>,
    got: Result<Vec<u8>, ZmqError>,
    frame: Result<Msg, ZmqError>,
    message: Result<Vec<Msg>, ZmqError>,
    frame_lost: Result<(), ZmqError>,
    message_lost: Result<(), ZmqError>,
)
    requires
        call_ensures(PushSocket::set_pattern_option, (s, option, value), set),
        call_ensures(PushSocket::get_pattern_option, (s, option), got),
        call_ensures(PushSocket::recv, (s,), frame),
        call_ensures(PushSocket::recv_multipart, (s,), message),
        call_ensures(
            PushSocket::sent,
            (t, uri, Err::<(), ZmqError>(ZmqError::ConnectionClosed)),
            frame_lost,
        ),
        call_ensures(
            PushSocket::sent_multipart,
            (u, uri, Err::<(), ZmqError>(ZmqError::ConnectionClosed)),
            message_lost,
        ),
    ensures
        set == Err::<(), ZmqError>(ZmqError::UnsupportedOption(option)),
        got == Err::<Vec<u8>, ZmqError>(ZmqError::UnsupportedOption(option)),
        frame matches Err(ZmqError::UnsupportedFeature(m)) && m@
            == "PUSH sockets cannot receive messages"@,
        message matches Err(ZmqError::UnsupportedFeature(m)) && m@
            == "PUSH sockets cannot receive messages"@,
        frame_lost matches Err(ZmqError::HostUnreachable(m)) && m@
            == "Peer connection closed during send"@,
        message_lost matches Err(ZmqError::HostUnreachable(m)) && m@
            == "PUSH: Peer connection closed during multipart send"@,
{
}

} // verus!
