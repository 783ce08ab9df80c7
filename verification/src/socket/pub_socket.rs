use vstd::prelude::*;

use crate::error::ZmqError;
use crate::id_map::IdMap;
use crate::message;
use crate::message::{mark_frames, Msg};
use crate::socket::patterns::distributor::{Distribution, Distributor};
use crate::socket::patterns::incoming_orchestrator;
use crate::socket::patterns::incoming_orchestrator::socket_is_closing;
use crate::socket::patterns::item::PipeEvent;
use crate::socket::socket_core::state::CoreState;

verus! {

/// The reason given for a peer without a connection, when a frame is sent.
pub fn stale_peer() -> (s: &'static str)
    ensures
        s@ == "Distributor found stale URI"@,
{
    "Distributor found stale URI"
}

/// The reason given for a peer without a connection, when a message is sent.
pub fn stale_peer_multipart() -> (s: &'static str)
    ensures
        s@ == "Distributor found stale URI for multipart send"@,
{
    "Distributor found stale URI for multipart send"
}

/// The peers of a list of failures.
pub open spec fn failed_peers(failed: Seq<(String, ZmqError)>) -> Set<Seq<char>> {
    Set::new(|t: Seq<char>| exists|i: int| 0 <= i < failed.len() && (#[trigger] failed[i]).0@ == t)
}

/// Takes the peers that could not be reached out of a distributor.
pub fn drop_failed(distributor: &mut Distributor, failed: &Vec<(String, ZmqError)>)
    requires
        old(distributor).wf(),
    ensures
        final(distributor).wf(),
        final(distributor).peers() == old(distributor).peers().difference(failed_peers(failed@)),
{
    let mut i: usize = 0;
    assert(distributor.peers() =~= distributor.peers().difference(failed_peers(failed@.take(0))));
    while i < failed.len()
        invariant
            i <= failed@.len(),
            distributor.wf(),
            distributor.peers() == old(distributor).peers().difference(
                failed_peers(failed@.take(i as int)),
            ),
        decreases failed@.len() - i,
    {
        distributor.remove_peer_uri(failed[i].0.as_str());
        proof {
            let a = failed@.take(i as int);
            let b = failed@.take(i + 1);
            let u = failed@[i as int].0@;
            assert forall|t: Seq<char>| failed_peers(b).contains(t) <==> (failed_peers(a).contains(t)
                || t == u) by {
                if failed_peers(a).contains(t) {
                    let j = choose|j: int| 0 <= j < a.len() && (#[trigger] a[j]).0@ == t;
                    assert(b[j].0@ == t);
                }
                if t == u {
                    assert(b[i as int].0@ == t);
                }
                if failed_peers(b).contains(t) && t != u {
                    let j = choose|j: int| 0 <= j < b.len() && (#[trigger] b[j]).0@ == t;
                    assert(a[j].0@ == t);
                }
            }
            assert(distributor.peers() =~= old(distributor).peers().difference(failed_peers(b)));
        }
        i += 1;
    }
    assert(failed@.take(i as int) =~= failed@);
}

/// Distributes messages to every subscriber.
#[derive(Debug)]
pub struct PubSocket {
    pub distributor: Distributor,
    pub pipe_read_to_endpoint_uri: IdMap<String>,
}

impl PubSocket {
    pub open spec fn wf(self) -> bool {
        self.distributor.wf()
    }

    /// Nobody has come yet.
    pub open spec fn is_new(self) -> bool {
        &&& self.distributor.peers() == Set::<Seq<char>>::empty()
        &&& self.pipe_read_to_endpoint_uri@ == Map::<usize, String>::empty()
    }

    pub fn new() -> (s: PubSocket)
        ensures
            s.wf(),
            s.is_new(),
    {
        PubSocket { distributor: Distributor::new(), pipe_read_to_endpoint_uri: IdMap::new() }
    }

    /// Starts to send a frame to every subscriber; `sent` ends it.
    pub fn send(&self, running: bool) -> (r: Result<Distribution, ZmqError>)
        ensures
            match r {
                Ok(d) => running && d.wf() && d.targets() == self.distributor.uris() && d.position()
                    == 0 && d.failures().len() == 0,
                Err(e) => !running && incoming_orchestrator::is_closing_error(e),
            },
    {
        if !running {
            return Err(socket_is_closing());
        }
        Ok(self.distributor.send_to_all())
    }

    /// Starts to send a message to every subscriber; `sent` ends it. The frames are marked
    /// as one message. A message without frames goes nowhere.
    pub fn send_multipart(&self, running: bool, frames: Vec<Msg>) -> (r: Result<
        Option<(Vec<Msg>, Distribution)>,
        ZmqError,
    >)
        ensures
            match r {
                Ok(Some((v, d))) => {
                    &&& running
                    &&& frames@.len() > 0
                    &&& message::frames_of(v@) == message::marked(message::frames_of(frames@))
                    &&& d.wf()
                    &&& d.targets() == self.distributor.uris()
                    &&& d.position() == 0
                    &&& d.failures().len() == 0
                },
                Ok(None) => running && frames@.len() == 0,
                Err(e) => !running && incoming_orchestrator::is_closing_error(e),
            },
    {
        if !running {
            return Err(socket_is_closing());
        }
        let n: usize = frames.len();
        if n == 0 {
            return Ok(None);
        }
        let d = self.distributor.send_to_all_multipart(n);
        Ok(Some((mark_frames(frames), d)))
    }

    /// Ends a distribution: the subscribers that could not be reached are taken out. The
    /// sender is not told.
    pub fn sent(&mut self, outcome: Result<(), Vec<(String, ZmqError)>>) -> (r: Result<(), ZmqError>)
        requires
            old(self).wf(),
        ensures
            final(self).wf(),
            r is Ok,
            final(self).pipe_read_to_endpoint_uri == old(self).pipe_read_to_endpoint_uri,
            match outcome {
                Ok(()) => *final(self) == *old(self),
                Err(failed) => final(self).distributor.peers() == old(self).distributor.peers().difference(failed_peers(failed@)),
            },
    {
        if let Err(failed) = outcome {
            drop_failed(&mut self.distributor, &failed);
        }
        Ok(())
    }

    pub fn recv(&self) -> (r: Result<Msg, ZmqError>)
        ensures
            r matches Err(ZmqError::InvalidState(m)) && m@ == "PUB sockets cannot receive messages"@,
    {
        Err(ZmqError::InvalidState("PUB sockets cannot receive messages".to_owned()))
    }

    pub fn recv_multipart(&self) -> (r: Result<Vec<Msg>, ZmqError>)
        ensures
            r matches Err(ZmqError::UnsupportedFeature(m)) && m@
                == "PUB sockets cannot receive messages"@,
    {
        Err(ZmqError::UnsupportedFeature("PUB sockets cannot receive messages".to_owned()))
    }

    /// A subscriber has come.
    pub fn pipe_attached(&mut self, core: &CoreState, pipe_read_id: usize)
        requires
            old(self).wf(),
        ensures
            final(self).wf(),
            if core.pipe_read_id_to_endpoint_uri@.dom().contains(pipe_read_id) {
                let uri = core.pipe_read_id_to_endpoint_uri@[pipe_read_id];
                &&& final(self).pipe_read_to_endpoint_uri@ == old(self).pipe_read_to_endpoint_uri@.insert(pipe_read_id, uri)
                &&& final(self).distributor.peers() == old(self).distributor.peers().insert(uri@)
            } else {
                *final(self) == *old(self)
            },
    {
        if let Some(uri) = core.uri_of_pipe(pipe_read_id) {
            let _ = self.pipe_read_to_endpoint_uri.insert(pipe_read_id, uri.clone());
            self.distributor.add_peer_uri(uri);
        }
    }

    /// A subscriber has gone.
    pub fn pipe_detached(&mut self, pipe_read_id: usize)
        requires
            old(self).wf(),
        ensures
            final(self).wf(),
            final(self).pipe_read_to_endpoint_uri@ == old(self).pipe_read_to_endpoint_uri@.remove(
                pipe_read_id,
            ),
            final(self).distributor.peers() == if old(self).pipe_read_to_endpoint_uri@.dom().contains(pipe_read_id) {
                old(self).distributor.peers().remove(
                    old(self).pipe_read_to_endpoint_uri@[pipe_read_id]@,
                )
            } else {
                old(self).distributor.peers()
            },
    {
        if let Some(uri) = self.pipe_read_to_endpoint_uri.remove(pipe_read_id) {
            self.distributor.remove_peer_uri(uri.as_str());
        }
    }
}

impl PubSocket {
    /// The pattern has no options of its own.
    pub fn set_pattern_option(&self, option: i32, _value: &Vec<u8>) -> (r: Result<(), ZmqError>)
        ensures
            r == Err::<(), ZmqError>(ZmqError::UnsupportedOption(option)),
    {
        Err(ZmqError::UnsupportedOption(option))
    }

    /// The pattern has no options that could be read.
    pub fn get_pattern_option(&self, option: i32) -> (r: Result<Vec<u8>, ZmqError>)
        ensures
            r == Err::<Vec<u8>, ZmqError>(ZmqError::UnsupportedOption(option)),
    {
        Err(ZmqError::UnsupportedOption(option))
    }

    /// What arrives on a pipe is of no use to a pattern that only sends.
    pub fn handle_pipe_event(&self, _pipe_id: usize, _event: PipeEvent) -> (r: Result<(), ZmqError>)
        ensures
            r is Ok,
    {
        Ok(())
    }
}

// ---------------------------------------------------------------------------
// Laws
// ---------------------------------------------------------------------------
/// Every subscriber is sent each message of a socket that runs, and a socket that is being
/// closed sends none.
pub proof fn subscribers_are_all_sent_to(
    s: &PubSocket,
    running: bool,
    one: Result<Distribution, ZmqError>,
    frames: Vec<Msg>,
    whole: Result<Option<(Vec<Msg>, Distribution)>, ZmqError>,
)
    requires
        call_ensures(PubSocket::send, (s, running), one),
        call_ensures(PubSocket::send_multipart, (s, running, frames), whole),
    ensures
        one is Ok <==> running,
        one matches Ok(d) ==> d.targets() == s.distributor.uris() && d.position() == 0
            && d.failures().len() == 0,
        whole is Ok <==> running,
        running && frames@.len() > 0 ==> (whole matches Ok(Some((v, d))) && d.targets()
            == s.distributor.uris() && d.position() == 0 && v@.len() == frames@.len()),
        running && frames@.len() == 0 ==> (whole matches Ok(None)),
        !running ==> one->Err_0 is InvalidState && whole->Err_0 is InvalidState,
{
    if running && frames@.len() > 0 {
        let v = (whole->Ok_0->0).0;
        assert(message::frames_of(v@).len() == message::marked(message::frames_of(frames@)).len());
    }
}

/// What goes out is what was given, with MORE on every frame but the last.
pub proof fn messages_are_sent_whole(
    s: &PubSocket,
    frames: Vec<Msg>,
    r: Result<Option<(Vec<Msg>, Distribution)>, ZmqError>,
    i: int,
)
    requires
        call_ensures(PubSocket::send_multipart, (s, true, frames), r),
        0 <= i < frames@.len(),
    ensures
        r matches Ok(Some((v, _))) && v@[i]@.data == frames@[i]@.data && v@[i]@.more == (i
            < frames@.len() - 1),
{
    let v = (r->Ok_0->0).0;
    assert(message::frames_of(v@).len() == message::marked(message::frames_of(frames@)).len());
    assert(message::frames_of(v@)[i] == message::marked(message::frames_of(frames@))[i]);
}

/// A publisher is not told of subscribers that could not be reached; these, and no others, are
/// forgotten.
pub proof fn lost_subscribers_are_forgotten(
    s: &mut PubSocket,
    outcome: Result<(), Vec<(String, ZmqError)>>,
    r: Result<(), ZmqError>,
    peer: Seq<char>,
)
    requires
        call_ensures(PubSocket::sent, (s, outcome), r),
    ensures
        r is Ok,
        outcome is Ok ==> *final(s) == *old(s),
        outcome matches Err(failed) ==> (final(s).distributor.peers().contains(peer) <==> old(s).distributor.peers().contains(peer) && (forall|i: int|
            0 <= i < failed@.len() ==> (#[trigger] failed@[i]).0@ != peer)),
{
}

/// A subscriber that comes is sent to, one that goes is not, and nobody else is touched.
pub proof fn subscribers_come_and_go(
    coming: &mut PubSocket,
    going: &mut PubSocket,
    core: &CoreState,
    pipe: usize,
    other: Seq<char>,
)
    requires
        call_ensures(PubSocket::pipe_attached, (coming, core, pipe), ()),
        call_ensures(PubSocket::pipe_detached, (going, pipe), ()),
    ensures
        core.pipe_read_id_to_endpoint_uri@.dom().contains(pipe) ==> final(coming).distributor.peers().contains(core.pipe_read_id_to_endpoint_uri@[pipe]@) && final(coming).pipe_read_to_endpoint_uri@[pipe] == core.pipe_read_id_to_endpoint_uri@[pipe],
        old(coming).distributor.peers().contains(other) ==> final(coming).distributor.peers().contains(other),
        old(going).pipe_read_to_endpoint_uri@.dom().contains(pipe) ==> !final(going).distributor.peers().contains(old(going).pipe_read_to_endpoint_uri@[pipe]@),
        old(going).distributor.peers().contains(other) && !(old(going).pipe_read_to_endpoint_uri@.dom().contains(pipe) && old(going).pipe_read_to_endpoint_uri@[pipe]@ == other) ==> final(going).distributor.peers().contains(other),
        !final(going).pipe_read_to_endpoint_uri@.dom().contains(pipe),
{
}

/// A publisher receives nothing.
pub proof fn publisher_receives_nothing(
    s: &PubSocket,
    a: Result<Msg, ZmqError>,
    b: Result<Vec<Msg>, ZmqError>,
    fresh: PubSocket,
)
    requires
        call_ensures(PubSocket::recv, (s,), a),
        call_ensures(PubSocket::recv_multipart, (s,), b),
        call_ensures(PubSocket::new, (), fresh),
    ensures
        a is Err && b is Err,
        forall|t: Seq<char>| !fresh.distributor.peers().contains(t),
{
}

/// The peers that failed, and no others, are taken out.
pub proof fn failed_peers_are_taken_out(
    d: &mut Distributor,
    failed: &Vec<(String, ZmqError)>,
    peer: Seq<char>,
)
    requires
        call_ensures(drop_failed, (d, failed), ()),
    ensures
        final(d).peers().contains(peer) <==> old(d).peers().contains(peer) && (forall|i: int|
            0 <= i < failed@.len() ==> (#[trigger] failed@[i]).0@ != peer),
{
}

/// The pattern has no options of its own, to be set or read.
pub proof fn publisher_has_no_options(
    s: &PubSocket,
    option: i32,
    value: &Vec<u8>,
    a: Result<(), ZmqError>,
    b: Result<Vec<u8>, ZmqError>,
    pipe: usize,
    event: PipeEvent,
    c: Result<(), ZmqError>,
)
    requires
        call_ensures(PubSocket::set_pattern_option, (s, option, value), a),
        call_ensures(PubSocket::get_pattern_option, (s, option), b),
        call_ensures(PubSocket::handle_pipe_event, (s, pipe, event), c),
    ensures
        a is Err && a->Err_0 is UnsupportedOption,
        b is Err && b->Err_0 is UnsupportedOption,
        c is Ok,
{
}

/// The errors say what was asked for in vain, and the end of a distribution leaves the pipes of
/// the subscribers as they are.
pub proof fn publisher_errors_name_their_cause(
    s: &PubSocket,
    t: &mut PubSocket,
    option: i32,
    value: &Vec<u8>,
    set: Result<(), ZmqError>,
    got: Result<Vec<u8>, ZmqError>,
    frame: Result<Msg, ZmqError>,
    message: Result<Vec<Msg>, ZmqError>,
    outcome: Result<(), Vec<(String, ZmqError)>>,
    ended: Result<(), ZmqError>,
)
    requires
        call_ensures(PubSocket::set_pattern_option, (s, option, value), set),
        call_ensures(PubSocket::get_pattern_option, (s, option), got),
        call_ensures(PubSocket::recv, (s,), frame),
        call_ensures(PubSocket::recv_multipart, (s,), message),
        call_ensures(PubSocket::sent, (t, outcome), ended),
    ensures
        set == Err::<(), ZmqError>(ZmqError::UnsupportedOption(option)),
        got == Err::<Vec<u8>, ZmqError>(ZmqError::UnsupportedOption(option)),
        frame matches Err(ZmqError::InvalidState(m)) && m@
            == "PUB sockets cannot receive messages"@,
        message matches Err(ZmqError::UnsupportedFeature(m)) && m@
            == "PUB sockets cannot receive messages"@,
        ended is Ok,
        final(t).pipe_read_to_endpoint_uri == old(t).pipe_read_to_endpoint_uri,
        outcome is Ok ==> *final(t) == *old(t),
{
}

/// A subscriber that the core no longer knows is reported as such, of a frame and of a message.
pub proof fn stale_subscribers_are_reported_in_words(one: &'static str, whole: &'static str)
    requires
        call_ensures(stale_peer, (), one),
        call_ensures(stale_peer_multipart, (), whole),
    ensures
        one@ == "Distributor found stale URI"@,
        whole@ == "Distributor found stale URI for multipart send"@,
{
}

} // verus!
