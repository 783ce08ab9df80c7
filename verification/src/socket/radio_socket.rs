use vstd::prelude::*;

use crate::error::ZmqError;
use crate::id_map::IdMap;
use crate::message;
use crate::message::Msg;
use crate::socket::patterns::distributor::{Distribution, Distributor};
use crate::socket::patterns::incoming_orchestrator;
use crate::socket::patterns::incoming_orchestrator::socket_is_closing;
use crate::socket::patterns::item::PipeEvent;
use crate::socket::pub_socket;
use crate::socket::pub_socket::drop_failed;
use crate::socket::socket_core::state::CoreState;

verus! {

/// The most bytes that fit into one UDP datagram.
pub const UDP_MAX_DATAGRAM: usize = 65507;

/// The bytes of a frame for a group: the length of the group's name, the name, the payload.
pub open spec fn radio_bytes(group: Seq<u8>, payload: Seq<u8>) -> Seq<u8> {
    seq![group.len() as u8] + group + payload
}

/// Publishes messages to groups.
#[derive(Debug)]
pub struct RadioSocket {
    pub distributor: Distributor,
    pub pipe_read_to_endpoint_uri: IdMap<String>,
}

impl RadioSocket {
    pub open spec fn wf(self) -> bool {
        self.distributor.wf()
    }

    /// Nobody has come yet.
    pub open spec fn is_new(self) -> bool {
        &&& self.distributor.peers() == Set::<Seq<char>>::empty()
        &&& self.pipe_read_to_endpoint_uri@ == Map::<usize, String>::empty()
    }

    pub fn new() -> (s: RadioSocket)
        ensures
            s.wf(),
            s.is_new(),
    {
        RadioSocket { distributor: Distributor::new(), pipe_read_to_endpoint_uri: IdMap::new() }
    }

    /// The frame that goes over the wire.
    pub fn encode_radio_frame(group: &Vec<u8>, payload: &Vec<u8>) -> (m: Msg)
        requires
            group@.len() <= 255,
        ensures
            m@ == message::Frame::of(radio_bytes(group@, payload@)),
    {
        let mut frame: Vec<u8> = Vec::new();
        frame.push(group.len() as u8);
        let mut i: usize = 0;
        while i < group.len()
            invariant
                i <= group@.len(),
                frame@ == seq![group@.len() as u8] + group@.take(i as int),
            decreases group@.len() - i,
        {
            frame.push(group[i]);
            i += 1;
            assert(frame@ =~= seq![group@.len() as u8] + group@.take(i as int));
        }
        let mut j: usize = 0;
        assert(group@.take(i as int) =~= group@);
        while j < payload.len()
            invariant
                j <= payload@.len(),
                frame@ == seq![group@.len() as u8] + group@ + payload@.take(j as int),
            decreases payload@.len() - j,
        {
            frame.push(payload[j]);
            j += 1;
            assert(frame@ =~= seq![group@.len() as u8] + group@ + payload@.take(j as int));
        }
        assert(payload@.take(j as int) =~= payload@);
        Msg::from_vec(frame)
    }

    /// Starts to send a message to its group; `sent` ends it. The frame goes to every peer,
    /// and each keeps what it has joined.
    pub fn send(&self, running: bool, msg: Msg) -> (r: Result<(Msg, Distribution), ZmqError>)
        ensures
            if !running {
                r matches Err(e) && incoming_orchestrator::is_closing_error(e)
            } else {
                match msg@.group {
                    None => r matches Err(ZmqError::InvalidState(m)) && m@
                        == "Message has no group"@,
                    Some(group) => if group.len() == 0 || group.len() > 255 {
                        r matches Err(ZmqError::InvalidState(m)) && m@
                            == "Group length must be 1-255 bytes"@
                    } else if msg@.data.len() > UDP_MAX_DATAGRAM - 1 - group.len() {
                        r == Err::<(Msg, Distribution), ZmqError>(
                            ZmqError::MessageTooLarge(
                                msg@.data.len() as usize,
                                (UDP_MAX_DATAGRAM - 1 - group.len()) as usize,
                            ),
                        )
                    } else {
                        r matches Ok((wire, d)) && wire@ == message::Frame::of(
                            radio_bytes(group, msg@.data),
                        ) && d.wf() && d.targets() == self.distributor.uris() && d.position() == 0
                            && d.failures().len() == 0
                    },
                }
            },
    {
        if !running {
            return Err(socket_is_closing());
        }
        let group = match &msg.group {
            Some(g) => g,
            None => {
                return Err(ZmqError::InvalidState("Message has no group".to_owned()));
            },
        };
        if group.len() == 0 || group.len() > 255 {
            return Err(ZmqError::InvalidState("Group length must be 1-255 bytes".to_owned()));
        }
        let max_payload: usize = UDP_MAX_DATAGRAM - (1 + group.len());
        if msg.data.len() > max_payload {
            return Err(ZmqError::MessageTooLarge(msg.data.len(), max_payload));
        }
        let wire = Self::encode_radio_frame(group, &msg.data);
        Ok((wire, self.distributor.send_to_all()))
    }

    /// Ends a distribution: the peers that could not be reached are taken out, and the first
    /// failure is reported.
    pub fn sent(&mut self, outcome: Result<(), Vec<(String, ZmqError)>>) -> (r: Result<(), ZmqError>)
        requires
            old(self).wf(),
        ensures
            final(self).wf(),
            final(self).pipe_read_to_endpoint_uri == old(self).pipe_read_to_endpoint_uri,
            match outcome {
                Ok(()) => *final(self) == *old(self) && r is Ok,
                Err(failed) => {
                    &&& final(self).distributor.peers() == old(self).distributor.peers().difference(pub_socket::failed_peers(failed@))
                    &&& r == if failed@.len() > 0 {
                        Err::<(), ZmqError>(failed@[0].1)
                    } else {
                        Ok(())
                    }
                },
            },
    {
        match outcome {
            Ok(()) => Ok(()),
            Err(failed) => {
                drop_failed(&mut self.distributor, &failed);
                if failed.len() > 0 {
                    Err(failed[0].1.clone())
                } else {
                    Ok(())
                }
            },
        }
    }

    pub fn recv(&self) -> (r: Result<Msg, ZmqError>)
        ensures
            r matches Err(ZmqError::InvalidState(m)) && m@
                == "RADIO sockets cannot receive messages"@,
    {
        Err(ZmqError::InvalidState("RADIO sockets cannot receive messages".to_owned()))
    }

    pub fn send_multipart(&self, _frames: Vec<Msg>) -> (r: Result<(), ZmqError>)
        ensures
            r matches Err(ZmqError::InvalidState(m)) && m@
                == "RADIO sockets do not support multipart messages (RFC 48 thread-safety requirement)"@,
    {
        Err(
            ZmqError::InvalidState(
                "RADIO sockets do not support multipart messages (RFC 48 thread-safety requirement)".to_owned(),
            ),
        )
    }

    pub fn recv_multipart(&self) -> (r: Result<Vec<Msg>, ZmqError>)
        ensures
            r matches Err(ZmqError::UnsupportedFeature(m)) && m@
                == "RADIO sockets cannot receive messages"@,
    {
        Err(ZmqError::UnsupportedFeature("RADIO sockets cannot receive messages".to_owned()))
    }

    /// Takes what happens on a pipe: nothing of it matters to a RADIO, which sends to every
    /// peer whatever it has joined.
    pub fn handle_pipe_event(&self, _pipe_id: usize, _event: PipeEvent) -> (r: Result<(), ZmqError>)
        ensures
            r is Ok,
    {
        Ok(())
    }

    /// The endpoint of a new pipe: that of the read pipe, or of the write pipe where the
    /// connection has no read pipe, which a read pipe of 0 says.
    pub open spec fn endpoint_of(core: CoreState, read_id: usize, write_id: usize) -> Option<
        String,
    > {
        if read_id != 0 {
            if core.pipe_read_id_to_endpoint_uri@.dom().contains(read_id) {
                Some(core.pipe_read_id_to_endpoint_uri@[read_id])
            } else {
                None
            }
        } else if core.pipe_write_id_to_endpoint_uri@.dom().contains(write_id) {
            Some(core.pipe_write_id_to_endpoint_uri@[write_id])
        } else {
            None
        }
    }

    /// A peer has come.
    pub fn pipe_attached(&mut self, core: &CoreState, pipe_read_id: usize, pipe_write_id: usize)
        requires
            old(self).wf(),
        ensures
            final(self).wf(),
            match Self::endpoint_of(*core, pipe_read_id, pipe_write_id) {
                Some(uri) => {
                    &&& final(self).pipe_read_to_endpoint_uri@ == old(self).pipe_read_to_endpoint_uri@.insert(pipe_read_id, uri)
                    &&& final(self).distributor.peers() == old(self).distributor.peers().insert(
                        uri@,
                    )
                },
                None => *final(self) == *old(self),
            },
    {
        let found = if pipe_read_id != 0 {
            core.uri_of_pipe(pipe_read_id)
        } else {
            match core.pipe_write_id_to_endpoint_uri.get(pipe_write_id) {
                Some(u) => Some(u.clone()),
                None => None,
            }
        };
        if let Some(uri) = found {
            let _ = self.pipe_read_to_endpoint_uri.insert(pipe_read_id, uri.clone());
            self.distributor.add_peer_uri(uri);
        }
    }

    /// A peer has gone. A connection without a read pipe is detached under the read pipe 0,
    /// as it was attached.
    pub fn pipe_detached(&mut self, pipe_read_id: usize)
        requires
            old(self).wf(),
        ensures
            final(self).wf(),
            final(self).pipe_read_to_endpoint_uri@ == old(self).pipe_read_to_endpoint_uri@.remove(
                pipe_read_id,
            ),
            final(self).distributor.peers() == if old(self).pipe_read_to_endpoint_uri@.dom().contains(pipe_read_id) {
                old(self).distributor.peers().remove(
                    old(self).pipe_read_to_endpoint_uri@[pipe_read_id]@,
                )
            } else {
                old(self).distributor.peers()
            },
    {
        if let Some(uri) = self.pipe_read_to_endpoint_uri.remove(pipe_read_id) {
            self.distributor.remove_peer_uri(uri.as_str());
        }
    }
}

impl RadioSocket {
    /// The pattern has no options of its own.
    pub fn set_pattern_option(&self, option: i32, _value: &Vec<u8>) -> (r: Result<(), ZmqError>)
        ensures
            r == Err::<(), ZmqError>(ZmqError::UnsupportedOption(option)),
    {
        Err(ZmqError::UnsupportedOption(option))
    }

    /// The pattern has no options that could be read.
    pub fn get_pattern_option(&self, option: i32) -> (r: Result<Vec<u8>, ZmqError>)
        ensures
            r == Err::<Vec<u8>, ZmqError>(ZmqError::UnsupportedOption(option)),
    {
        Err(ZmqError::UnsupportedOption(option))
    }
}

// ---------------------------------------------------------------------------
// Laws
// ---------------------------------------------------------------------------
/// The frame of a message is the length of its group's name in one byte, the name, and the
/// payload.
pub proof fn frame_carries_group_and_payload(group: Seq<u8>, payload: Seq<u8>)
    requires
        group.len() <= 255,
    ensures
        radio_bytes(group, payload).len() == 1 + group.len() + payload.len(),
        radio_bytes(group, payload)[0] == group.len(),
        forall|i: int|
            0 <= i < group.len() ==> radio_bytes(group, payload)[i + 1] == #[trigger] group[i],
        forall|i: int|
            0 <= i < payload.len() ==> radio_bytes(group, payload)[i + 1 + group.len()]
                == #[trigger] payload[i],
{
}

/// A message with a group of 1 to 255 bytes goes, as one frame that fits into a datagram, to
/// every peer; any other message is refused, and so is every message of a closing socket.
pub proof fn messages_go_to_every_peer(
    radio: &RadioSocket,
    running: bool,
    msg: Msg,
    r: Result<(Msg, Distribution), ZmqError>,
)
    requires
        call_ensures(RadioSocket::send, (radio, running, msg), r),
    ensures
        r is Ok <==> running && (msg@.group matches Some(g) && 1 <= g.len() <= 255 && 1 + g.len()
            + msg@.data.len() <= 65507),
        r matches Ok((wire, d)) ==> {
            &&& wire@.data.len() == 1 + msg@.group->0.len() + msg@.data.len()
            &&& wire@.data == radio_bytes(msg@.group->0, msg@.data)
            &&& !wire@.more && !wire@.command && wire@.group is None
            &&& d.targets() == radio.distributor.uris()
            &&& d.position() == 0
        },
        running && msg@.group is None ==> (r matches Err(e) && e is InvalidState),
        running && (msg@.group matches Some(g) && 1 <= g.len() <= 255 && 1 + g.len()
            + msg@.data.len() > 65507) ==> (r matches Err(e) && e is MessageTooLarge),
{
}

/// A RADIO receives nothing and sends no message of several frames.
pub proof fn radio_only_sends_single_frames(
    radio: &RadioSocket,
    frames: Vec<Msg>,
    a: Result<Msg, ZmqError>,
    b: Result<Vec<Msg>, ZmqError>,
    c: Result<(), ZmqError>,
)
    requires
        call_ensures(RadioSocket::recv, (radio,), a),
        call_ensures(RadioSocket::recv_multipart, (radio,), b),
        call_ensures(RadioSocket::send_multipart, (radio, frames), c),
    ensures
        a is Err && b is Err,
        c matches Err(e) && e is InvalidState,
{
}

/// The peers that could not be reached are forgotten, and no others; the first failure is
/// reported.
pub proof fn unreachable_peers_are_forgotten(
    radio: &mut RadioSocket,
    outcome: Result<(), Vec<(String, ZmqError)>>,
    r: Result<(), ZmqError>,
    peer: Seq<char>,
)
    requires
        call_ensures(RadioSocket::sent, (radio, outcome), r),
    ensures
        outcome is Ok ==> r is Ok && *final(radio) == *old(radio),
        outcome matches Err(failed) ==> (final(radio).distributor.peers().contains(peer) <==> old(radio).distributor.peers().contains(peer) && !(exists|i: int|
            0 <= i < failed@.len() && (#[trigger] failed@[i]).0@ == peer)),
        outcome matches Err(failed) && failed@.len() > 0 ==> r == Err::<(), ZmqError>(
            outcome->Err_0@[0].1,
        ),
{
}

/// A peer that comes is sent to, whether it has a read pipe or, with the read pipe 0, only one
/// that is written to; a peer that goes is not, and nobody else is touched.
pub proof fn radio_peers_come_and_go(
    coming: &mut RadioSocket,
    going: &mut RadioSocket,
    core: &CoreState,
    read_id: usize,
    write_id: usize,
    other: Seq<char>,
)
    requires
        call_ensures(RadioSocket::pipe_attached, (coming, core, read_id, write_id), ()),
        call_ensures(RadioSocket::pipe_detached, (going, read_id), ()),
    ensures
        read_id != 0 && core.pipe_read_id_to_endpoint_uri@.dom().contains(read_id)
            ==> final(coming).distributor.peers() == old(coming).distributor.peers().insert(
            core.pipe_read_id_to_endpoint_uri@[read_id]@,
        ) && final(coming).pipe_read_to_endpoint_uri@[read_id]
            == core.pipe_read_id_to_endpoint_uri@[read_id],
        read_id == 0 && core.pipe_write_id_to_endpoint_uri@.dom().contains(write_id)
            ==> final(coming).distributor.peers() == old(coming).distributor.peers().insert(
            core.pipe_write_id_to_endpoint_uri@[write_id]@,
        ) && final(coming).pipe_read_to_endpoint_uri@[0]
            == core.pipe_write_id_to_endpoint_uri@[write_id],
        read_id != 0 && !core.pipe_read_id_to_endpoint_uri@.dom().contains(read_id)
            ==> *final(coming) == *old(coming),
        !final(going).pipe_read_to_endpoint_uri@.dom().contains(read_id),
        old(going).pipe_read_to_endpoint_uri@.dom().contains(read_id)
            ==> !final(going).distributor.peers().contains(
            old(going).pipe_read_to_endpoint_uri@[read_id]@,
        ),
        !old(going).pipe_read_to_endpoint_uri@.dom().contains(read_id)
            ==> final(going).distributor.peers() == old(going).distributor.peers(),
        final(going).distributor.peers().contains(other) ==> old(going).distributor.peers().contains(other),
{
}

/// A frame is encoded as its group and payload; a new RADIO sends to nobody.
pub proof fn encoded_frame_is_plain(group: &Vec<u8>, payload: &Vec<u8>, m: Msg, fresh: RadioSocket)
    requires
        group@.len() <= 255,
        call_ensures(RadioSocket::encode_radio_frame, (group, payload), m),
        call_ensures(RadioSocket::new, (), fresh),
    ensures
        m@.data.len() == 1 + group@.len() + payload@.len(),
        m@.data[0] == group@.len(),
        m@.data.subrange(1, 1 + group@.len() as int) == group@,
        m@.data.skip(1 + group@.len() as int) == payload@,
        !m@.more && !m@.command && m@.group is None,
        forall|t: Seq<char>| !fresh.distributor.peers().contains(t),
{
    assert(m@.data.subrange(1, 1 + group@.len() as int) =~= group@);
    assert(m@.data.skip(1 + group@.len() as int) =~= payload@);
}

/// The pattern has no options of its own, to be set or read.
pub proof fn radio_has_no_options(
    s: &RadioSocket,
    option: i32,
    value: &Vec<u8>,
    a: Result<(), ZmqError>,
    b: Result<Vec<u8>, ZmqError>,
    pipe: usize,
    event: PipeEvent,
    c: Result<(), ZmqError>,
)
    requires
        call_ensures(RadioSocket::set_pattern_option, (s, option, value), a),
        call_ensures(RadioSocket::get_pattern_option, (s, option), b),
        call_ensures(RadioSocket::handle_pipe_event, (s, pipe, event), c),
    ensures
        a is Err && a->Err_0 is UnsupportedOption,
        b is Err && b->Err_0 is UnsupportedOption,
        c is Ok,
{
}

/// The errors say what was asked for in vain: the option, receiving on a RADIO, a message of
/// several frames, one without a group, one whose group has no possible name, or one that is
/// too long, with its length and the longest that would do.
pub proof fn radio_errors_name_their_cause(
    s: &RadioSocket,
    option: i32,
    value: &Vec<u8>,
    msg: Msg,
    frames: Vec<Msg>,
    set: Result<(), ZmqError>,
    got: Result<Vec<u8>, ZmqError>,
    frame: Result<Msg, ZmqError>,
    message: Result<Vec<Msg>, ZmqError>,
    whole: Result<(), ZmqError>,
    sent: Result<(Msg, Distribution), ZmqError>,
)
    requires
        call_ensures(RadioSocket::set_pattern_option, (s, option, value), set),
        call_ensures(RadioSocket::get_pattern_option, (s, option), got),
        call_ensures(RadioSocket::recv, (s,), frame),
        call_ensures(RadioSocket::recv_multipart, (s,), message),
        call_ensures(RadioSocket::send_multipart, (s, frames), whole),
        call_ensures(RadioSocket::send, (s, true, msg), sent),
    ensures
        set == Err::<(), ZmqError>(ZmqError::UnsupportedOption(option)),
        got == Err::<Vec<u8>, ZmqError>(ZmqError::UnsupportedOption(option)),
        frame matches Err(ZmqError::InvalidState(m)) && m@
            == "RADIO sockets cannot receive messages"@,
        message matches Err(ZmqError::UnsupportedFeature(m)) && m@
            == "RADIO sockets cannot receive messages"@,
        whole matches Err(ZmqError::InvalidState(m)) && m@
            == "RADIO sockets do not support multipart messages (RFC 48 thread-safety requirement)"@,
        msg@.group is None ==> (sent matches Err(ZmqError::InvalidState(m)) && m@
            == "Message has no group"@),
        msg@.group matches Some(g) ==> (g.len() == 0 || g.len() > 255 ==> (sent matches Err(
            ZmqError::InvalidState(m),
        ) && m@ == "Group length must be 1-255 bytes"@)),
        msg@.group matches Some(g) ==> (0 < g.len() <= 255 && msg@.data.len() + g.len() + 1
            > UDP_MAX_DATAGRAM ==> sent == Err::<(Msg, Distribution), ZmqError>(
            ZmqError::MessageTooLarge(
                msg@.data.len() as usize,
                (UDP_MAX_DATAGRAM - 1 - g.len()) as usize,
            ),
        )),
        msg@.group matches Some(g) ==> (0 < g.len() <= 255 && msg@.data.len() + g.len() + 1
            <= UDP_MAX_DATAGRAM ==> sent is Ok),
{
}

/// The first failure of a distribution is the one that is reported, and the pipes of the peers
/// stay as they are.
pub proof fn first_failure_is_reported(
    t: &mut RadioSocket,
    outcome: Result<(), Vec<(String, ZmqError)>>,
    r: Result<(), ZmqError>,
)
    requires
        call_ensures(RadioSocket::sent, (t, outcome), r),
    ensures
        final(t).pipe_read_to_endpoint_uri == old(t).pipe_read_to_endpoint_uri,
        outcome is Ok ==> r is Ok && *final(t) == *old(t),
        outcome matches Err(failed) ==> (failed@.len() == 0 <==> r is Ok),
        outcome matches Err(failed) ==> (failed@.len() > 0 ==> r == Err::<(), ZmqError>(
            (failed@[0]).1,
        )),
{
}

} // verus!
