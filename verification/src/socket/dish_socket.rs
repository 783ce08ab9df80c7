use vstd::prelude::*;

use crate::error::ZmqError;
use crate::id_map::IdMap;
use crate::message;
use crate::message::{copy_bytes, same_bytes, Msg};
use crate::socket::options::{JOIN, LEAVE};
use crate::socket::patterns::incoming_orchestrator;
use crate::socket::patterns::incoming_orchestrator::{
    socket_is_closing, IncomingMessageOrchestrator, RecvStep,
};
use crate::socket::patterns::item::{Origin, PipeEvent, QueueItem};
use crate::socket::radio_socket;
use crate::socket::socket_core::state::{ConnectionRef, CoreState};

verus! {

/// Receives the messages of the groups that it has joined.
#[derive(Debug)]
pub struct DishSocket {
    /// The joined groups, in the order in which they were joined.
    pub joined_groups: Vec<Vec<u8>>,
    pub incoming: IncomingMessageOrchestrator,
    pub pipe_read_to_endpoint_uri: IdMap<String>,
}

/// A command that is to be sent to the connections.
#[derive(Debug)]
pub struct GroupCommand {
    pub is_join: bool,
    pub group: Vec<u8>,
    pub connections: Vec<ConnectionRef>,
}

/// A name that a group can have: 1 to 255 bytes, none of them zero.
pub open spec fn is_group_name(group: Seq<u8>) -> bool {
    0 < group.len() <= 255 && !group.contains(0u8)
}

/// What is wrong with the name of a group.
pub open spec fn group_fault(group: Seq<u8>) -> Option<Seq<char>> {
    if group.len() == 0 || group.len() > 255 {
        Some("Group length must be 1-255 bytes"@)
    } else if group.contains(0u8) {
        Some("Group bytes must be in range 1-255 (NUL is forbidden)"@)
    } else {
        None
    }
}

/// The group and the payload of a frame, where it is well formed.
pub open spec fn radio_parts(frame: Seq<u8>) -> Option<(Seq<u8>, Seq<u8>)> {
    if frame.len() == 0 || 1 + frame[0] > frame.len() {
        None
    } else {
        Some((frame.subrange(1, 1 + frame[0]), frame.skip(1 + frame[0])))
    }
}

/// What a RADIO encodes, a DISH decodes.
pub proof fn decode_inverts_encode(group: Seq<u8>, payload: Seq<u8>)
    requires
        group.len() <= 255,
    ensures
        radio_parts(radio_socket::radio_bytes(group, payload)) == Some((group, payload)),
{
    let frame = radio_socket::radio_bytes(group, payload);
    assert(frame[0] == group.len());
    assert(frame.subrange(1, 1 + frame[0]) =~= group);
    assert(frame.skip(1 + frame[0]) =~= payload);
}

/// One of the byte strings is `b`.
pub open spec fn has_bytes(v: Seq<Vec<u8>>, b: Seq<u8>) -> bool {
    exists|i: int| 0 <= i < v.len() && (#[trigger] v[i])@ == b
}

fn find_bytes(v: &Vec<Vec<u8>>, b: &Vec<u8>) -> (r: Option<usize>)
    ensures
        match r {
            Some(i) => i < v@.len() && v@[i as int]@ == b@,
            None => !has_bytes(v@, b@),
        },
{
    let mut i: usize = 0;
    while i < v.len()
        invariant
            i <= v@.len(),
            forall|j: int| 0 <= j < i ==> (#[trigger] v@[j])@ != b@,
        decreases v@.len() - i,
    {
        if same_bytes(&v[i], b) {
            return Some(i);
        }
        i += 1;
    }
    None
}

/// The connections of the peers of a socket, in the order of their pipes.
pub open spec fn peer_connections(core: CoreState, pipes: Seq<(usize, String)>) -> Seq<
    ConnectionRef,
>
    decreases pipes.len(),
{
    if pipes.len() == 0 {
        Seq::empty()
    } else {
        let rest = peer_connections(core, pipes.drop_last());
        let uri = pipes.last().1@;
        if core.endpoints@.dom().contains(uri) {
            rest.push(core.endpoints@[uri].connection)
        } else {
            rest
        }
    }
}

impl DishSocket {
    /// The groups that are joined.
    pub open spec fn groups(self) -> Set<Seq<u8>> {
        Set::new(|b: Seq<u8>| has_bytes(self.joined_groups@, b))
    }

    /// No group is listed twice.
    pub open spec fn groups_distinct(self) -> bool {
        forall|i: int, j: int|
            0 <= i < self.joined_groups@.len() && 0 <= j < self.joined_groups@.len() && (
            #[trigger] self.joined_groups@[i])@ == (#[trigger] self.joined_groups@[j])@ ==> i == j
    }

    /// No group is joined twice, and every group has a name that a group can have.
    pub open spec fn wf(self) -> bool {
        &&& self.incoming.wf()
        &&& self.groups_distinct()
        &&& forall|g: Seq<u8>| #[trigger] self.groups().contains(g) ==> is_group_name(g)
    }

    /// Nobody has come yet, and nothing has arrived.
    pub open spec fn is_new(self, rcvhwm: usize) -> bool {
        &&& self.groups() == Set::<Seq<u8>>::empty()
        &&& self.incoming.is_new(rcvhwm)
        &&& self.pipe_read_to_endpoint_uri@ == Map::<usize, String>::empty()
    }

    pub fn new(core: &CoreState) -> (s: DishSocket)
        ensures
            s.wf(),
            s.is_new(core.options.rcvhwm),
    {
        let s = DishSocket {
            joined_groups: Vec::new(),
            incoming: IncomingMessageOrchestrator::new(core.options.rcvhwm),
            pipe_read_to_endpoint_uri: IdMap::new(),
        };
        assert(s.groups() =~= Set::<Seq<u8>>::empty());
        s
    }

    /// Takes the frame of a RADIO apart.
    pub fn decode_radio_frame(frame: &Vec<u8>) -> (r: Option<(Vec<u8>, Vec<u8>)>)
        ensures
            match r {
                Some((g, p)) => radio_parts(frame@) == Some((g@, p@)),
                None => radio_parts(frame@) is None,
            },
    {
        if frame.len() == 0 {
            return None;
        }
        let group_len: usize = frame[0] as usize;
        if 1 + group_len > frame.len() {
            return None;
        }
        let split: usize = 1 + group_len;
        let mut group: Vec<u8> = Vec::new();
        let mut i: usize = 1;
        while i < split
            invariant
                1 <= i <= split <= frame@.len(),
                group@ == frame@.subrange(1, i as int),
            decreases split - i,
        {
            group.push(frame[i]);
            i += 1;
            assert(group@ =~= frame@.subrange(1, i as int));
        }
        let mut payload: Vec<u8> = Vec::new();
        while i < frame.len()
            invariant
                split <= i <= frame@.len(),
                payload@ == frame@.subrange(split as int, i as int),
            decreases frame@.len() - i,
        {
            payload.push(frame[i]);
            i += 1;
            assert(payload@ =~= frame@.subrange(split as int, i as int));
        }
        assert(payload@ =~= frame@.skip(split as int));
        Some((group, payload))
    }

    /// Accepts the name of a group, or says what is wrong with it.
    pub fn validate_group(group: &Vec<u8>) -> (r: Result<(), ZmqError>)
        ensures
            match group_fault(group@) {
                None => r is Ok,
                Some(fault) => r matches Err(ZmqError::InvalidArgument(m)) && m@ == fault,
            },
            r is Ok <==> is_group_name(group@),
    {
        if group.len() == 0 || group.len() > 255 {
            return Err(ZmqError::InvalidArgument("Group length must be 1-255 bytes".to_owned()));
        }
        let mut i: usize = 0;
        while i < group.len()
            invariant
                i <= group@.len(),
                0 < group@.len() <= 255,
                forall|j: int| 0 <= j < i ==> group@[j] != 0,
            decreases group@.len() - i,
        {
            if group[i] == 0 {
                return Err(
                    ZmqError::InvalidArgument(
                        "Group bytes must be in range 1-255 (NUL is forbidden)".to_owned(),
                    ),
                );
            }
            i += 1;
        }
        Ok(())
    }

    fn connections(&self, core: &CoreState) -> (r: Vec<ConnectionRef>)
        ensures
            r@ == peer_connections(*core, self.pipe_read_to_endpoint_uri.listed()),
    {
        let mut r: Vec<ConnectionRef> = Vec::new();
        let ghost pipes = self.pipe_read_to_endpoint_uri.listed();
        let mut i: usize = 0;
        assert(pipes.take(0) =~= Seq::empty());
        while i < self.pipe_read_to_endpoint_uri.len()
            invariant
                i <= pipes.len(),
                pipes == self.pipe_read_to_endpoint_uri.listed(),
                r@ == peer_connections(*core, pipes.take(i as int)),
            decreases pipes.len() - i,
        {
            assert(pipes.take(i + 1).drop_last() =~= pipes.take(i as int));
            let (_, uri) = self.pipe_read_to_endpoint_uri.entry(i);
            if let Some(c) = core.connection_of(uri.as_str()) {
                r.push(c);
            }
            i += 1;
        }
        assert(pipes.take(i as int) =~= pipes);
        r
    }

    /// Joins or leaves a group. The command that is returned goes to every peer.
    pub fn set_pattern_option(&mut self, core: &CoreState, option: i32, value: &Vec<u8>) -> (r: Result<
        GroupCommand,
        ZmqError,
    >)
        requires
            old(self).wf(),
        ensures
            final(self).wf(),
            final(self).incoming == old(self).incoming,
            final(self).pipe_read_to_endpoint_uri == old(self).pipe_read_to_endpoint_uri,
            if option != JOIN && option != LEAVE {
                r == Err::<GroupCommand, ZmqError>(ZmqError::UnsupportedOption(option))
                    && *final(self) == *old(self)
            } else if group_fault(value@) is Some {
                (r matches Err(ZmqError::InvalidArgument(m)) && m@ == group_fault(value@)->0)
                    && *final(self) == *old(self)
            } else {
                &&& r matches Ok(c)
                &&& c.is_join == (option == JOIN)
                &&& c.group@ == value@
                &&& c.connections@ == peer_connections(
                    *core,
                    old(self).pipe_read_to_endpoint_uri.listed(),
                )
                &&& final(self).groups() == if option == JOIN {
                    old(self).groups().insert(value@)
                } else {
                    old(self).groups().remove(value@)
                }
            },
    {
        if option != JOIN && option != LEAVE {
            return Err(ZmqError::UnsupportedOption(option));
        }
        if let Err(e) = Self::validate_group(value) {
            return Err(e);
        }
        if option == JOIN {
            self.join(value);
        } else {
            self.leave(value);
        }
        Ok(
            GroupCommand {
                is_join: option == JOIN,
                group: copy_bytes(value),
                connections: self.connections(core),
            },
        )
    }

    fn join(&mut self, group: &Vec<u8>)
        requires
            old(self).wf(),
            is_group_name(group@),
        ensures
            final(self).wf(),
            final(self).incoming == old(self).incoming,
            final(self).pipe_read_to_endpoint_uri == old(self).pipe_read_to_endpoint_uri,
            final(self).groups() == old(self).groups().insert(group@),
    {
        let ghost before = self.joined_groups@;
        if find_bytes(&self.joined_groups, group).is_none() {
            self.joined_groups.push(copy_bytes(group));
            proof {
                let v = self.joined_groups@;
                assert forall|i: int, j: int|
                    0 <= i < v.len() && 0 <= j < v.len() && (#[trigger] v[i])@ == (#[trigger] v[j])@ implies i
                    == j by {
                    if i < before.len() && j < before.len() {
                        assert(before[i]@ == before[j]@);
                    } else if i < before.len() {
                        assert(before[i]@ == group@);
                    } else if j < before.len() {
                        assert(before[j]@ == group@);
                    }
                }
                assert forall|b: Seq<u8>| has_bytes(v, b) <==> (has_bytes(before, b) || b == group@) by {
                    if has_bytes(before, b) {
                        let i = choose|i: int| 0 <= i < before.len() && (#[trigger] before[i])@ == b;
                        assert(v[i]@ == b);
                    }
                    if b == group@ {
                        assert(v[before.len() as int]@ == b);
                    }
                    if has_bytes(v, b) && b != group@ {
                        let i = choose|i: int| 0 <= i < v.len() && (#[trigger] v[i])@ == b;
                        assert(before[i]@ == b);
                    }
                }
            }
        }
        assert(self.groups() =~= old(self).groups().insert(group@));
        assert forall|g: Seq<u8>| #[trigger] self.groups().contains(g) implies is_group_name(g) by {
            if g != group@ {
                assert(old(self).groups().contains(g));
            }
        }
    }

    fn leave(&mut self, group: &Vec<u8>)
        requires
            old(self).wf(),
        ensures
            final(self).wf(),
            final(self).incoming == old(self).incoming,
            final(self).pipe_read_to_endpoint_uri == old(self).pipe_read_to_endpoint_uri,
            final(self).groups() == old(self).groups().remove(group@),
    {
        let ghost before = self.joined_groups@;
        if let Some(i) = find_bytes(&self.joined_groups, group) {
            let _ = self.joined_groups.remove(i);
            proof {
                let v = self.joined_groups@;
                assert(before[i as int]@ == group@);
                assert forall|a: int, b: int|
                    0 <= a < v.len() && 0 <= b < v.len() && (#[trigger] v[a])@ == (#[trigger] v[b])@ implies a
                    == b by {
                    let a2 = if a < i { a } else { a + 1 };
                    let b2 = if b < i { b } else { b + 1 };
                    assert(before[a2]@ == before[b2]@);
                }
                assert forall|b: Seq<u8>| has_bytes(v, b) <==> (has_bytes(before, b) && b != group@) by {
                    if has_bytes(v, b) {
                        let a = choose|a: int| 0 <= a < v.len() && (#[trigger] v[a])@ == b;
                        let a2 = if a < i { a } else { a + 1 };
                        assert(before[a2]@ == b);
                    }
                    if has_bytes(before, b) && b != group@ {
                        let a = choose|a: int| 0 <= a < before.len() && (#[trigger] before[a])@ == b;
                        let a2 = if a < i { a } else { a - 1 };
                        assert(v[a2]@ == b);
                    }
                }
            }
        }
        assert(self.groups() =~= old(self).groups().remove(group@));
        assert forall|g: Seq<u8>| #[trigger] self.groups().contains(g) implies is_group_name(g) by {
            assert(old(self).groups().contains(g));
        }
    }

    pub fn send(&self, _msg: Msg) -> (r: Result<(), ZmqError>)
        ensures
            r matches Err(ZmqError::InvalidState(m)) && m@ == "DISH sockets cannot send messages"@,
    {
        Err(ZmqError::InvalidState("DISH sockets cannot send messages".to_owned()))
    }

    pub fn send_multipart(&self, _frames: Vec<Msg>) -> (r: Result<(), ZmqError>)
        ensures
            r matches Err(ZmqError::InvalidState(m)) && m@
                == "DISH sockets do not support multipart messages (RFC 48 thread-safety requirement)"@,
    {
        Err(
            ZmqError::InvalidState(
                "DISH sockets do not support multipart messages (RFC 48 thread-safety requirement)".to_owned(),
            ),
        )
    }

    pub fn recv_multipart(&self) -> (r: Result<Vec<Msg>, ZmqError>)
        ensures
            r matches Err(ZmqError::InvalidState(m)) && m@
                == "DISH sockets do not support multipart messages (RFC 48 thread-safety requirement)"@,
    {
        Err(
            ZmqError::InvalidState(
                "DISH sockets do not support multipart messages (RFC 48 thread-safety requirement)".to_owned(),
            ),
        )
    }

    /// Receives a message.
    pub fn recv(&mut self, core: &CoreState, running: bool) -> (r: RecvStep)
        requires
            old(self).wf(),
        ensures
            final(self).wf(),
            final(self).groups() == old(self).groups(),
            final(self).pipe_read_to_endpoint_uri == old(self).pipe_read_to_endpoint_uri,
            if running {
                incoming_orchestrator::frame_received(
                    old(self).incoming,
                    final(self).incoming,
                    core.options.rcvtimeo,
                    old(self).incoming.queued()[0].frames@,
                    r,
                )
            } else {
                *final(self) == *old(self) && (r matches RecvStep::Done(Err(e))
                    && incoming_orchestrator::is_closing_error(e))
            },
    {
        if !running {
            return RecvStep::Done(Err(socket_is_closing()));
        }
        let r = self.incoming.recv_plain(core.options.rcvtimeo);
        assert(self.groups() == old(self).groups());
        r
    }

    /// The group and the payload of a frame that the socket is to deliver: a frame of data,
    /// well formed, for a group that is joined.
    pub open spec fn delivers(self, frame: message::Frame) -> Option<(Seq<u8>, Seq<u8>)> {
        match radio_parts(frame.data) {
            Some((g, p)) => if !frame.command && self.groups().contains(g) {
                Some((g, p))
            } else {
                None
            },
            None => None,
        }
    }

    /// Takes what happens on a pipe. A frame for a joined group is queued; any other frame is
    /// dropped.
    pub fn handle_pipe_event(&mut self, pipe_id: usize, event: PipeEvent) -> (r: Result<
        (),
        ZmqError,
    >)
        requires
            old(self).wf(),
        ensures
            final(self).wf(),
            final(self).groups() == old(self).groups(),
            final(self).pipe_read_to_endpoint_uri == old(self).pipe_read_to_endpoint_uri,
            match event {
                PipeEvent::MessageReceived(msg) => match old(self).delivers(msg@) {
                    None => r is Ok && *final(self) == *old(self),
                    Some((group, payload)) => {
                        &&& final(self).incoming.same_but_queue(old(self).incoming)
                        &&& exists|frames: Seq<Msg>|
                            #![trigger message::frames_of(frames)]
                            message::frames_of(frames) == seq![
                                message::Frame {
                                    group: Some(group),
                                    ..message::Frame::of(payload)
                                },
                            ] && incoming_orchestrator::message_queued(
                                old(self).incoming,
                                final(self).incoming,
                                Origin::Unknown,
                                frames,
                                r,
                            )
                    },
                },
                PipeEvent::ClosedByPeer => {
                    &&& r is Ok
                    &&& final(self).incoming.partial() == old(self).incoming.partial().remove(
                        pipe_id,
                    )
                    &&& final(self).incoming.buffered() == Seq::<Msg>::empty()
                    &&& final(self).incoming.queued() == old(self).incoming.queued()
                    &&& final(self).incoming.capacity() == old(self).incoming.capacity()
                    &&& final(self).incoming.is_closed() == old(self).incoming.is_closed()
                },
            },
    {
        match event {
            PipeEvent::MessageReceived(msg) => {
                if msg.is_command() {
                    return Ok(());
                }
                let (group, payload) = match Self::decode_radio_frame(&msg.data) {
                    Some(parts) => parts,
                    None => {
                        return Ok(());
                    },
                };
                if find_bytes(&self.joined_groups, &group).is_none() {
                    return Ok(());
                }
                let ghost joined = group@;
                assert(has_bytes(self.joined_groups@, joined));
                let mut decoded = Msg::from_vec(payload);
                decoded.group = Some(group);
                let mut frames: Vec<Msg> = Vec::new();
                frames.push(decoded);
                let ghost all = frames@;
                let r = self.incoming.queue_item(QueueItem { origin: Origin::Unknown, frames });
                proof {
                    assert(message::frames_of(all) =~= seq![
                        message::Frame { group: Some(joined), ..message::Frame::of(payload@) },
                    ]);
                    assert(self.incoming.queued().drop_last() =~= old(self).incoming.queued()
                        || self.incoming.queued() == old(self).incoming.queued());
                    assert(self.groups() == old(self).groups());
                }
                r
            },
            PipeEvent::ClosedByPeer => {
                self.incoming.clear_pipe_state(pipe_id);
                assert(self.groups() == old(self).groups());
                Ok(())
            },
        }
    }

    /// A peer has come: it is told of every group that is joined. Returns its connection and
    /// the groups, where there is something to tell.
    pub fn pipe_attached(&mut self, core: &CoreState, pipe_read_id: usize) -> (r: Option<
        (ConnectionRef, Vec<Vec<u8>>),
    >)
        requires
            old(self).wf(),
        ensures
            final(self).wf(),
            final(self).groups() == old(self).groups(),
            final(self).incoming == old(self).incoming,
            if core.pipe_read_id_to_endpoint_uri@.dom().contains(pipe_read_id) {
                let uri = core.pipe_read_id_to_endpoint_uri@[pipe_read_id];
                &&& final(self).pipe_read_to_endpoint_uri@ == old(self).pipe_read_to_endpoint_uri@.insert(pipe_read_id, uri)
                &&& match r {
                    Some((c, groups)) => {
                        &&& core.endpoints@.dom().contains(uri@)
                        &&& c == core.endpoints@[uri@].connection
                        &&& groups@.len() > 0
                        &&& groups@.len() == old(self).joined_groups@.len()
                        &&& forall|i: int|
                            0 <= i < groups@.len() ==> (#[trigger] groups@[i])@ == old(self).joined_groups@[i]@
                    },
                    None => !core.endpoints@.dom().contains(uri@) || old(self).joined_groups@.len()
                        == 0,
                }
            } else {
                r is None && *final(self) == *old(self)
            },
    {
        let uri = match core.uri_of_pipe(pipe_read_id) {
            Some(u) => u,
            None => {
                return None;
            },
        };
        let _ = self.pipe_read_to_endpoint_uri.insert(pipe_read_id, uri.clone());
        assert(self.groups() == old(self).groups());
        if self.joined_groups.len() == 0 {
            return None;
        }
        match core.connection_of(uri.as_str()) {
            Some(c) => {
                let mut groups: Vec<Vec<u8>> = Vec::new();
                let mut i: usize = 0;
                while i < self.joined_groups.len()
                    invariant
                        i <= self.joined_groups@.len(),
                        groups@.len() == i,
                        forall|j: int|
                            0 <= j < i ==> (#[trigger] groups@[j])@ == self.joined_groups@[j]@,
                    decreases self.joined_groups@.len() - i,
                {
                    groups.push(copy_bytes(&self.joined_groups[i]));
                    i += 1;
                }
                Some((c, groups))
            },
            None => None,
        }
    }

    /// A peer has gone.
    pub fn pipe_detached(&mut self, pipe_read_id: usize)
        requires
            old(self).wf(),
        ensures
            final(self).wf(),
            final(self).groups() == old(self).groups(),
            final(self).pipe_read_to_endpoint_uri@ == old(self).pipe_read_to_endpoint_uri@.remove(
                pipe_read_id,
            ),
            final(self).incoming.partial() == old(self).incoming.partial().remove(pipe_read_id),
            final(self).incoming.buffered() == Seq::<Msg>::empty(),
            final(self).incoming.queued() == old(self).incoming.queued(),
            final(self).incoming.capacity() == old(self).incoming.capacity(),
            final(self).incoming.is_closed() == old(self).incoming.is_closed(),
    {
        let _ = self.pipe_read_to_endpoint_uri.remove(pipe_read_id);
        self.incoming.clear_pipe_state(pipe_read_id);
        assert(self.groups() == old(self).groups());
    }
}

/// Joining a group and leaving it again changes nothing for the other groups, and nothing at
/// all where the group had not been joined.
pub proof fn leaving_undoes_joining(
    before: DishSocket,
    joined: DishSocket,
    left: DishSocket,
    group: Seq<u8>,
)
    requires
        joined.groups() == before.groups().insert(group),
        left.groups() == joined.groups().remove(group),
    ensures
        left.groups() == before.groups().remove(group),
        !before.groups().contains(group) ==> left.groups() == before.groups(),
{
    assert(left.groups() =~= before.groups().remove(group));
    if !before.groups().contains(group) {
        assert(left.groups() =~= before.groups());
    }
}

impl DishSocket {
    /// The pattern has no options that could be read.
    pub fn get_pattern_option(&self, option: i32) -> (r: Result<Vec<u8>, ZmqError>)
        ensures
            r == Err::<Vec<u8>, ZmqError>(ZmqError::UnsupportedOption(option)),
    {
        Err(ZmqError::UnsupportedOption(option))
    }
}

// ---------------------------------------------------------------------------
// Laws
// ---------------------------------------------------------------------------
/// A group is joined exactly where the list of joined groups holds its very name.
pub proof fn joined_groups_are_those_listed(dish: DishSocket, group: Seq<u8>)
    ensures
        dish.groups().contains(group) <==> exists|i: int|
            0 <= i < dish.joined_groups@.len() && (#[trigger] dish.joined_groups@[i])@ == group,
{
}

/// Exactly the messages of joined groups are delivered: what a RADIO sends to a group is
/// delivered with that group and payload where the very name of the group is joined, and is
/// dropped otherwise.
pub proof fn only_joined_groups_are_delivered(
    dish: DishSocket,
    frame: message::Frame,
    group: Seq<u8>,
    payload: Seq<u8>,
)
    requires
        group.len() <= 255,
        frame.data == radio_socket::radio_bytes(group, payload),
    ensures
        !frame.command && (exists|i: int|
            0 <= i < dish.joined_groups@.len() && (#[trigger] dish.joined_groups@[i])@ == group)
            ==> dish.delivers(frame) == Some((group, payload)),
        (forall|i: int|
            0 <= i < dish.joined_groups@.len() ==> (#[trigger] dish.joined_groups@[i])@ != group)
            ==> dish.delivers(frame) is None,
        frame.command ==> dish.delivers(frame) is None,
        !frame.command && dish.groups().contains(group) ==> dish.delivers(frame) == Some(
            (group, payload),
        ),
        !dish.groups().contains(group) ==> dish.delivers(frame) is None,
{
    decode_inverts_encode(group, payload);
}

/// A frame is the length of a group's name in one byte, the name, and the payload; what is
/// shorter than it says is malformed.
pub proof fn frames_name_their_group(frame: Seq<u8>)
    ensures
        radio_parts(frame) is None <==> frame.len() == 0 || frame.len() <= frame[0],
        radio_parts(frame) matches Some((g, p)) ==> {
            &&& g.len() == frame[0]
            &&& p.len() == frame.len() - 1 - frame[0]
            &&& forall|i: int| 0 <= i < g.len() ==> #[trigger] g[i] == frame[i + 1]
            &&& forall|i: int| 0 <= i < p.len() ==> #[trigger] p[i] == frame[i + 1 + frame[0]]
        },
{
}

/// A frame is taken apart as it was put together, and one that is malformed is refused.
pub proof fn frames_are_decoded_exactly(frame: &Vec<u8>, r: Option<(Vec<u8>, Vec<u8>)>)
    requires
        call_ensures(DishSocket::decode_radio_frame, (frame,), r),
    ensures
        r is None <==> frame@.len() == 0 || frame@.len() <= frame@[0],
        r matches Some((g, p)) ==> frame@ == seq![frame@[0]] + g@ + p@ && g@.len() == frame@[0],
{
    if r is Some {
        let (g, p) = r->0;
        assert(frame@ =~= seq![frame@[0]] + g@ + p@);
    }
}

/// A received frame for a joined group stands last in the queue, with its group; a frame for
/// any other group leaves the socket as it was.
pub proof fn frames_of_other_groups_are_dropped(
    dish: &mut DishSocket,
    pipe: usize,
    msg: Msg,
    r: Result<(), ZmqError>,
    group: Seq<u8>,
    payload: Seq<u8>,
)
    requires
        call_ensures(
            DishSocket::handle_pipe_event,
            (dish, pipe, PipeEvent::MessageReceived(msg)),
            r,
        ),
        group.len() <= 255,
        msg@.data == radio_socket::radio_bytes(group, payload),
    ensures
        (forall|i: int|
            0 <= i < old(dish).joined_groups@.len() ==> (#[trigger] old(dish).joined_groups@[i])@ != group) ==> r is Ok && *final(dish) == *old(dish),
        msg@.command ==> r is Ok && *final(dish) == *old(dish),
        !msg@.command && old(dish).groups().contains(group) && !old(dish).incoming.is_closed() && old(dish).incoming.queued().len() < old(dish).incoming.capacity()
            ==> r is Ok && final(dish).incoming.queued().len() == old(dish).incoming.queued().len() + 1
            && final(dish).incoming.queued().drop_last() == old(dish).incoming.queued()
            && message::frames_of(final(dish).incoming.queued().last().frames@) == seq![
            message::Frame { data: payload, more: false, command: false, group: Some(group) },
        ],
        final(dish).groups() == old(dish).groups(),
{
    decode_inverts_encode(group, payload);
    if forall|i: int|
        0 <= i < old(dish).joined_groups@.len() ==> (#[trigger] old(dish).joined_groups@[i])@ != group {
        assert(!old(dish).groups().contains(group));
    }
}

/// A valid name that is joined is joined, one that is left is not, and no other group is
/// touched; the peers are told. Anything else is refused and changes nothing.
pub proof fn joining_and_leaving_are_exact(
    dish: &mut DishSocket,
    core: &CoreState,
    option: i32,
    value: &Vec<u8>,
    r: Result<GroupCommand, ZmqError>,
    other: Seq<u8>,
)
    requires
        call_ensures(DishSocket::set_pattern_option, (dish, core, option, value), r),
        other != value@,
    ensures
        r is Ok <==> (option == JOIN || option == LEAVE) && 0 < value@.len() <= 255 && (forall|
            i: int,
        |
            0 <= i < value@.len() ==> #[trigger] value@[i] != 0),
        r is Err ==> *final(dish) == *old(dish),
        r is Ok && option == JOIN ==> final(dish).groups().contains(value@),
        r is Ok && option == LEAVE ==> !final(dish).groups().contains(value@),
        final(dish).groups().contains(other) <==> old(dish).groups().contains(other),
        r matches Ok(c) ==> c.is_join == (option == JOIN) && c.group@ == value@,
        option != JOIN && option != LEAVE ==> (r matches Err(e) && e is UnsupportedOption),
        JOIN != LEAVE,
{
    assert(value@.contains(0u8) <==> exists|i: int| 0 <= i < value@.len() && value@[i] == 0);
}

/// The name of a group is accepted exactly where it has 1 to 255 bytes and none is zero.
pub proof fn group_names_are_checked(group: &Vec<u8>, r: Result<(), ZmqError>)
    requires
        call_ensures(DishSocket::validate_group, (group,), r),
    ensures
        r is Ok <==> 1 <= group@.len() <= 255 && (forall|i: int|
            0 <= i < group@.len() ==> #[trigger] group@[i] != 0),
        r matches Err(e) ==> e is InvalidArgument,
{
    assert(group@.contains(0u8) <==> exists|i: int| 0 <= i < group@.len() && group@[i] == 0);
}

/// Each peer that has an endpoint is told of a group once, and nobody else is.
pub proof fn every_peer_is_told(core: CoreState, pipes: Seq<(usize, String)>, i: int)
    requires
        0 <= i < pipes.len(),
        core.endpoints@.dom().contains(pipes[i].1@),
    ensures
        peer_connections(core, pipes).contains(core.endpoints@[pipes[i].1@].connection),
        peer_connections(core, pipes).len() <= pipes.len(),
    decreases pipes.len(),
{
    let rest = pipes.drop_last();
    let told = peer_connections(core, rest);
    let c = core.endpoints@[pipes[i].1@].connection;
    if i < pipes.len() - 1 {
        assert(rest[i] == pipes[i]);
        every_peer_is_told(core, rest, i);
        let k = choose|k: int| 0 <= k < told.len() && told[k] == c;
        assert(peer_connections(core, pipes)[k] == c);
    } else {
        assert(peer_connections(core, pipes)[told.len() as int] == c);
        lemma_told_bound(core, rest);
    }
}

proof fn lemma_told_bound(core: CoreState, pipes: Seq<(usize, String)>)
    ensures
        peer_connections(core, pipes).len() <= pipes.len(),
    decreases pipes.len(),
{
    if pipes.len() > 0 {
        lemma_told_bound(core, pipes.drop_last());
    }
}

/// A new peer is told of every group that is joined, in order, and of no other.
pub proof fn new_peer_is_told_of_every_group(
    dish: &mut DishSocket,
    core: &CoreState,
    pipe: usize,
    r: Option<(ConnectionRef, Vec<Vec<u8>>)>,
)
    requires
        call_ensures(DishSocket::pipe_attached, (dish, core, pipe), r),
    ensures
        core.pipe_read_id_to_endpoint_uri@.dom().contains(pipe) && core.endpoints@.dom().contains(
            core.pipe_read_id_to_endpoint_uri@[pipe]@,
        ) && old(dish).joined_groups@.len() > 0 ==> (r matches Some((c, groups)) && c
            == core.endpoints@[core.pipe_read_id_to_endpoint_uri@[pipe]@].connection
            && groups@.len() == old(dish).joined_groups@.len() && forall|i: int|
            0 <= i < groups@.len() ==> (#[trigger] groups@[i])@ == old(dish).joined_groups@[i]@),
        old(dish).joined_groups@.len() == 0 ==> r is None,
        core.pipe_read_id_to_endpoint_uri@.dom().contains(pipe)
            ==> final(dish).pipe_read_to_endpoint_uri@.dom().contains(pipe),
        final(dish).groups() == old(dish).groups(),
{
}

/// A peer that goes takes what was half received from it along, and nothing else.
pub proof fn gone_peer_leaves_the_queue(dish: &mut DishSocket, pipe: usize)
    requires
        call_ensures(DishSocket::pipe_detached, (dish, pipe), ()),
    ensures
        !final(dish).pipe_read_to_endpoint_uri@.dom().contains(pipe),
        !final(dish).incoming.partial().dom().contains(pipe),
        final(dish).incoming.queued() == old(dish).incoming.queued(),
        final(dish).groups() == old(dish).groups(),
{
}

/// A DISH sends nothing, and neither sends nor receives messages of several frames.
pub proof fn dish_only_receives_single_frames(
    dish: &DishSocket,
    msg: Msg,
    frames: Vec<Msg>,
    a: Result<(), ZmqError>,
    b: Result<(), ZmqError>,
    c: Result<Vec<Msg>, ZmqError>,
)
    requires
        call_ensures(DishSocket::send, (dish, msg), a),
        call_ensures(DishSocket::send_multipart, (dish, frames), b),
        call_ensures(DishSocket::recv_multipart, (dish,), c),
    ensures
        a matches Err(e) && e is InvalidState,
        b matches Err(e) && e is InvalidState,
        c matches Err(e) && e is InvalidState,
{
}

/// What waits is received in order, with its group; a new DISH has joined nothing.
pub proof fn joined_messages_are_received_in_order(
    dish: &mut DishSocket,
    core: &CoreState,
    running: bool,
    r: RecvStep,
    fresh: DishSocket,
    group: Seq<u8>,
)
    requires
        call_ensures(DishSocket::recv, (dish, core, running), r),
        call_ensures(DishSocket::new, (core,), fresh),
    ensures
        running && old(dish).incoming.buffered().len() == 0 && old(dish).incoming.queued().len() > 0
            && old(dish).incoming.queued()[0].frames@.len() > 0 ==> (r matches RecvStep::Done(Ok(m))
            && m@ == old(dish).incoming.queued()[0].frames@[0]@) && final(dish).incoming.queued() == old(dish).incoming.queued().skip(1),
        running && old(dish).incoming.buffered().len() == 0 && old(dish).incoming.queued().len() == 0 && !old(dish).incoming.is_closed() && (
        core.options.rcvtimeo is None || core.options.rcvtimeo->0.spec_nanos() > 0) ==> r
            == RecvStep::Wait(core.options.rcvtimeo),
        !running ==> (r matches RecvStep::Done(Err(e)) && e is InvalidState) && *final(dish) == *old(dish),
        final(dish).groups() == old(dish).groups(),
        !fresh.groups().contains(group),
        fresh.incoming.queued().len() == 0,
        core.options.rcvhwm > 0 ==> fresh.incoming.capacity() == core.options.rcvhwm,
{
}

/// The connection is that of a peer that the core knows.
pub open spec fn is_of_known_peer(
    core: CoreState,
    pipes: Seq<(usize, String)>,
    connection: ConnectionRef,
) -> bool {
    exists|i: int|
        0 <= i < pipes.len() && core.endpoints@.dom().contains((#[trigger] pipes[i]).1@)
            && connection == core.endpoints@[pipes[i].1@].connection
}

/// The connections of the peers are those of the peers that the core knows: each of them and no
/// other, and in the order of their pipes where all are known.
pub proof fn peer_connections_are_those_of_known_peers(
    core: CoreState,
    pipes: Seq<(usize, String)>,
)
    ensures
        peer_connections(core, pipes).len() <= pipes.len(),
        forall|i: int|
            0 <= i < pipes.len() && core.endpoints@.dom().contains((#[trigger] pipes[i]).1@)
                ==> peer_connections(core, pipes).contains(
                core.endpoints@[pipes[i].1@].connection,
            ),
        forall|j: int|
            0 <= j < peer_connections(core, pipes).len() ==> is_of_known_peer(
                core,
                pipes,
                #[trigger] peer_connections(core, pipes)[j],
            ),
        (forall|i: int|
            0 <= i < pipes.len() ==> core.endpoints@.dom().contains((#[trigger] pipes[i]).1@))
            ==> peer_connections(core, pipes).len() == pipes.len() && (forall|i: int|
            0 <= i < pipes.len() ==> (#[trigger] peer_connections(core, pipes)[i])
                == core.endpoints@[pipes[i].1@].connection),
    decreases pipes.len(),
{
    if pipes.len() > 0 {
        let front = pipes.drop_last();
        let rest = peer_connections(core, front);
        let all = peer_connections(core, pipes);
        peer_connections_are_those_of_known_peers(core, front);
        assert forall|i: int| 0 <= i < front.len() implies #[trigger] front[i] == pipes[i] by {}
        let n = pipes.len() - 1;
        assert(pipes.last() == pipes[n]);
        assert forall|i: int|
            0 <= i < pipes.len() && core.endpoints@.dom().contains((#[trigger] pipes[i]).1@) implies all.contains(
        core.endpoints@[pipes[i].1@].connection) by {
            let c = core.endpoints@[pipes[i].1@].connection;
            if i < n {
                assert(front[i] == pipes[i]);
                assert(rest.contains(c));
                let j = choose|j: int| 0 <= j < rest.len() && rest[j] == c;
                assert(all[j] == c);
            } else {
                assert(all[rest.len() as int] == c);
            }
        }
        assert forall|j: int| 0 <= j < all.len() implies is_of_known_peer(
            core,
            pipes,
            #[trigger] all[j],
        ) by {
            if j < rest.len() {
                assert(rest[j] == all[j]);
                assert(is_of_known_peer(core, front, rest[j]));
                let i = choose|i: int|
                    0 <= i < front.len() && core.endpoints@.dom().contains(
                        (#[trigger] front[i]).1@,
                    ) && rest[j] == core.endpoints@[front[i].1@].connection;
                assert(pipes[i] == front[i]);
            } else {
                assert(core.endpoints@.dom().contains(pipes[n].1@));
            }
        }
        if forall|i: int|
            0 <= i < pipes.len() ==> core.endpoints@.dom().contains((#[trigger] pipes[i]).1@) {
            assert forall|i: int| 0 <= i < front.len() implies core.endpoints@.dom().contains(
                (#[trigger] front[i]).1@,
            ) by {
                assert(front[i] == pipes[i]);
            }
            assert forall|i: int| 0 <= i < pipes.len() implies (#[trigger] all[i])
                == core.endpoints@[pipes[i].1@].connection by {
                if i < n {
                    assert(all[i] == rest[i]);
                    assert(front[i] == pipes[i]);
                }
            }
        }
    }
}

/// A group that is joined or left is told to every peer that the core knows, and to nobody
/// else; what has arrived and the pipes stay as they are.
pub proof fn groups_are_told_to_every_known_peer(
    dish: &mut DishSocket,
    core: &CoreState,
    option: i32,
    value: &Vec<u8>,
    r: Result<GroupCommand, ZmqError>,
    i: int,
    j: int,
)
    requires
        call_ensures(DishSocket::set_pattern_option, (dish, core, option, value), r),
    ensures
        final(dish).incoming == old(dish).incoming,
        final(dish).pipe_read_to_endpoint_uri == old(dish).pipe_read_to_endpoint_uri,
        r matches Ok(c) ==> {
            let pipes = old(dish).pipe_read_to_endpoint_uri.listed();
            &&& c.connections@.len() <= pipes.len()
            &&& 0 <= i < pipes.len() && core.endpoints@.dom().contains(pipes[i].1@)
                ==> c.connections@.contains(core.endpoints@[pipes[i].1@].connection)
            &&& 0 <= j < c.connections@.len() ==> is_of_known_peer(
                *core,
                pipes,
                c.connections@[j],
            )
        },
{
    let pipes = old(dish).pipe_read_to_endpoint_uri.listed();
    peer_connections_are_those_of_known_peers(*core, pipes);
}

/// The errors say what was asked for in vain: the option, sending on a DISH, a message of
/// several frames, or the name of a group that is none.
pub proof fn dish_errors_name_their_cause(
    s: &DishSocket,
    t: &mut DishSocket,
    core: &CoreState,
    option: i32,
    value: &Vec<u8>,
    set: Result<GroupCommand, ZmqError>,
    got: Result<Vec<u8>, ZmqError>,
    msg: Msg,
    frames: Vec<Msg>,
    frame: Result<(), ZmqError>,
    message: Result<(), ZmqError>,
    received: Result<Vec<Msg>, ZmqError>,
    valid: Result<(), ZmqError>,
)
    requires
        call_ensures(DishSocket::set_pattern_option, (t, core, option, value), set),
        call_ensures(DishSocket::get_pattern_option, (s, option), got),
        call_ensures(DishSocket::send, (s, msg), frame),
        call_ensures(DishSocket::send_multipart, (s, frames), message),
        call_ensures(DishSocket::recv_multipart, (s,), received),
        call_ensures(DishSocket::validate_group, (value,), valid),
    ensures
        option != JOIN && option != LEAVE ==> set == Err::<GroupCommand, ZmqError>(
            ZmqError::UnsupportedOption(option),
        ),
        got == Err::<Vec<u8>, ZmqError>(ZmqError::UnsupportedOption(option)),
        frame matches Err(ZmqError::InvalidState(m)) && m@ == "DISH sockets cannot send messages"@,
        message matches Err(ZmqError::InvalidState(m)) && m@
            == "DISH sockets do not support multipart messages (RFC 48 thread-safety requirement)"@,
        received matches Err(ZmqError::InvalidState(m)) && m@
            == "DISH sockets do not support multipart messages (RFC 48 thread-safety requirement)"@,
        value@.len() == 0 || value@.len() > 255 ==> (valid matches Err(ZmqError::InvalidArgument(m))
            && m@ == "Group length must be 1-255 bytes"@),
        0 < value@.len() <= 255 && value@.contains(0) ==> (valid matches Err(
            ZmqError::InvalidArgument(m),
        ) && m@ == "Group bytes must be in range 1-255 (NUL is forbidden)"@),
{
}

/// The end of a pipe drops what was unfinished on it and what was half read, and keeps the
/// messages that wait. Nothing that happens on a pipe changes the groups, the peers or the room.
pub proof fn end_of_a_pipe_keeps_what_waits(
    s: &mut DishSocket,
    pipe: usize,
    event: PipeEvent,
    r: Result<(), ZmqError>,
    other: usize,
)
    requires
        call_ensures(DishSocket::handle_pipe_event, (s, pipe, event), r),
        other != pipe,
    ensures
        final(s).groups() == old(s).groups(),
        final(s).pipe_read_to_endpoint_uri == old(s).pipe_read_to_endpoint_uri,
        final(s).incoming.capacity() == old(s).incoming.capacity(),
        final(s).incoming.is_closed() == old(s).incoming.is_closed(),
        event is ClosedByPeer ==> {
            &&& r is Ok
            &&& final(s).incoming.queued() == old(s).incoming.queued()
            &&& final(s).incoming.buffered().len() == 0
            &&& !final(s).incoming.partial().dom().contains(pipe)
            &&& final(s).incoming.partial().dom().contains(other)
                <==> old(s).incoming.partial().dom().contains(other)
        },
{
}

} // verus!
