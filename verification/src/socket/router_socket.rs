use vstd::prelude::*;
use vstd::slice::slice_to_vec;
use vstd::string::*;

use dashmap::DashMap;
use std::sync::Arc;
use tokio::sync::{OwnedSemaphorePermit, Semaphore};

use crate::error::ZmqError;
use crate::message;
use crate::message::{clear_last, copy_bytes, Msg};
use crate::socket::dealer_socket;
use crate::socket::options::{parse_bool_option, AUTO_DELIMITER, ROUTER_MANDATORY};
use crate::socket::patterns::framing::FramingLatch;
use crate::socket::patterns::incoming_orchestrator;
use crate::socket::patterns::incoming_orchestrator::{
    socket_is_closing, FrameStep, IncomingMessageOrchestrator, ItemStep, MultipartStep, RecvStep,
};
use crate::socket::patterns::item::{Origin, PipeEvent, QueueItem};
use crate::socket::patterns::pipe_coordinator;
use crate::socket::patterns::pipe_coordinator::{PermitStep, WritePipeCoordinator};
use crate::socket::patterns::pipe_table;
use crate::socket::patterns::pipe_table::{
    identities_get, identities_insert, identities_new, identities_remove,
};
use crate::socket::patterns::router;
use crate::socket::patterns::router::RouterMap;
use crate::socket::socket_core::state::{ConnectionRef, CoreState};
use crate::socket::types;
use crate::socket::types::ToBytes;
use crate::text;
use crate::text::{bytes_text, decimal, joined, same_text};
use crate::time::Duration;

verus! {

/// A message that is being sent frame by frame: its identity frame has gone.
#[derive(Debug)]
pub struct ActiveFragmentedSend {
    pub target_endpoint_uri: String,
    /// The right to write to the peer's pipe, held until the last frame.
    pub permit: OwnedSemaphorePermit,
}

/// Receives messages with their sender's identity and sends by identity.
#[derive(Debug)]
pub struct RouterSocket {
    pub router_map_for_send: RouterMap,
    pub incoming: IncomingMessageOrchestrator,
    /// The identity of each pipe's peer.
    pub pipe_to_identity: DashMap<usize, Vec<u8>>,
    pub current_send_target: Option<ActiveFragmentedSend>,
    pub pipe_send_coordinator: WritePipeCoordinator,
    pub framing: FramingLatch,
}

/// An identity frame on its way to its peer.
#[derive(Debug)]
pub struct IdentityPlan {
    pub target_endpoint_uri: String,
    pub connection: ConnectionRef,
    /// The identity frame.
    pub msg: Msg,
}

/// The next step of sending a frame.
#[derive(Debug)]
pub enum RouterSendStep {
    Done(Result<(), ZmqError>),
    /// Send the frame to the connection and hand the outcome to `payload_sent`.
    SendPayload { connection: ConnectionRef, msg: Msg, is_last: bool },
    /// Wait for a permit, no longer than the time given, and hand the outcome to
    /// `identity_permitted`.
    WaitPermit { semaphore: Arc<Semaphore>, timeout: Option<Duration>, plan: IdentityPlan },
    /// Send the identity frame to the plan's connection and hand the outcome to
    /// `identity_sent`.
    SendIdentity { plan: IdentityPlan, permit: OwnedSemaphorePermit },
}

/// The step after the identity frame.
#[derive(Debug)]
pub enum AfterIdentity {
    Done(Result<(), ZmqError>),
    /// Send the empty delimiter to the connection and hand the outcome to `delimiter_sent`.
    SendDelimiter {
        target_endpoint_uri: String,
        connection: ConnectionRef,
        delimiter: Msg,
        permit: OwnedSemaphorePermit,
    },
}

/// A whole message on its way to its peer.
#[derive(Debug)]
pub struct MultipartPlan {
    pub identity_msg: Msg,
    pub payload: Vec<Msg>,
    pub target_endpoint_uri: String,
    pub connection: ConnectionRef,
}

/// The next step of sending a whole message.
#[derive(Debug)]
pub enum RouterMultipartStep {
    Done(Result<(), ZmqError>),
    /// Wait for a permit, no longer than the time given, and hand the outcome to
    /// `multipart_permitted`.
    WaitPermit { semaphore: Arc<Semaphore>, timeout: Option<Duration>, plan: MultipartPlan },
    /// Send the frames to the connection while holding the permit, and hand the outcome to
    /// `multipart_sent`.
    Send { frames: Vec<Msg>, connection: ConnectionRef, permit: OwnedSemaphorePermit },
}

/// The identity that stands for a peer which has given none.
pub open spec fn placeholder_identity(pipe: usize) -> Seq<u8> {
    vstd::utf8::encode_utf8("pipe:"@ + text::decimal_text(pipe as nat))
}

/// The frames that the application sees of a message: the sender's identity, then the
/// payload.
pub open spec fn app_frames(identity: Seq<u8>, payload: Seq<message::Frame>) -> Seq<
    message::Frame,
> {
    message::last_cleared(
        seq![message::Frame::of(identity).with_more(payload.len() > 0)] + payload,
    )
}

/// The frames that go out for a whole message to the peer with the identity. Unless the
/// application does the framing, an empty delimiter stands between the identity and the
/// payload.
pub open spec fn wire(
    manual: bool,
    identity: message::Frame,
    payload: Seq<message::Frame>,
) -> Seq<message::Frame> {
    message::last_cleared(
        if manual {
            seq![identity] + payload
        } else {
            seq![identity.with_more(true), dealer_socket::delimiter().with_more(true)] + payload
        },
    )
}

/// What an error of sending comes to: nothing, unless ROUTER_MANDATORY is set. A closed
/// connection is reported as an unreachable host.
pub open spec fn send_error_reported(
    mandatory: bool,
    e: ZmqError,
    closed: Seq<char>,
    r: Result<(), ZmqError>,
) -> bool {
    if !mandatory {
        r is Ok
    } else if e is ConnectionClosed {
        r matches Err(ZmqError::HostUnreachable(m)) && m@ == closed
    } else {
        r == Err::<(), ZmqError>(e)
    }
}

fn report_send_error(mandatory: bool, e: ZmqError, closed: &str) -> (r: Result<(), ZmqError>)
    ensures
        send_error_reported(mandatory, e, closed@, r),
{
    if !mandatory {
        return Ok(());
    }
    match e {
        ZmqError::ConnectionClosed => Err(ZmqError::HostUnreachable(closed.to_owned())),
        other => Err(other),
    }
}

fn to_wire(manual: bool, identity: Msg, payload: Vec<Msg>) -> (r: Vec<Msg>)
    ensures
        message::frames_of(r@) == wire(manual, identity@, message::frames_of(payload@)),
{
    let mut identity = identity;
    let mut frames: Vec<Msg> = Vec::new();
    let ghost first = identity@;
    let ghost rest = payload@;
    if manual {
        frames.push(identity);
    } else {
        identity.set_more(true);
        frames.push(identity);
        let mut delimiter = Msg::new();
        delimiter.set_more(true);
        frames.push(delimiter);
    }
    let ghost front = frames@;
    let mut payload = payload;
    frames.append(&mut payload);
    assert(frames@ =~= front + rest);
    assert(message::frames_of(frames@) =~= if manual {
        seq![first] + message::frames_of(rest)
    } else {
        seq![first.with_more(true), dealer_socket::delimiter().with_more(true)]
            + message::frames_of(rest)
    });
    clear_last(frames)
}

/// What an unreachable peer comes to: nothing, unless ROUTER_MANDATORY is set.
pub open spec fn unreachable_reported(
    mandatory: bool,
    message: Seq<char>,
    r: Result<(), ZmqError>,
) -> bool {
    if mandatory {
        r matches Err(ZmqError::HostUnreachable(m)) && m@ == message
    } else {
        r is Ok
    }
}

fn report_unreachable(mandatory: bool, message: &str) -> (r: Result<(), ZmqError>)
    ensures
        unreachable_reported(mandatory, message@, r),
{
    if mandatory {
        Err(ZmqError::HostUnreachable(message.to_owned()))
    } else {
        Ok(())
    }
}

/// The socket type that the peer of a pipe has announced.
pub open spec fn peer_type(core: CoreState, pipe: usize) -> Option<Seq<char>> {
    let uri = core.pipe_read_id_to_endpoint_uri@[pipe]@;
    if core.pipe_read_id_to_endpoint_uri@.dom().contains(pipe) && core.endpoints@.dom().contains(uri)
        && core.endpoints@[uri].peer_socket_type is Some {
        Some(core.endpoints@[uri].peer_socket_type->0@)
    } else {
        None
    }
}

fn peer_is_router(core: &CoreState, pipe: usize) -> (b: bool)
    ensures
        b == (peer_type(*core, pipe) == Some("ROUTER"@)),
{
    match core.pipe_read_id_to_endpoint_uri.get(pipe) {
        Some(uri) => match core.endpoints.get(uri.as_str()) {
            Some(info) => match &info.peer_socket_type {
                Some(t) => same_text(t.as_str(), "ROUTER"),
                None => false,
            },
            None => false,
        },
        None => false,
    }
}

/// Everything but the router map, the fragmented send and the queue is the same.
pub open spec fn same_tables(a: RouterSocket, b: RouterSocket) -> bool {
    &&& a.pipe_to_identity == b.pipe_to_identity
    &&& a.pipe_send_coordinator == b.pipe_send_coordinator
    &&& a.framing == b.framing
}

impl RouterSocket {
    /// Every message in the queue has its sender's identity.
    pub open spec fn wf(self) -> bool {
        &&& self.incoming.wf()
        &&& self.router_map_for_send.wf()
        &&& self.pipe_send_coordinator.wf()
        &&& forall|i: int|
            0 <= i < self.incoming.queued().len() ==> (
            #[trigger] self.incoming.queued()[i]).origin is Identity
    }

    /// The identities of the peers, by pipe.
    pub open spec fn identities(self) -> Map<usize, Seq<u8>> {
        pipe_table::identities(self.pipe_to_identity)
    }

    /// The identity of a pipe's peer, or the one that stands for it.
    pub open spec fn identity_of(self, pipe: usize) -> Seq<u8> {
        if self.identities().dom().contains(pipe) {
            self.identities()[pipe]
        } else {
            placeholder_identity(pipe)
        }
    }

    /// Nobody has come yet, and nothing has arrived.
    pub open spec fn is_new(self, rcvhwm: usize) -> bool {
        &&& self.router_map_for_send.list() == Seq::<router::RouterPeer>::empty()
        &&& self.identities() == Map::<usize, Seq<u8>>::empty()
        &&& self.current_send_target is None
        &&& self.pipe_send_coordinator.pipes() == Map::<usize, pipe_coordinator::PipeState>::empty()
        &&& !self.framing.spec_manual()
        &&& self.incoming.is_new(rcvhwm)
    }

    pub fn new(core: &CoreState) -> (s: RouterSocket)
        ensures
            s.wf(),
            s.is_new(core.options.rcvhwm),
    {
        let s = RouterSocket {
            router_map_for_send: RouterMap::new(),
            incoming: IncomingMessageOrchestrator::new(core.options.rcvhwm),
            pipe_to_identity: identities_new(),
            current_send_target: None,
            pipe_send_coordinator: WritePipeCoordinator::new(),
            framing: FramingLatch::new(),
        };
        assert(s.identities() =~= Map::<usize, Seq<u8>>::empty());
        s
    }

    /// The identity that stands for a peer which has given none.
    pub fn pipe_id_to_placeholder_identity(pipe_read_id: usize) -> (v: Vec<u8>)
        ensures
            v@ == placeholder_identity(pipe_read_id),
    {
        let number = decimal(pipe_read_id);
        let name = joined("pipe:", number.as_str());
        slice_to_vec(name.as_str().as_bytes())
    }

    /// Whether the empty delimiter in front of a message is taken out: unless the
    /// application does the framing, or the peer is a ROUTER too.
    pub open spec fn strips(self, core: CoreState, pipe: usize, frames: Seq<Msg>) -> bool {
        &&& !self.framing.spec_manual()
        &&& peer_type(core, pipe) != Some("ROUTER"@)
        &&& frames.len() > 0
        &&& frames[0]@.data.len() == 0
    }

    /// What is left of a message once its delimiter has been taken out.
    pub open spec fn payload(self, core: CoreState, pipe: usize, frames: Seq<Msg>) -> Seq<Msg> {
        if self.strips(core, pipe, frames) {
            frames.skip(1)
        } else {
            frames
        }
    }

    /// The identity of the sender of a message and the message's payload.
    pub fn process_incoming_zmtp_message(
        &self,
        core: &CoreState,
        pipe_read_id: usize,
        raw_zmtp_message: Vec<Msg>,
    ) -> (r: (Vec<u8>, Vec<Msg>))
        ensures
            r.0@ == self.identity_of(pipe_read_id),
            r.1@ == self.payload(*core, pipe_read_id, raw_zmtp_message@),
    {
        let identity = match identities_get(&self.pipe_to_identity, pipe_read_id) {
            Some(id) => id,
            None => Self::pipe_id_to_placeholder_identity(pipe_read_id),
        };
        let mut frames = raw_zmtp_message;
        if !self.framing.is_manual() && !peer_is_router(core, pipe_read_id) && frames.len() > 0
            && frames[0].size() == 0 {
            let ghost all = frames@;
            let _ = frames.remove(0);
            assert(frames@ =~= all.skip(1));
        }
        (identity, frames)
    }

    /// The frames that the application sees of a message.
    pub fn transform_qitem_to_app_frames(identity: Vec<u8>, payload: Vec<Msg>) -> (r: Vec<Msg>)
        ensures
            message::frames_of(r@) == app_frames(identity@, message::frames_of(payload@)),
    {
        let mut payload = payload;
        let ghost given = payload@;
        let mut id_msg = Msg::from_vec(identity);
        id_msg.set_more(payload.len() > 0);
        let mut frames: Vec<Msg> = Vec::new();
        frames.push(id_msg);
        frames.append(&mut payload);
        assert(message::frames_of(frames@) =~= seq![
            message::Frame::of(identity@).with_more(given.len() > 0),
        ] + message::frames_of(given));
        clear_last(frames)
    }

    /// Sends a frame. The first frame of a message is the identity of the peer that the
    /// message goes to; the others follow it.
    pub fn send(&mut self, core: &CoreState, running: bool, msg: Msg) -> (r: RouterSendStep)
        requires
            old(self).wf(),
        ensures
            final(self).wf(),
            same_tables(*final(self), *old(self)),
            final(self).incoming == old(self).incoming,
            old(self).send_begun(*final(self), *core, running, msg, r),
    {
        if !running {
            return RouterSendStep::Done(Err(socket_is_closing()));
        }
        let mandatory: bool = core.options.router_mandatory;
        if let Some(active) = &self.current_send_target {
            return match core.connection_of(active.target_endpoint_uri.as_str()) {
                Some(connection) => {
                    let is_last: bool = !msg.is_more();
                    RouterSendStep::SendPayload { connection, msg, is_last }
                },
                None => {
                    self.current_send_target = None;
                    RouterSendStep::Done(
                        report_unreachable(mandatory, "Peer for fragmented send disappeared"),
                    )
                },
            };
        }
        if !msg.is_more() {
            return RouterSendStep::Done(
                Err(
                    ZmqError::InvalidMessage(
                        "ROUTER send: First frame (identity) must have MORE flag set by application".to_owned(),
                    ),
                ),
            );
        }
        if msg.size() == 0 {
            return RouterSendStep::Done(
                Err(
                    ZmqError::InvalidMessage(
                        "ROUTER send: Identity frame cannot be empty".to_owned(),
                    ),
                ),
            );
        }
        let target_endpoint_uri = match self.router_map_for_send.get_peer_uri_for_identity(
            &msg.data,
        ) {
            Some(u) => u,
            None => {
                let mut m = joined("Peer ", bytes_text(&msg.data).as_str());
                m.append(" not found (ROUTER_MANDATORY)");
                return RouterSendStep::Done(report_unreachable(mandatory, m.as_str()));
            },
        };
        let (connection, pipe_read_id) = match core.route_of(target_endpoint_uri.as_str()) {
            Some(route) => route,
            None => {
                self.router_map_for_send.remove_peer_by_identity(&msg.data);
                return RouterSendStep::Done(
                    report_unreachable(mandatory, "Peer connection for identity disappeared"),
                );
            },
        };
        let plan = IdentityPlan { target_endpoint_uri, connection, msg };
        match self.pipe_send_coordinator.acquire_send_permit(pipe_read_id, core.options.sndtimeo) {
            PermitStep::Done(Ok(permit)) => RouterSendStep::SendIdentity { plan, permit },
            PermitStep::Done(Err(e)) => RouterSendStep::Done(Err(e)),
            PermitStep::Wait(semaphore, timeout) => RouterSendStep::WaitPermit {
                semaphore,
                timeout,
                plan,
            },
        }
    }

    /// What sending a frame changes and comes to at first.
    pub open spec fn send_begun(
        self,
        after: RouterSocket,
        core: CoreState,
        running: bool,
        msg: Msg,
        r: RouterSendStep,
    ) -> bool {
        let mandatory = core.options.router_mandatory;
        if !running {
            after == self && (r matches RouterSendStep::Done(Err(e))
                && incoming_orchestrator::is_closing_error(e))
        } else {
            match self.current_send_target {
                Some(active) => {
                    let uri = active.target_endpoint_uri@;
                    &&& after.router_map_for_send == self.router_map_for_send
                    &&& if core.endpoints@.dom().contains(uri) {
                        &&& after == self
                        &&& r == RouterSendStep::SendPayload {
                            connection: core.endpoints@[uri].connection,
                            msg,
                            is_last: !msg@.more,
                        }
                    } else {
                        &&& after.current_send_target is None
                        &&& r matches RouterSendStep::Done(res) && unreachable_reported(
                            mandatory,
                            "Peer for fragmented send disappeared"@,
                            res,
                        )
                    }
                },
                None => {
                    let uri = self.router_map_for_send.uri_of(msg@.data);
                    &&& after.current_send_target is None
                    &&& if !msg@.more {
                        after == self && (r matches RouterSendStep::Done(
                            Err(ZmqError::InvalidMessage(m)),
                        ) && m@
                            == "ROUTER send: First frame (identity) must have MORE flag set by application"@)
                    } else if msg@.data.len() == 0 {
                        after == self && (r matches RouterSendStep::Done(
                            Err(ZmqError::InvalidMessage(m)),
                        ) && m@ == "ROUTER send: Identity frame cannot be empty"@)
                    } else if uri is None {
                        after == self && (r matches RouterSendStep::Done(res)
                            && unreachable_reported(
                            mandatory,
                            "Peer "@ + ("["@ + text::listed_bytes(msg@.data) + "]"@)
                                + " not found (ROUTER_MANDATORY)"@,
                            res,
                        ))
                    } else {
                        match core.route(uri->0) {
                            None => {
                                &&& after.router_map_for_send.list() == router::without_identity(
                                    self.router_map_for_send.list(),
                                    msg@.data,
                                )
                                &&& r matches RouterSendStep::Done(res) && unreachable_reported(
                                    mandatory,
                                    "Peer connection for identity disappeared"@,
                                    res,
                                )
                            },
                            Some((connection, pipe)) => {
                                &&& after == self
                                &&& permit_asked(self, core, pipe, r)
                                &&& r matches RouterSendStep::SendIdentity { plan, permit }
                                    ==> plan.target_endpoint_uri@ == uri->0 && plan.connection
                                    == connection && plan.msg == msg
                                &&& r matches RouterSendStep::WaitPermit {
                                    semaphore,
                                    timeout,
                                    plan,
                                } ==> plan.target_endpoint_uri@ == uri->0 && plan.connection
                                    == connection && plan.msg == msg
                            },
                        }
                    }
                },
            }
        }
    }

    /// Goes on with an identity frame after a wait for a permit.
    pub fn identity_permitted(
        plan: IdentityPlan,
        outcome: Result<OwnedSemaphorePermit, ZmqError>,
    ) -> (r: RouterSendStep)
        ensures
            r == match outcome {
                Ok(permit) => RouterSendStep::SendIdentity { plan, permit },
                Err(e) => RouterSendStep::Done(Err(e)),
            },
    {
        match outcome {
            Ok(permit) => RouterSendStep::SendIdentity { plan, permit },
            Err(e) => RouterSendStep::Done(Err(e)),
        }
    }

    /// Notes the outcome of sending an identity frame. An empty delimiter follows it, unless
    /// the application does the framing; then the rest of the message follows.
    pub fn identity_sent(
        &mut self,
        core: &CoreState,
        target_endpoint_uri: String,
        connection: ConnectionRef,
        permit: OwnedSemaphorePermit,
        result: Result<(), ZmqError>,
    ) -> (r: AfterIdentity)
        requires
            old(self).wf(),
        ensures
            final(self).wf(),
            same_tables(*final(self), *old(self)),
            final(self).incoming == old(self).incoming,
            final(self).router_map_for_send == old(self).router_map_for_send,
            match result {
                Err(e) => {
                    &&& final(self).current_send_target == old(self).current_send_target
                    &&& r matches AfterIdentity::Done(res) && send_error_reported(
                        core.options.router_mandatory,
                        e,
                        "Peer disconnected during identity send"@,
                        res,
                    )
                },
                Ok(()) => if old(self).framing.spec_manual() {
                    &&& r == AfterIdentity::Done(Ok(()))
                    &&& final(self).current_send_target == Some(
                        ActiveFragmentedSend { target_endpoint_uri, permit },
                    )
                } else {
                    &&& final(self).current_send_target == old(self).current_send_target
                    &&& r matches AfterIdentity::SendDelimiter {
                        target_endpoint_uri: u,
                        connection: c,
                        delimiter,
                        permit: p,
                    } && u == target_endpoint_uri && c == connection && p == permit && delimiter@
                        == message::Frame::of(Seq::empty()).with_more(true)
                },
            },
    {
        match result {
            Err(e) => AfterIdentity::Done(
                report_send_error(
                    core.options.router_mandatory,
                    e,
                    "Peer disconnected during identity send",
                ),
            ),
            Ok(()) => {
                if self.framing.is_manual() {
                    self.current_send_target = Some(
                        ActiveFragmentedSend { target_endpoint_uri, permit },
                    );
                    AfterIdentity::Done(Ok(()))
                } else {
                    let mut delimiter = Msg::new();
                    delimiter.set_more(true);
                    AfterIdentity::SendDelimiter {
                        target_endpoint_uri,
                        connection,
                        delimiter,
                        permit,
                    }
                }
            },
        }
    }

    /// Notes the outcome of sending the delimiter; the rest of the message follows it.
    pub fn delimiter_sent(
        &mut self,
        core: &CoreState,
        target_endpoint_uri: String,
        permit: OwnedSemaphorePermit,
        result: Result<(), ZmqError>,
    ) -> (r: Result<(), ZmqError>)
        requires
            old(self).wf(),
        ensures
            final(self).wf(),
            same_tables(*final(self), *old(self)),
            final(self).incoming == old(self).incoming,
            final(self).router_map_for_send == old(self).router_map_for_send,
            match result {
                Err(e) => final(self).current_send_target == old(self).current_send_target
                    && send_error_reported(
                    core.options.router_mandatory,
                    e,
                    "Peer disconnected during delimiter send"@,
                    r,
                ),
                Ok(()) => r is Ok && final(self).current_send_target == Some(
                    ActiveFragmentedSend { target_endpoint_uri, permit },
                ),
            },
    {
        match result {
            Ok(()) => {
                self.current_send_target = Some(
                    ActiveFragmentedSend { target_endpoint_uri, permit },
                );
                Ok(())
            },
            Err(e) => report_send_error(
                core.options.router_mandatory,
                e,
                "Peer disconnected during delimiter send",
            ),
        }
    }

    /// Notes the outcome of sending a frame of the payload. The last frame, and a failure,
    /// end the message.
    pub fn payload_sent(&mut self, core: &CoreState, is_last: bool, result: Result<(), ZmqError>) -> (r:
        Result<(), ZmqError>)
        requires
            old(self).wf(),
        ensures
            final(self).wf(),
            same_tables(*final(self), *old(self)),
            final(self).incoming == old(self).incoming,
            final(self).router_map_for_send == old(self).router_map_for_send,
            final(self).current_send_target == if is_last || result is Err {
                None
            } else {
                old(self).current_send_target
            },
            match result {
                Ok(()) => r is Ok,
                Err(e) => send_error_reported(
                    core.options.router_mandatory,
                    e,
                    "Peer disconnected during payload send"@,
                    r,
                ),
            },
    {
        if is_last || result.is_err() {
            self.current_send_target = None;
        }
        match result {
            Ok(()) => Ok(()),
            Err(e) => report_send_error(
                core.options.router_mandatory,
                e,
                "Peer disconnected during payload send",
            ),
        }
    }

    /// Sends a whole message. Its first frame is the identity of the peer that it goes to.
    pub fn send_multipart(&mut self, core: &CoreState, running: bool, frames: Vec<Msg>) -> (r:
        RouterMultipartStep)
        requires
            old(self).wf(),
        ensures
            final(self).wf(),
            same_tables(*final(self), *old(self)),
            final(self).incoming == old(self).incoming,
            final(self).current_send_target == old(self).current_send_target,
            old(self).multipart_begun(*final(self), *core, running, frames@, r),
    {
        if !running {
            return RouterMultipartStep::Done(Err(socket_is_closing()));
        }
        let mut frames = frames;
        if frames.len() == 0 {
            return RouterMultipartStep::Done(
                Err(
                    ZmqError::InvalidMessage(
                        "ROUTER send_multipart requires at least an identity frame.".to_owned(),
                    ),
                ),
            );
        }
        let ghost all = frames@;
        let identity_msg = frames.remove(0);
        assert(frames@ =~= all.skip(1));
        if identity_msg.size() == 0 {
            return RouterMultipartStep::Done(
                Err(
                    ZmqError::InvalidMessage(
                        "ROUTER send_multipart: Identity frame cannot be empty".to_owned(),
                    ),
                ),
            );
        }
        let mandatory: bool = core.options.router_mandatory;
        let target_endpoint_uri = match self.router_map_for_send.get_peer_uri_for_identity(
            &identity_msg.data,
        ) {
            Some(u) => u,
            None => {
                let mut m = joined(
                    "Peer with identity ",
                    bytes_text(&identity_msg.data).as_str(),
                );
                m.append(" not found (ROUTER_MANDATORY)");
                return RouterMultipartStep::Done(report_unreachable(mandatory, m.as_str()));
            },
        };
        let (connection, pipe_read_id) = match core.route_of(target_endpoint_uri.as_str()) {
            Some(route) => route,
            None => {
                self.router_map_for_send.remove_peer_by_identity(&identity_msg.data);
                return RouterMultipartStep::Done(
                    report_unreachable(
                        mandatory,
                        "Peer connection for identity disappeared before send",
                    ),
                );
            },
        };
        let plan = MultipartPlan { identity_msg, payload: frames, target_endpoint_uri, connection };
        match self.pipe_send_coordinator.acquire_send_permit(pipe_read_id, core.options.sndtimeo) {
            PermitStep::Done(outcome) => self.multipart_permitted(core, plan, outcome),
            PermitStep::Wait(semaphore, timeout) => RouterMultipartStep::WaitPermit {
                semaphore,
                timeout,
                plan,
            },
        }
    }

    /// What sending a whole message changes and comes to at first.
    pub open spec fn multipart_begun(
        self,
        after: RouterSocket,
        core: CoreState,
        running: bool,
        frames: Seq<Msg>,
        r: RouterMultipartStep,
    ) -> bool {
        let mandatory = core.options.router_mandatory;
        let identity = frames[0]@.data;
        let uri = self.router_map_for_send.uri_of(identity);
        if !running {
            after == self && (r matches RouterMultipartStep::Done(Err(e))
                && incoming_orchestrator::is_closing_error(e))
        } else if frames.len() == 0 {
            after == self && (r matches RouterMultipartStep::Done(Err(ZmqError::InvalidMessage(m)))
                && m@ == "ROUTER send_multipart requires at least an identity frame."@)
        } else if identity.len() == 0 {
            after == self && (r matches RouterMultipartStep::Done(Err(ZmqError::InvalidMessage(m)))
                && m@ == "ROUTER send_multipart: Identity frame cannot be empty"@)
        } else if uri is None {
            after == self && (r matches RouterMultipartStep::Done(res) && unreachable_reported(
                mandatory,
                "Peer with identity "@ + ("["@ + text::listed_bytes(identity) + "]"@)
                    + " not found (ROUTER_MANDATORY)"@,
                res,
            ))
        } else {
            match core.route(uri->0) {
                None => {
                    &&& after.router_map_for_send.list() == router::without_identity(
                        self.router_map_for_send.list(),
                        identity,
                    )
                    &&& r matches RouterMultipartStep::Done(res) && unreachable_reported(
                        mandatory,
                        "Peer connection for identity disappeared before send"@,
                        res,
                    )
                },
                Some((connection, pipe)) => {
                    let known = self.pipe_send_coordinator.pipes().dom().contains(pipe);
                    let guard = self.pipe_send_coordinator.pipes()[pipe].guard();
                    let at_once = core.options.sndtimeo matches Some(d) && d.spec_nanos() == 0;
                    &&& after == self
                    &&& r is WaitPermit <==> known && !at_once
                    &&& r is Send ==> known && at_once
                    &&& r matches RouterMultipartStep::Send {
                        frames: sent,
                        connection: to,
                        permit,
                    } ==> message::frames_of(sent@) == wire(
                        self.framing.spec_manual(),
                        frames[0]@,
                        message::frames_of(frames.skip(1)),
                    ) && to == connection && pipe_coordinator::permit_source(permit) == guard
                    &&& r matches RouterMultipartStep::WaitPermit { semaphore, timeout, plan }
                        ==> is_multipart_plan(plan, frames, uri->0, connection) && timeout
                        == core.options.sndtimeo && *semaphore == guard
                    &&& r is Done && known ==> pipe_coordinator::permit_refused(guard)
                    &&& r matches RouterMultipartStep::Done(res) ==> if mandatory {
                        if known {
                            res == Err::<(), ZmqError>(ZmqError::ResourceLimitReached)
                        } else {
                            res matches Err(ZmqError::HostUnreachable(m)) && m@
                                == "Target pipe for send not available or recently detached"@
                        }
                    } else {
                        is_dropped_error(res)
                    }
                },
            }
        }
    }

    /// Goes on with a whole message once it is known whether it may be written. The delimiter
    /// is put in, and the last frame has no MORE flag.
    pub fn multipart_permitted(
        &self,
        core: &CoreState,
        plan: MultipartPlan,
        outcome: Result<OwnedSemaphorePermit, ZmqError>,
    ) -> (r: RouterMultipartStep)
        ensures
            match outcome {
                Ok(permit) => r matches RouterMultipartStep::Send { frames, connection, permit: p }
                    && message::frames_of(frames@) == wire(
                    self.framing.spec_manual(),
                    plan.identity_msg@,
                    message::frames_of(plan.payload@),
                ) && connection == plan.connection && p == permit,
                Err(e) => r matches RouterMultipartStep::Done(res)
                    && if core.options.router_mandatory {
                    res == Err::<(), ZmqError>(e)
                } else {
                    is_dropped_error(res)
                },
            },
    {
        match outcome {
            Ok(permit) => {
                let MultipartPlan { identity_msg, payload, connection, .. } = plan;
                let frames = to_wire(self.framing.is_manual(), identity_msg, payload);
                RouterMultipartStep::Send { frames, connection, permit }
            },
            Err(e) => RouterMultipartStep::Done(
                Err(
                    if core.options.router_mandatory {
                        e
                    } else {
                        ZmqError::Internal(
                            "Send dropped due to permit error (non-mandatory)".to_owned(),
                        )
                    },
                ),
            ),
        }
    }

    /// What sending a whole message comes to.
    pub fn multipart_sent(core: &CoreState, result: Result<(), ZmqError>) -> (r: Result<(), ZmqError>)
        ensures
            match result {
                Ok(()) => r is Ok,
                Err(e) => send_error_reported(
                    core.options.router_mandatory,
                    e,
                    "Peer disconnected during multipart send"@,
                    r,
                ),
            },
    {
        match result {
            Ok(()) => Ok(()),
            Err(e) => report_send_error(
                core.options.router_mandatory,
                e,
                "Peer disconnected during multipart send",
            ),
        }
    }

    /// Receives one frame.
    pub fn recv(&mut self, core: &CoreState, running: bool) -> (r: RecvStep)
        requires
            old(self).wf(),
        ensures
            final(self).wf(),
            same_tables(*final(self), *old(self)),
            final(self).router_map_for_send == old(self).router_map_for_send,
            final(self).current_send_target == old(self).current_send_target,
            if running {
                exists|given: Seq<Msg>|
                    {
                        &&& old(self).incoming.buffered().len() == 0 && old(self).incoming.queued().len() > 0 ==> message::frames_of(given)
                            == item_frames(old(self).incoming.queued()[0])
                        &&& #[trigger] incoming_orchestrator::frame_received(
                            old(self).incoming,
                            final(self).incoming,
                            core.options.rcvtimeo,
                            given,
                            r,
                        )
                    }
            } else {
                *final(self) == *old(self) && (r matches RecvStep::Done(Err(e))
                    && incoming_orchestrator::is_closing_error(e))
            },
    {
        if !running {
            return RecvStep::Done(Err(socket_is_closing()));
        }
        let ghost before = self.incoming;
        let ghost mut given: Seq<Msg> = arbitrary();
        let r = match self.incoming.recv_message(core.options.rcvtimeo) {
            FrameStep::Frame(m) => RecvStep::Done(Ok(m)),
            FrameStep::Item(item) => {
                let QueueItem { origin, frames } = item;
                let identity = match origin {
                    Origin::Identity(id) => id,
                    _ => Vec::new(),
                };
                let shown = Self::transform_qitem_to_app_frames(identity, frames);
                proof {
                    given = shown@;
                }
                RecvStep::Done(Ok(self.incoming.begin_frames(shown)))
            },
            FrameStep::Failed(e) => RecvStep::Done(Err(e)),
            FrameStep::Wait(t) => RecvStep::Wait(t),
        };
        assert(incoming_orchestrator::frame_received(
            before,
            self.incoming,
            core.options.rcvtimeo,
            given,
            r,
        ));
        r
    }

    /// Receives a whole message: its sender's identity, then its payload.
    pub fn recv_multipart(&mut self, core: &CoreState, running: bool) -> (r: MultipartStep)
        requires
            old(self).wf(),
        ensures
            final(self).wf(),
            same_tables(*final(self), *old(self)),
            final(self).router_map_for_send == old(self).router_map_for_send,
            final(self).current_send_target == old(self).current_send_target,
            if running {
                incoming_orchestrator::message_received(
                    old(self).incoming,
                    final(self).incoming,
                    core.options.rcvtimeo,
                    item_frames(old(self).incoming.queued()[0]),
                    r,
                )
            } else {
                *final(self) == *old(self) && (r matches MultipartStep::Done(Err(e))
                    && incoming_orchestrator::is_closing_error(e))
            },
    {
        if !running {
            return MultipartStep::Done(Err(socket_is_closing()));
        }
        match self.incoming.recv_logical_message(core.options.rcvtimeo) {
            ItemStep::Done(Ok(item)) => {
                let QueueItem { origin, frames } = item;
                let identity = match origin {
                    Origin::Identity(id) => id,
                    _ => Vec::new(),
                };
                MultipartStep::Done(Ok(Self::transform_qitem_to_app_frames(identity, frames)))
            },
            ItemStep::Done(Err(e)) => MultipartStep::Done(Err(e)),
            ItemStep::Wait(t) => MultipartStep::Wait(t),
        }
    }

    /// Sets an option of the pattern.
    pub fn set_pattern_option(&mut self, core: &mut CoreState, option: i32, value: &Vec<u8>) -> (r: Result<
        (),
        ZmqError,
    >)
        requires
            old(self).wf(),
        ensures
            final(self).wf(),
            final(self).router_map_for_send == old(self).router_map_for_send,
            final(self).incoming == old(self).incoming,
            final(self).pipe_to_identity == old(self).pipe_to_identity,
            final(self).current_send_target == old(self).current_send_target,
            final(self).pipe_send_coordinator == old(self).pipe_send_coordinator,
            option_set(*old(core), *final(core), option, value@, r),
            final(self).framing.spec_manual() == (old(self).framing.spec_manual() || (option
                == AUTO_DELIMITER && value@ == seq![0u8, 0, 0, 0])),
    {
        if option == ROUTER_MANDATORY {
            match parse_bool_option(option, value) {
                Ok(b) => {
                    core.options.router_mandatory = b;
                    Ok(())
                },
                Err(e) => Err(e),
            }
        } else if option == AUTO_DELIMITER {
            match parse_bool_option(option, value) {
                Ok(b) => {
                    if !b {
                        self.framing.set_manual();
                    }
                    Ok(())
                },
                Err(e) => Err(e),
            }
        } else {
            Err(ZmqError::UnsupportedOption(option))
        }
    }

    /// The value of an option of the pattern.
    pub fn get_pattern_option(&self, core: &CoreState, option: i32) -> (r: Result<Vec<u8>, ZmqError>)
        ensures
            match r {
                Ok(v) => {
                    let b = if option == ROUTER_MANDATORY {
                        core.options.router_mandatory
                    } else {
                        !self.framing.spec_manual()
                    };
                    &&& option == ROUTER_MANDATORY || option == AUTO_DELIMITER
                    &&& b ==> v@ == types::low_first(1) || v@ == types::high_first(1)
                    &&& !b ==> v@ == seq![0u8, 0, 0, 0]
                },
                Err(e) => option != ROUTER_MANDATORY && option != AUTO_DELIMITER && e
                    == ZmqError::UnsupportedOption(option),
            },
    {
        if option == ROUTER_MANDATORY {
            Ok(core.options.router_mandatory.to_bytes())
        } else if option == AUTO_DELIMITER {
            let auto: bool = !self.framing.is_manual();
            Ok(auto.to_bytes())
        } else {
            Err(ZmqError::UnsupportedOption(option))
        }
    }

    /// Takes what happens on a pipe: frames are put together, and a complete message is queued
    /// with its sender's identity.
    pub fn handle_pipe_event(&mut self, core: &CoreState, pipe_read_id: usize, event: PipeEvent) -> (r:
        Result<(), ZmqError>)
        requires
            old(self).wf(),
        ensures
            final(self).wf(),
            same_tables(*final(self), *old(self)),
            final(self).router_map_for_send == old(self).router_map_for_send,
            final(self).current_send_target == old(self).current_send_target,
            final(self).incoming.buffered() == old(self).incoming.buffered(),
            final(self).incoming.capacity() == old(self).incoming.capacity(),
            final(self).incoming.is_closed() == old(self).incoming.is_closed(),
            match event {
                PipeEvent::ClosedByPeer => r is Ok && *final(self) == *old(self),
                PipeEvent::MessageReceived(msg) => if msg@.more {
                    &&& r is Ok
                    &&& final(self).incoming.queued() == old(self).incoming.queued()
                    &&& final(self).incoming.partial() == old(self).incoming.partial().insert(
                        pipe_read_id,
                        old(self).incoming.partial_of(pipe_read_id).push(msg),
                    )
                } else {
                    let all = old(self).incoming.partial_of(pipe_read_id).push(msg);
                    &&& final(self).incoming.partial() == old(self).incoming.partial().remove(
                        pipe_read_id,
                    )
                    &&& exists|identity: Vec<u8>|
                        identity@ == old(self).identity_of(pipe_read_id)
                            && #[trigger] incoming_orchestrator::message_queued(
                            old(self).incoming,
                            final(self).incoming,
                            Origin::Identity(identity),
                            old(self).payload(*core, pipe_read_id, all),
                            r,
                        )
                },
            },
    {
        match event {
            PipeEvent::MessageReceived(msg) => match self.incoming.accumulate_pipe_frame(
                pipe_read_id,
                msg,
            ) {
                Some(all) => {
                    let (identity, payload) = self.process_incoming_zmtp_message(
                        core,
                        pipe_read_id,
                        all,
                    );
                    let r = self.incoming.queue_item(
                        QueueItem { origin: Origin::Identity(identity), frames: payload },
                    );
                    proof {
                        let before = old(self).incoming;
                        let whole = before.partial_of(pipe_read_id).push(msg);
                        assert(before.queued().push(self.incoming.queued().last()).drop_last()
                            =~= before.queued());
                        assert(payload@ == old(self).payload(*core, pipe_read_id, whole));
                        assert(incoming_orchestrator::message_queued(
                            before,
                            self.incoming,
                            Origin::Identity(identity),
                            old(self).payload(*core, pipe_read_id, whole),
                            r,
                        ));
                    }
                    r
                },
                None => Ok(()),
            },
            PipeEvent::ClosedByPeer => Ok(()),
        }
    }

    /// A peer has come: it is entered under the identity that it gave, or under one that
    /// stands for it.
    pub fn pipe_attached(
        &mut self,
        core: &CoreState,
        pipe_read_id: usize,
        peer_identity: Option<&Vec<u8>>,
    )
        requires
            old(self).wf(),
        ensures
            final(self).wf(),
            final(self).incoming == old(self).incoming,
            final(self).framing == old(self).framing,
            final(self).current_send_target == old(self).current_send_target,
            if known_pipe(*core, pipe_read_id) {
                let uri = core.pipe_read_id_to_endpoint_uri@[pipe_read_id];
                let identity = given_identity(
                    match peer_identity {
                        Some(v) => Some(v@),
                        None => None,
                    },
                    pipe_read_id,
                );
                &&& final(self).identities() == old(self).identities().insert(
                    pipe_read_id,
                    identity,
                )
                &&& final(self).router_map_for_send.uri_of(identity) == Some(uri@)
                &&& final(self).router_map_for_send.list().drop_last() == router::without_identity(
                    old(self).router_map_for_send.list(),
                    identity,
                )
                &&& final(self).router_map_for_send.list().last().pipe_read_id == pipe_read_id
                &&& final(self).router_map_for_send.list().last().identity@ == identity
                &&& final(self).router_map_for_send.list().last().uri == uri
                &&& final(self).router_map_for_send.list().last().peer_socket_type is None
                &&& final(self).pipe_send_coordinator.pipes().dom() == old(self).pipe_send_coordinator.pipes().dom().insert(pipe_read_id)
                &&& final(self).pipe_send_coordinator.pipes().remove(pipe_read_id) == old(self).pipe_send_coordinator.pipes().remove(pipe_read_id)
                &&& old(self).pipe_send_coordinator.pipes().dom().contains(pipe_read_id)
                    ==> final(self).pipe_send_coordinator == old(self).pipe_send_coordinator
            } else {
                *final(self) == *old(self)
            },
    {
        let uri = match core.uri_of_pipe(pipe_read_id) {
            Some(u) => u,
            None => {
                return;
            },
        };
        if !core.endpoints.contains_key(uri.as_str()) {
            return;
        }
        let identity = match peer_identity {
            Some(id) => if id.len() > 0 {
                copy_bytes(id)
            } else {
                Self::pipe_id_to_placeholder_identity(pipe_read_id)
            },
            None => Self::pipe_id_to_placeholder_identity(pipe_read_id),
        };
        self.router_map_for_send.add_peer(copy_bytes(&identity), pipe_read_id, uri);
        identities_insert(&mut self.pipe_to_identity, pipe_read_id, identity);
        self.pipe_send_coordinator.add_pipe(pipe_read_id);
        assert(self.router_map_for_send.list().drop_last() =~= router::without_identity(
            old(self).router_map_for_send.list(),
            identity@,
        ));
    }

    /// The identity of a peer has become known.
    pub fn update_peer_identity(
        &mut self,
        core: &CoreState,
        pipe_read_id: usize,
        new_identity: Option<Vec<u8>>,
    )
        requires
            old(self).wf(),
        ensures
            final(self).wf(),
            final(self).incoming == old(self).incoming,
            final(self).framing == old(self).framing,
            final(self).current_send_target == old(self).current_send_target,
            final(self).pipe_send_coordinator == old(self).pipe_send_coordinator,
            if core.pipe_read_id_to_endpoint_uri@.dom().contains(pipe_read_id) {
                let uri = core.pipe_read_id_to_endpoint_uri@[pipe_read_id];
                let identity = given_identity(
                    match new_identity {
                        Some(v) => Some(v@),
                        None => None,
                    },
                    pipe_read_id,
                );
                &&& final(self).identities() == old(self).identities().insert(
                    pipe_read_id,
                    identity,
                )
                &&& final(self).router_map_for_send.uri_of(identity) == Some(uri@)
                &&& final(self).router_map_for_send.list().drop_last() == router::without_identity(
                    router::without_pipe(old(self).router_map_for_send.list(), pipe_read_id),
                    identity,
                )
                &&& final(self).router_map_for_send.list().last().pipe_read_id == pipe_read_id
                &&& final(self).router_map_for_send.list().last().identity@ == identity
                &&& final(self).router_map_for_send.list().last().uri == uri
                &&& final(self).router_map_for_send.list().last().peer_type() == peer_type(
                    *core,
                    pipe_read_id,
                )
            } else {
                *final(self) == *old(self)
            },
    {
        let uri = match core.uri_of_pipe(pipe_read_id) {
            Some(u) => u,
            None => {
                return;
            },
        };
        let peer_socket_type = match core.endpoints.get(uri.as_str()) {
            Some(info) => match &info.peer_socket_type {
                Some(t) => Some(t.clone()),
                None => None,
            },
            None => None,
        };
        let identity = match new_identity {
            Some(id) => if id.len() > 0 {
                id
            } else {
                Self::pipe_id_to_placeholder_identity(pipe_read_id)
            },
            None => Self::pipe_id_to_placeholder_identity(pipe_read_id),
        };
        self.router_map_for_send.update_peer_identity(
            pipe_read_id,
            copy_bytes(&identity),
            uri,
            peer_socket_type,
        );
        identities_insert(&mut self.pipe_to_identity, pipe_read_id, identity);
        assert(self.router_map_for_send.list().drop_last() =~= router::without_identity(
            router::without_pipe(old(self).router_map_for_send.list(), pipe_read_id),
            identity@,
        ));
    }

    /// A peer has gone. A message that was being sent to it frame by frame is given up.
    pub fn pipe_detached(&mut self, core: &CoreState, pipe_read_id: usize)
        requires
            old(self).wf(),
        ensures
            final(self).wf(),
            final(self).framing == old(self).framing,
            final(self).identities() == old(self).identities().remove(pipe_read_id),
            final(self).router_map_for_send.list() == router::without_pipe(
                old(self).router_map_for_send.list(),
                pipe_read_id,
            ),
            final(self).pipe_send_coordinator.pipes() == old(self).pipe_send_coordinator.pipes().remove(pipe_read_id),
            pipe_coordinator::writers_stopped(
                old(self).pipe_send_coordinator.pipes(),
                pipe_read_id,
            ),
            final(self).current_send_target == match old(self).current_send_target {
                Some(a) if known_pipe(*core, pipe_read_id)
                    && core.pipe_read_id_to_endpoint_uri@[pipe_read_id]@
                    == a.target_endpoint_uri@ => None,
                other => other,
            },
            final(self).incoming.partial() == old(self).incoming.partial().remove(pipe_read_id),
            final(self).incoming.buffered() == Seq::<Msg>::empty(),
            final(self).incoming.queued() == old(self).incoming.queued(),
            final(self).incoming.capacity() == old(self).incoming.capacity(),
            final(self).incoming.is_closed() == old(self).incoming.is_closed(),
    {
        self.router_map_for_send.remove_peer_by_read_pipe(pipe_read_id);
        identities_remove(&mut self.pipe_to_identity, pipe_read_id);
        let _ = self.pipe_send_coordinator.remove_pipe(pipe_read_id);
        if let Some(uri) = core.uri_of_pipe(pipe_read_id) {
            if core.endpoints.contains_key(uri.as_str()) {
                let gone: bool = match &self.current_send_target {
                    Some(active) => same_text(active.target_endpoint_uri.as_str(), uri.as_str()),
                    None => false,
                };
                if gone {
                    self.current_send_target = None;
                }
            }
        }
        self.incoming.clear_pipe_state(pipe_read_id);
    }

    /// Stops receiving.
    pub fn stop(&mut self)
        requires
            old(self).wf(),
        ensures
            final(self).wf(),
            same_tables(*final(self), *old(self)),
            final(self).router_map_for_send == old(self).router_map_for_send,
            final(self).current_send_target == old(self).current_send_target,
            final(self).incoming.is_closed(),
            final(self).incoming.queued() == old(self).incoming.queued(),
            final(self).incoming.partial() == Map::<usize, Seq<Msg>>::empty(),
            final(self).incoming.buffered() == Seq::<Msg>::empty(),
    {
        self.incoming.close();
    }
}

/// The pipe and its endpoint are known to the core.
pub open spec fn known_pipe(core: CoreState, pipe: usize) -> bool {
    core.pipe_read_id_to_endpoint_uri@.dom().contains(pipe) && core.endpoints@.dom().contains(
        core.pipe_read_id_to_endpoint_uri@[pipe]@,
    )
}

/// The identity that a peer gave, or the one that stands for it where it gave none.
pub open spec fn given_identity(identity: Option<Seq<u8>>, pipe: usize) -> Seq<u8> {
    match identity {
        Some(id) => if id.len() > 0 {
            id
        } else {
            placeholder_identity(pipe)
        },
        None => placeholder_identity(pipe),
    }
}

/// The frames that the application sees of a queued message.
pub open spec fn item_frames(item: QueueItem) -> Seq<message::Frame> {
    match item.origin {
        Origin::Identity(id) => app_frames(id@, message::frames_of(item.frames@)),
        _ => app_frames(Seq::empty(), message::frames_of(item.frames@)),
    }
}

/// A message was dropped for want of a permit.
pub open spec fn is_dropped_error(r: Result<(), ZmqError>) -> bool {
    r matches Err(ZmqError::Internal(m)) && m@ == "Send dropped due to permit error (non-mandatory)"@
}

/// The plan is to send the message to the connection.
pub open spec fn is_multipart_plan(
    plan: MultipartPlan,
    frames: Seq<Msg>,
    uri: Seq<char>,
    connection: ConnectionRef,
) -> bool {
    &&& plan.identity_msg == frames[0]
    &&& plan.payload@ == frames.skip(1)
    &&& plan.target_endpoint_uri@ == uri
    &&& plan.connection == connection
}

/// What asking for a permit for an identity frame comes to.
pub open spec fn permit_asked(
    socket: RouterSocket,
    core: CoreState,
    pipe: usize,
    r: RouterSendStep,
) -> bool {
    let known = socket.pipe_send_coordinator.pipes().dom().contains(pipe);
    let at_once = core.options.sndtimeo matches Some(d) && d.spec_nanos() == 0;
    if !known {
        r matches RouterSendStep::Done(Err(ZmqError::HostUnreachable(m))) && m@
            == "Target pipe for send not available or recently detached"@
    } else if at_once {
        match r {
            RouterSendStep::SendIdentity { permit, .. } => pipe_coordinator::permit_source(permit)
                == socket.pipe_send_coordinator.pipes()[pipe].guard(),
            _ => r == RouterSendStep::Done(Err(ZmqError::ResourceLimitReached))
                && pipe_coordinator::permit_refused(
                socket.pipe_send_coordinator.pipes()[pipe].guard(),
            ),
        }
    } else {
        r matches RouterSendStep::WaitPermit { semaphore, timeout, plan } && timeout
            == core.options.sndtimeo && *semaphore
            == socket.pipe_send_coordinator.pipes()[pipe].guard()
    }
}

/// What setting an option of the pattern changes in the core and comes to.
pub open spec fn option_set(
    before: CoreState,
    after: CoreState,
    option: i32,
    value: Seq<u8>,
    r: Result<(), ZmqError>,
) -> bool {
    if option != ROUTER_MANDATORY && option != AUTO_DELIMITER {
        after == before && r == Err::<(), ZmqError>(ZmqError::UnsupportedOption(option))
    } else if value.len() != 4 {
        after == before && r == Err::<(), ZmqError>(ZmqError::InvalidOptionValue(option))
    } else {
        &&& r is Ok
        &&& after == if option == ROUTER_MANDATORY {
            CoreState {
                options: crate::socket::options::SocketOptions {
                    router_mandatory: value != seq![0u8, 0, 0, 0],
                    ..before.options
                },
                ..before
            }
        } else {
            before
        }
    }
}

/// What a ROUTER shows of a message it has received, it can send back: the first frame that
/// it shows is the sender's identity, and the message is marked as one.
pub proof fn shown_message_is_addressed(identity: Seq<u8>, payload: Seq<message::Frame>)
    requires
        message::is_one_message(payload),
    ensures
        app_frames(identity, payload).len() == payload.len() + 1,
        app_frames(identity, payload)[0].data == identity,
        message::is_one_message(app_frames(identity, payload)),
        app_frames(identity, payload).skip(1) == payload,
{
    let f = app_frames(identity, payload);
    assert(f.skip(1) =~= payload) by {
        assert forall|i: int| 0 <= i < payload.len() implies f.skip(1)[i] == payload[i] by {
            assert(payload[i].with_more(false) == payload[i] || i < payload.len() - 1);
        }
    }
    assert forall|i: int| 0 <= i < f.len() implies (#[trigger] f[i]).more == (i < f.len() - 1) by {
        if 0 < i && i < f.len() - 1 {
            assert(f[i] == payload[i - 1]);
        }
    }
}

/// A message that is sent whole goes out as the frames that go out for it frame by frame: the
/// identity, the delimiter unless the application does the framing, and the payload.
pub proof fn whole_message_goes_out_as_its_frames_do(
    identity: message::Frame,
    payload: Seq<message::Frame>,
)
    requires
        identity.more,
        payload.len() > 0,
        message::is_one_message(payload),
    ensures
        wire(false, identity, payload) == seq![
            identity,
            dealer_socket::delimiter().with_more(true),
        ] + payload,
        wire(true, identity, payload) == seq![identity] + payload,
        message::is_one_message(wire(false, identity, payload)),
        message::is_one_message(wire(true, identity, payload)),
{
    let d = dealer_socket::delimiter().with_more(true);
    assert(payload.last().with_more(false) == payload.last());
    assert(wire(false, identity, payload) =~= seq![identity, d] + payload);
    assert(wire(true, identity, payload) =~= seq![identity] + payload);
    assert forall|i: int| 0 <= i < payload.len() + 2 implies (#[trigger] wire(
        false,
        identity,
        payload,
    )[i]).more == (i < payload.len() + 1) by {
        if i >= 2 {
            assert(wire(false, identity, payload)[i] == payload[i - 2]);
        }
    }
    assert forall|i: int| 0 <= i < payload.len() + 1 implies (#[trigger] wire(
        true,
        identity,
        payload,
    )[i]).more == (i < payload.len()) by {
        if i >= 1 {
            assert(wire(true, identity, payload)[i] == payload[i - 1]);
        }
    }
}

/// A DEALER receives what a ROUTER sends without the identity and the delimiter that the
/// ROUTER put in front, where neither leaves the framing to its application.
pub proof fn dealer_gets_what_router_sends(
    identity: message::Frame,
    payload: Seq<message::Frame>,
)
    requires
        identity.data.len() > 0,
        message::is_one_message(payload),
    ensures
        ({
            let sent = wire(false, identity, payload);
            sent.skip(dealer_socket::envelope_len(false, sent)) == payload
        }),
{
    let sent = wire(false, identity, payload);
    assert(sent[1].data.len() == 0);
    if payload.len() > 0 {
        assert(payload.last().with_more(false) == payload.last());
    }
    assert(sent.skip(2) =~= payload);
}

/// A ROUTER receives what a DEALER sends without the delimiter that the DEALER put in front,
/// where neither leaves the framing to its application and the peer is not known as a ROUTER.
pub proof fn router_gets_what_dealer_sends(
    router: RouterSocket,
    core: CoreState,
    pipe: usize,
    sent: Seq<Msg>,
    frames: Seq<message::Frame>,
)
    requires
        !router.framing.spec_manual(),
        peer_type(core, pipe) != Some("ROUTER"@),
        frames.len() > 0,
        message::frames_of(sent) == dealer_socket::wire(false, frames),
    ensures
        message::frames_of(router.payload(core, pipe, sent)) == message::marked(frames),
{
    let w = dealer_socket::wire(false, frames);
    assert(w.len() == frames.len() + 1);
    assert(message::frames_of(sent).len() == sent.len());
    assert(message::frames_of(sent)[0] == sent[0]@);
    assert(w[0].data.len() == 0);
    assert(message::frames_of(sent.skip(1)) =~= message::frames_of(sent).skip(1));
    assert(w.skip(1) =~= message::marked(frames));
}

// ---------------------------------------------------------------------------
// Laws
// ---------------------------------------------------------------------------
/// The frames after the identity go to the peer that the message was begun for, one by one and
/// as they are.
pub proof fn frames_follow_their_identity(
    s: &mut RouterSocket,
    core: &CoreState,
    msg: Msg,
    r: RouterSendStep,
    active: ActiveFragmentedSend,
)
    requires
        call_ensures(RouterSocket::send, (s, core, true, msg), r),
        old(s).current_send_target == Some(active),
    ensures
        core.endpoints@.dom().contains(active.target_endpoint_uri@) ==> r == (
        RouterSendStep::SendPayload {
            connection: core.endpoints@[active.target_endpoint_uri@].connection,
            msg,
            is_last: !msg.more,
        }) && *final(s) == *old(s),
        !core.endpoints@.dom().contains(active.target_endpoint_uri@) ==> final(s).current_send_target is None && (r matches RouterSendStep::Done(res)
            && if core.options.router_mandatory {
            res matches Err(e) && e is HostUnreachable
        } else {
            res is Ok
        }),
{
}

/// A message begins with the identity of a peer: a frame that is the only one, or is empty, is
/// refused, and one that names nobody is reported where ROUTER_MANDATORY is set and dropped
/// otherwise.
pub proof fn first_frame_names_a_peer(
    s: &mut RouterSocket,
    core: &CoreState,
    msg: Msg,
    r: RouterSendStep,
)
    requires
        call_ensures(RouterSocket::send, (s, core, true, msg), r),
        old(s).current_send_target is None,
    ensures
        !msg.more || msg.data@.len() == 0 ==> (r matches RouterSendStep::Done(Err(e))
            && e is InvalidMessage) && *final(s) == *old(s),
        msg.more && msg.data@.len() > 0 && (forall|i: int|
            0 <= i < old(s).router_map_for_send.list().len() ==> (#[trigger] old(s).router_map_for_send.list()[i]).identity@ != msg.data@) ==> *final(s) == *old(s) && (
        r matches RouterSendStep::Done(res) && if core.options.router_mandatory {
            res matches Err(e) && e is HostUnreachable
        } else {
            res is Ok
        }),
{
}

/// A message goes to the connection of the peer with the very identity that it begins with,
/// once there is the right to write to that peer's pipe.
pub proof fn identity_chooses_the_peer(
    s: &mut RouterSocket,
    core: &CoreState,
    msg: Msg,
    r: RouterSendStep,
    i: int,
    write: usize,
    read: usize,
)
    requires
        old(s).wf(),
        call_ensures(RouterSocket::send, (s, core, true, msg), r),
        old(s).current_send_target is None,
        msg.more,
        msg.data@.len() > 0,
        0 <= i < old(s).router_map_for_send.list().len(),
        old(s).router_map_for_send.list()[i].identity@ == msg.data@,
        core.endpoints@.dom().contains(old(s).router_map_for_send.list()[i].uri@),
        core.endpoints@[old(s).router_map_for_send.list()[i].uri@].pipe_ids == Some((write, read)),
    ensures
        *final(s) == *old(s),
        !old(s).pipe_send_coordinator.pipes().dom().contains(read) ==> (
        r matches RouterSendStep::Done(Err(e)) && e is HostUnreachable),
        old(s).pipe_send_coordinator.pipes().dom().contains(read) && (core.options.sndtimeo is None
            || core.options.sndtimeo->0.spec_nanos() > 0) ==> (r matches RouterSendStep::WaitPermit {
            semaphore,
            timeout,
            plan,
        } && *semaphore == old(s).pipe_send_coordinator.pipes()[read].guard() && timeout
            == core.options.sndtimeo && plan.connection == core.endpoints@[old(s).router_map_for_send.list()[i].uri@].connection && plan.msg == msg
            && plan.target_endpoint_uri@ == old(s).router_map_for_send.list()[i].uri@),
        old(s).pipe_send_coordinator.pipes().dom().contains(read) && core.options.sndtimeo is Some
            && core.options.sndtimeo->0.spec_nanos() == 0 ==> match r {
            RouterSendStep::SendIdentity { plan, permit } => plan.connection == core.endpoints@[old(s).router_map_for_send.list()[i].uri@].connection && plan.msg == msg
                && pipe_coordinator::permit_source(permit) == old(s).pipe_send_coordinator.pipes()[read].guard(),
            _ => r == RouterSendStep::Done(Err(ZmqError::ResourceLimitReached)),
        },
{
    router::listed_peer_is_found(old(s).router_map_for_send, i);
}

/// The same of a message that is sent whole.
pub proof fn identity_chooses_the_peer_of_a_whole_message(
    s: &mut RouterSocket,
    core: &CoreState,
    frames: Vec<Msg>,
    r: RouterMultipartStep,
    i: int,
    write: usize,
    read: usize,
)
    requires
        old(s).wf(),
        call_ensures(RouterSocket::send_multipart, (s, core, true, frames), r),
        frames@.len() > 0,
        frames@[0]@.data.len() > 0,
        0 <= i < old(s).router_map_for_send.list().len(),
        old(s).router_map_for_send.list()[i].identity@ == frames@[0]@.data,
        core.endpoints@.dom().contains(old(s).router_map_for_send.list()[i].uri@),
        core.endpoints@[old(s).router_map_for_send.list()[i].uri@].pipe_ids == Some((write, read)),
    ensures
        *final(s) == *old(s),
        r != RouterMultipartStep::Done(Ok(())),
        old(s).pipe_send_coordinator.pipes().dom().contains(read) && (core.options.sndtimeo is None
            || core.options.sndtimeo->0.spec_nanos() > 0) ==> (
        r matches RouterMultipartStep::WaitPermit { semaphore, timeout, plan } && *semaphore == old(s).pipe_send_coordinator.pipes()[read].guard() && timeout == core.options.sndtimeo
            && plan.connection == core.endpoints@[old(s).router_map_for_send.list()[i].uri@].connection && plan.identity_msg == frames@[0]
            && plan.payload@ == frames@.skip(1)),
        r matches RouterMultipartStep::Send { frames: sent, connection, permit } ==> connection
            == core.endpoints@[old(s).router_map_for_send.list()[i].uri@].connection
            && pipe_coordinator::permit_source(permit) == old(s).pipe_send_coordinator.pipes()[read].guard(),
        !old(s).pipe_send_coordinator.pipes().dom().contains(read) ==> (
        r matches RouterMultipartStep::Done(Err(e)) && (core.options.router_mandatory
            ==> e is HostUnreachable)),
{
    router::listed_peer_is_found(old(s).router_map_for_send, i);
}

/// A whole message without an identity is refused, and one to nobody is reported where
/// ROUTER_MANDATORY is set and dropped otherwise.
pub proof fn whole_message_names_a_peer(
    s: &mut RouterSocket,
    core: &CoreState,
    frames: Vec<Msg>,
    r: RouterMultipartStep,
)
    requires
        call_ensures(RouterSocket::send_multipart, (s, core, true, frames), r),
    ensures
        frames@.len() == 0 || frames@[0]@.data.len() == 0 ==> (r matches RouterMultipartStep::Done(
            Err(e),
        ) && e is InvalidMessage) && *final(s) == *old(s),
        frames@.len() > 0 && frames@[0]@.data.len() > 0 && (forall|i: int|
            0 <= i < old(s).router_map_for_send.list().len() ==> (#[trigger] old(s).router_map_for_send.list()[i]).identity@ != frames@[0]@.data) ==> *final(s) == *old(s)
            && (r matches RouterMultipartStep::Done(res) && if core.options.router_mandatory {
            res matches Err(e) && e is HostUnreachable
        } else {
            res is Ok
        }),
{
}

/// What goes out for a whole message: the identity, an empty frame unless the application does
/// the framing, and the payload, with MORE gone from the last frame.
pub proof fn wire_is_identity_delimiter_payload(
    identity: message::Frame,
    payload: Seq<message::Frame>,
    i: int,
)
    ensures
        wire(false, identity, payload).len() == payload.len() + 2,
        wire(false, identity, payload)[0].data == identity.data,
        wire(false, identity, payload)[1].data.len() == 0,
        0 <= i < payload.len() ==> wire(false, identity, payload)[i + 2].data == payload[i].data,
        wire(true, identity, payload).len() == payload.len() + 1,
        wire(true, identity, payload)[0].data == identity.data,
        0 <= i < payload.len() ==> wire(true, identity, payload)[i + 1].data == payload[i].data,
        !wire(false, identity, payload).last().more,
        !wire(true, identity, payload).last().more,
        wire(false, identity, payload)[0].more,
{
}

/// With the right to write, what goes out is the plan's message to the plan's connection;
/// without it nothing goes out, and that is an error whose reason ROUTER_MANDATORY gives.
pub proof fn permitted_message_goes_out(
    s: &RouterSocket,
    core: &CoreState,
    plan: MultipartPlan,
    outcome: Result<OwnedSemaphorePermit, ZmqError>,
    r: RouterMultipartStep,
    i: int,
)
    requires
        call_ensures(RouterSocket::multipart_permitted, (s, core, plan, outcome), r),
    ensures
        outcome matches Ok(p) ==> (r matches RouterMultipartStep::Send {
            frames,
            connection,
            permit,
        } && permit == p && connection == plan.connection && frames@.len() == plan.payload@.len()
            + if s.framing.spec_manual() {
            1int
        } else {
            2
        } && frames@[0]@.data == plan.identity_msg@.data && (!s.framing.spec_manual()
            ==> frames@[1]@.data.len() == 0) && (0 <= i < plan.payload@.len() ==> frames@[i
            + frames@.len() - plan.payload@.len()]@.data == plan.payload@[i]@.data)
            && !frames@.last()@.more),
        outcome matches Err(e) ==> (r matches RouterMultipartStep::Done(Err(f)) && (
        core.options.router_mandatory ==> f == e)),
{
    if outcome is Ok {
        let f = r->Send_frames;
        let w = wire(
            s.framing.spec_manual(),
            plan.identity_msg@,
            message::frames_of(plan.payload@),
        );
        wire_is_identity_delimiter_payload(
            plan.identity_msg@,
            message::frames_of(plan.payload@),
            i,
        );
        assert(message::frames_of(f@).len() == w.len());
        assert(message::frames_of(f@)[0] == w[0]);
        assert(message::frames_of(f@)[f@.len() - 1] == w[f@.len() - 1]);
        if !s.framing.spec_manual() {
            assert(message::frames_of(f@)[1] == w[1]);
        }
        if 0 <= i < plan.payload@.len() {
            let k = i + f@.len() - plan.payload@.len();
            assert(message::frames_of(f@)[k] == w[k]);
        }
    }
}

/// An empty delimiter follows the identity frame, unless the application does the framing; then
/// the rest of the message is awaited for that peer. A failure awaits nothing.
pub proof fn delimiter_follows_the_identity(
    s: &mut RouterSocket,
    core: &CoreState,
    uri: String,
    connection: ConnectionRef,
    permit: OwnedSemaphorePermit,
    result: Result<(), ZmqError>,
    r: AfterIdentity,
)
    requires
        call_ensures(RouterSocket::identity_sent, (s, core, uri, connection, permit, result), r),
    ensures
        result is Ok && !old(s).framing.spec_manual() ==> (r matches AfterIdentity::SendDelimiter {
            target_endpoint_uri,
            connection: c,
            delimiter,
            permit: p,
        } && target_endpoint_uri == uri && c == connection && p == permit && delimiter@.data.len()
            == 0 && delimiter@.more),
        result is Ok && old(s).framing.spec_manual() ==> r == AfterIdentity::Done(Ok(())) && (
        final(s).current_send_target matches Some(a) && a.target_endpoint_uri == uri && a.permit
            == permit),
        result matches Err(e) ==> final(s).current_send_target == old(s).current_send_target && (
        r matches AfterIdentity::Done(res) && (!core.options.router_mandatory ==> res is Ok) && (
        core.options.router_mandatory ==> res is Err) && (core.options.router_mandatory
            && e is ConnectionClosed ==> res->Err_0 is HostUnreachable) && (
        core.options.router_mandatory && !(e is ConnectionClosed) ==> res->Err_0 == e)),
{
}

/// Once the delimiter has gone, the rest of the message is awaited for that peer.
pub proof fn payload_follows_the_delimiter(
    s: &mut RouterSocket,
    core: &CoreState,
    uri: String,
    permit: OwnedSemaphorePermit,
    result: Result<(), ZmqError>,
    r: Result<(), ZmqError>,
)
    requires
        call_ensures(RouterSocket::delimiter_sent, (s, core, uri, permit, result), r),
    ensures
        result is Ok ==> r is Ok && (final(s).current_send_target matches Some(a)
            && a.target_endpoint_uri == uri && a.permit == permit),
        result is Err ==> final(s).current_send_target == old(s).current_send_target && (r is Err
            <==> core.options.router_mandatory),
{
}

/// The last frame ends a message, and so does a failure; any other frame leaves it open.
pub proof fn last_frame_ends_the_message(
    s: &mut RouterSocket,
    core: &CoreState,
    is_last: bool,
    result: Result<(), ZmqError>,
    r: Result<(), ZmqError>,
)
    requires
        call_ensures(RouterSocket::payload_sent, (s, core, is_last, result), r),
    ensures
        is_last || result is Err ==> final(s).current_send_target is None,
        !is_last && result is Ok ==> final(s).current_send_target == old(s).current_send_target,
        result is Ok ==> r is Ok,
        result is Err ==> (r is Err <==> core.options.router_mandatory),
{
}

/// What sending a whole message comes to: its failures are reported where ROUTER_MANDATORY is
/// set. A permit that was waited for lets the identity frame go.
pub proof fn failures_are_reported_where_mandatory(
    core: &CoreState,
    result: Result<(), ZmqError>,
    r: Result<(), ZmqError>,
    plan: IdentityPlan,
    outcome: Result<OwnedSemaphorePermit, ZmqError>,
    next: RouterSendStep,
)
    requires
        call_ensures(RouterSocket::multipart_sent, (core, result), r),
        call_ensures(RouterSocket::identity_permitted, (plan, outcome), next),
    ensures
        result is Ok ==> r is Ok,
        result is Err ==> (r is Err <==> core.options.router_mandatory),
        result matches Err(e) ==> (core.options.router_mandatory && e is ConnectionClosed
            ==> r->Err_0 is HostUnreachable),
        result matches Err(e) ==> (core.options.router_mandatory && !(e is ConnectionClosed)
            ==> r->Err_0 == e),
        outcome matches Ok(p) ==> next == (RouterSendStep::SendIdentity { plan, permit: p }),
        outcome matches Err(e) ==> next == RouterSendStep::Done(Err(e)),
{
}

/// A received message shows its sender's identity first, then every frame of its payload.
pub proof fn received_message_begins_with_its_sender(
    s: &mut RouterSocket,
    core: &CoreState,
    r: MultipartStep,
    identity: Vec<u8>,
    i: int,
)
    requires
        call_ensures(RouterSocket::recv_multipart, (s, core, true), r),
        old(s).incoming.queued().len() > 0,
        old(s).incoming.queued()[0].origin == Origin::Identity(identity),
    ensures
        r matches MultipartStep::Done(Ok(v)) && {
            let payload = old(s).incoming.queued()[0].frames@;
            &&& v@.len() == payload.len() + 1
            &&& v@[0]@.data == identity@
            &&& v@[0]@.more == (payload.len() > 0)
            &&& 0 <= i < payload.len() ==> v@[i + 1]@.data == payload[i]@.data
            &&& !v@.last()@.more
        },
        final(s).incoming.queued() == old(s).incoming.queued().skip(1),
{
    let v = r->Done_0->Ok_0;
    let payload = old(s).incoming.queued()[0].frames@;
    let shown = item_frames(old(s).incoming.queued()[0]);
    assert(message::frames_of(v@).len() == shown.len());
    assert(message::frames_of(v@)[0] == shown[0]);
    assert(message::frames_of(v@)[v@.len() - 1] == shown[v@.len() - 1]);
    if 0 <= i < payload.len() {
        assert(message::frames_of(v@)[i + 1] == shown[i + 1]);
    }
}

/// The same frame by frame: the first frame received of a message is its sender's identity.
pub proof fn first_received_frame_is_the_sender(
    s: &mut RouterSocket,
    core: &CoreState,
    r: RecvStep,
    identity: Vec<u8>,
)
    requires
        call_ensures(RouterSocket::recv, (s, core, true), r),
        old(s).incoming.buffered().len() == 0,
        old(s).incoming.queued().len() > 0,
        old(s).incoming.queued()[0].origin == Origin::Identity(identity),
    ensures
        r matches RecvStep::Done(Ok(m)) && m@.data == identity@ && m@.more == (old(s).incoming.queued()[0].frames@.len() > 0),
        final(s).incoming.buffered().len() == old(s).incoming.queued()[0].frames@.len(),
        final(s).incoming.queued() == old(s).incoming.queued().skip(1),
{
    let shown = item_frames(old(s).incoming.queued()[0]);
    let given = choose|given: Seq<Msg>|
        message::frames_of(given) == shown && #[trigger] incoming_orchestrator::frame_received(
            old(s).incoming,
            final(s).incoming,
            core.options.rcvtimeo,
            given,
            r,
        );
    assert(message::frames_of(given).len() == shown.len());
    assert(shown.len() == old(s).incoming.queued()[0].frames@.len() + 1);
    assert(message::frames_of(given)[0] == shown[0]);
}

/// Where no message waits none is received, and a socket that is being closed neither receives
/// nor sends.
pub proof fn nothing_is_received_of_nothing(
    s: &mut RouterSocket,
    t: &mut RouterSocket,
    u: &mut RouterSocket,
    v: &mut RouterSocket,
    core: &CoreState,
    running: bool,
    frames: Vec<Msg>,
    msg: Msg,
    whole: MultipartStep,
    frame: RecvStep,
    out: RouterSendStep,
    out_whole: RouterMultipartStep,
)
    requires
        call_ensures(RouterSocket::recv_multipart, (s, core, running), whole),
        call_ensures(RouterSocket::recv, (t, core, running), frame),
        call_ensures(RouterSocket::send, (u, core, false, msg), out),
        call_ensures(RouterSocket::send_multipart, (v, core, false, frames), out_whole),
    ensures
        running && old(s).incoming.queued().len() == 0 && !old(s).incoming.is_closed() && (
        core.options.rcvtimeo is None || core.options.rcvtimeo->0.spec_nanos() > 0) ==> whole
            == MultipartStep::Wait(core.options.rcvtimeo),
        running && old(t).incoming.queued().len() == 0 && old(t).incoming.buffered().len() == 0
            && !old(t).incoming.is_closed() && (core.options.rcvtimeo is None
            || core.options.rcvtimeo->0.spec_nanos() > 0) ==> frame == RecvStep::Wait(
            core.options.rcvtimeo,
        ),
        !running ==> (whole matches MultipartStep::Done(Err(e)) && e is InvalidState) && *final(s)
            == *old(s),
        !running ==> (frame matches RecvStep::Done(Err(e)) && e is InvalidState) && *final(t)
            == *old(t),
        (out matches RouterSendStep::Done(Err(e)) && e is InvalidState) && *final(u) == *old(u),
        (out_whole matches RouterMultipartStep::Done(Err(e)) && e is InvalidState) && *final(v)
            == *old(v),
{
}

/// A complete message is queued under the identity of its pipe's peer. The empty frame that it
/// begins with is taken out, unless the application does the framing or the peer is a ROUTER;
/// every other frame is kept.
pub proof fn complete_message_is_queued_with_its_sender(
    s: &mut RouterSocket,
    core: &CoreState,
    pipe: usize,
    msg: Msg,
    r: Result<(), ZmqError>,
    name: String,
)
    requires
        call_ensures(
            RouterSocket::handle_pipe_event,
            (s, core, pipe, PipeEvent::MessageReceived(msg)),
            r,
        ),
        !msg.more,
        !old(s).incoming.is_closed(),
        old(s).incoming.queued().len() < old(s).incoming.capacity(),
    ensures
        r is Ok,
        final(s).incoming.queued().drop_last() == old(s).incoming.queued(),
        final(s).incoming.queued().last().origin matches Origin::Identity(id) && (old(s).identities().dom().contains(pipe) ==> id@ == old(s).identities()[pipe]),
        ({
            let all = old(s).incoming.partial_of(pipe).push(msg);
            let kept = final(s).incoming.queued().last().frames@;
            let to_router = core.pipe_read_id_to_endpoint_uri@.dom().contains(pipe)
                && core.endpoints@.dom().contains(core.pipe_read_id_to_endpoint_uri@[pipe]@)
                && core.endpoints@[core.pipe_read_id_to_endpoint_uri@[pipe]@].peer_socket_type
                == Some(name) && name@ == "ROUTER"@;
            let no_router = !core.pipe_read_id_to_endpoint_uri@.dom().contains(pipe)
                || !core.endpoints@.dom().contains(core.pipe_read_id_to_endpoint_uri@[pipe]@)
                || core.endpoints@[core.pipe_read_id_to_endpoint_uri@[pipe]@].peer_socket_type
                is None
                || core.endpoints@[core.pipe_read_id_to_endpoint_uri@[pipe]@].peer_socket_type->0@
                != "ROUTER"@;
            &&& all[0]@.data.len() > 0 || old(s).framing.spec_manual() || to_router ==> kept == all
            &&& all[0]@.data.len() == 0 && !old(s).framing.spec_manual() && no_router ==> kept
                == all.skip(1)
        }),
{
}

/// A frame that is followed by more is kept for its pipe.
pub proof fn incomplete_message_is_kept(
    s: &mut RouterSocket,
    core: &CoreState,
    pipe: usize,
    msg: Msg,
    r: Result<(), ZmqError>,
)
    requires
        call_ensures(
            RouterSocket::handle_pipe_event,
            (s, core, pipe, PipeEvent::MessageReceived(msg)),
            r,
        ),
        msg.more,
    ensures
        r is Ok,
        final(s).incoming.queued() == old(s).incoming.queued(),
        final(s).incoming.partial()[pipe] == old(s).incoming.partial_of(pipe).push(msg),
{
}

/// A peer that comes can be sent to by the identity that it gave, and what it sends carries it.
/// One that gave none has an identity that is its own as long as it has none.
pub proof fn peer_has_the_identity_it_gave(
    s: &mut RouterSocket,
    core: &CoreState,
    pipe: usize,
    identity: Option<&Vec<u8>>,
)
    requires
        call_ensures(RouterSocket::pipe_attached, (s, core, pipe, identity), ()),
        core.pipe_read_id_to_endpoint_uri@.dom().contains(pipe),
        core.endpoints@.dom().contains(core.pipe_read_id_to_endpoint_uri@[pipe]@),
    ensures
        identity is Some && identity->0@.len() > 0 ==> final(s).identities()[pipe] == identity->0@
            && final(s).router_map_for_send.uri_of(identity->0@) == Some(
            core.pipe_read_id_to_endpoint_uri@[pipe]@,
        ),
        identity is None || identity->0@.len() == 0 ==> final(s).identities()[pipe]
            == placeholder_identity(pipe) && final(s).router_map_for_send.uri_of(
            placeholder_identity(pipe),
        ) == Some(core.pipe_read_id_to_endpoint_uri@[pipe]@),
        final(s).identities().dom().contains(pipe),
        final(s).pipe_send_coordinator.pipes().dom().contains(pipe),
        final(s).router_map_for_send.list().last().pipe_read_id == pipe,
{
}

/// An identity that becomes known replaces the one that stood for the peer, for sending and for
/// receiving.
pub proof fn known_identity_replaces_the_placeholder(
    s: &mut RouterSocket,
    core: &CoreState,
    pipe: usize,
    identity: Option<Vec<u8>>,
)
    requires
        call_ensures(RouterSocket::update_peer_identity, (s, core, pipe, identity), ()),
    ensures
        core.pipe_read_id_to_endpoint_uri@.dom().contains(pipe) && identity is Some
            && identity->0@.len() > 0 ==> final(s).identities()[pipe] == identity->0@ && final(s).identities().dom().contains(pipe) && final(s).router_map_for_send.uri_of(identity->0@)
            == Some(core.pipe_read_id_to_endpoint_uri@[pipe]@),
        core.pipe_read_id_to_endpoint_uri@.dom().contains(pipe) && (identity is None
            || identity->0@.len() == 0) ==> final(s).identities()[pipe] == placeholder_identity(
            pipe,
        ),
        !core.pipe_read_id_to_endpoint_uri@.dom().contains(pipe) ==> *final(s) == *old(s),
        final(s).incoming == old(s).incoming,
{
}

/// A peer that goes cannot be sent to, and the message being sent to it is given up; one being
/// sent to another peer goes on.
pub proof fn gone_peer_is_not_sent_to(s: &mut RouterSocket, core: &CoreState, pipe: usize, i: int)
    requires
        call_ensures(RouterSocket::pipe_detached, (s, core, pipe), ()),
    ensures
        !final(s).identities().dom().contains(pipe),
        !final(s).pipe_send_coordinator.pipes().dom().contains(pipe),
        0 <= i < final(s).router_map_for_send.list().len() ==> final(s).router_map_for_send.list()[i].pipe_read_id != pipe,
        core.pipe_read_id_to_endpoint_uri@.dom().contains(pipe) && core.endpoints@.dom().contains(
            core.pipe_read_id_to_endpoint_uri@[pipe]@,
        ) && old(s).current_send_target is Some && old(s).current_send_target->0.target_endpoint_uri@ == core.pipe_read_id_to_endpoint_uri@[pipe]@
            ==> final(s).current_send_target is None,
        core.pipe_read_id_to_endpoint_uri@.dom().contains(pipe) && old(s).current_send_target is Some && old(s).current_send_target->0.target_endpoint_uri@
            != core.pipe_read_id_to_endpoint_uri@[pipe]@ ==> final(s).current_send_target == old(s).current_send_target,
        final(s).incoming.queued() == old(s).incoming.queued(),
        !final(s).incoming.partial().dom().contains(pipe),
{
    let keep = |p: router::RouterPeer| p.pipe_read_id != pipe;
    let all = old(s).router_map_for_send.list();
    let rest = all.filter(keep);
    all.lemma_filter_len(keep);
    if 0 <= i < rest.len() {
        all.lemma_filter_pred(keep, i);
    }
}

/// ROUTER_MANDATORY is switched by four bytes that are not all zero, AUTO_DELIMITER is switched
/// off by four zeros, and nothing else is an option of the pattern.
pub proof fn router_options_are_switches(
    s: &mut RouterSocket,
    core: &mut CoreState,
    option: i32,
    value: &Vec<u8>,
    r: Result<(), ZmqError>,
)
    requires
        call_ensures(RouterSocket::set_pattern_option, (s, core, option, value), r),
    ensures
        r is Ok <==> (option == ROUTER_MANDATORY || option == AUTO_DELIMITER) && value@.len() == 4,
        r is Err ==> *final(core) == *old(core),
        option != ROUTER_MANDATORY && option != AUTO_DELIMITER ==> (r matches Err(e)
            && e is UnsupportedOption),
        (option == ROUTER_MANDATORY || option == AUTO_DELIMITER) && value@.len() != 4 ==> (
        r matches Err(e) && e is InvalidOptionValue),
        r is Ok && option == ROUTER_MANDATORY ==> (final(core).options.router_mandatory <==> exists|
            i: int,
        |
            0 <= i < 4 && #[trigger] value@[i] != 0) && final(s).framing.spec_manual() == old(s).framing.spec_manual(),
        r is Ok && option == AUTO_DELIMITER ==> (final(s).framing.spec_manual() <==> old(s).framing.spec_manual() || (forall|i: int| 0 <= i < 4 ==> #[trigger] value@[i] == 0))
            && final(core).options == old(core).options,
        old(s).framing.spec_manual() ==> final(s).framing.spec_manual(),
{
    let zeros = seq![0u8, 0, 0, 0];
    if value@.len() == 4 {
        if forall|i: int| 0 <= i < 4 ==> #[trigger] value@[i] == 0 {
            assert(value@ =~= zeros);
        } else {
            let i = choose|i: int| 0 <= i < 4 && #[trigger] value@[i] != 0;
            assert(zeros[i] == 0);
        }
    }
}

/// An option is read back as it is set.
pub proof fn router_options_read_back(
    s: &RouterSocket,
    core: &CoreState,
    option: i32,
    r: Result<Vec<u8>, ZmqError>,
)
    requires
        call_ensures(RouterSocket::get_pattern_option, (s, core, option), r),
    ensures
        r is Ok <==> option == ROUTER_MANDATORY || option == AUTO_DELIMITER,
        r matches Ok(v) ==> v@.len() == 4,
        r is Ok && option == ROUTER_MANDATORY ==> (core.options.router_mandatory <==> exists|i: int|
            0 <= i < 4 && #[trigger] r->Ok_0@[i] != 0),
        r is Ok && option == AUTO_DELIMITER ==> (s.framing.spec_manual() <==> forall|i: int|
            0 <= i < 4 ==> #[trigger] r->Ok_0@[i] == 0),
        ROUTER_MANDATORY != AUTO_DELIMITER,
{
    if r is Ok {
        let v = r->Ok_0@;
        assert(types::low_first(1)[0] == 1);
        assert(types::high_first(1)[3] == 1);
        if v == types::low_first(1) {
            assert(v[0] != 0);
        }
        if v == types::high_first(1) {
            assert(v[3] != 0);
        }
    }
}

/// A new ROUTER knows nobody, and stopping keeps what waits.
pub proof fn router_starts_empty(core: &CoreState, fresh: RouterSocket, s: &mut RouterSocket)
    requires
        call_ensures(RouterSocket::new, (core,), fresh),
        call_ensures(RouterSocket::stop, (s,), ()),
    ensures
        fresh.router_map_for_send.list().len() == 0,
        fresh.current_send_target is None,
        !fresh.framing.spec_manual(),
        core.options.rcvhwm > 0 ==> fresh.incoming.capacity() == core.options.rcvhwm,
        final(s).incoming.is_closed() && final(s).incoming.queued() == old(s).incoming.queued(),
{
}

/// The identity that stands for a peer which has given none names the peer's pipe, in decimal
/// digits.
pub proof fn placeholder_names_the_pipe(pipe: usize, v: Vec<u8>)
    requires
        call_ensures(RouterSocket::pipe_id_to_placeholder_identity, (pipe,), v),
    ensures
        v@ == vstd::utf8::encode_utf8("pipe:"@ + text::decimal_text(pipe as nat)),
        placeholder_identity(pipe) == v@,
{
}

/// A message is shown as its sender's identity and its frames, and the sender is found by the
/// pipe that the message came on.
pub proof fn message_and_sender_are_put_together(
    s: &RouterSocket,
    core: &CoreState,
    pipe: usize,
    raw: Vec<Msg>,
    r: (Vec<u8>, Vec<Msg>),
    identity: Vec<u8>,
    payload: Vec<Msg>,
    shown: Vec<Msg>,
)
    requires
        call_ensures(RouterSocket::process_incoming_zmtp_message, (s, core, pipe, raw), r),
        call_ensures(RouterSocket::transform_qitem_to_app_frames, (identity, payload), shown),
    ensures
        s.identities().dom().contains(pipe) ==> r.0@ == s.identities()[pipe],
        !s.identities().dom().contains(pipe) ==> r.0@ == placeholder_identity(pipe),
        raw@.len() == 0 || raw@[0]@.data.len() > 0 || s.framing.spec_manual() ==> r.1@ == raw@,
        r.1@ == raw@ || r.1@ == raw@.skip(1),
        shown@.len() == payload@.len() + 1,
        shown@[0]@.data == identity@,
        !shown@.last()@.more,
{
    let w = app_frames(identity@, message::frames_of(payload@));
    assert(message::frames_of(shown@).len() == w.len());
    assert(message::frames_of(shown@)[0] == w[0]);
    assert(message::frames_of(shown@)[shown@.len() - 1] == w[shown@.len() - 1]);
}

/// An option that a ROUTER does not have is named in the error, to be set and to be read, and
/// so is one whose value has the wrong size; a refused option changes nothing.
pub proof fn router_names_the_option_it_refuses(
    s: &RouterSocket,
    t: &mut RouterSocket,
    core: &CoreState,
    changed: &mut CoreState,
    option: i32,
    value: &Vec<u8>,
    set: Result<(), ZmqError>,
    got: Result<Vec<u8>, ZmqError>,
)
    requires
        call_ensures(RouterSocket::set_pattern_option, (t, changed, option, value), set),
        call_ensures(RouterSocket::get_pattern_option, (s, core, option), got),
    ensures
        set is Ok <==> (option == ROUTER_MANDATORY || option == AUTO_DELIMITER) && value@.len()
            == 4,
        got is Ok <==> option == ROUTER_MANDATORY || option == AUTO_DELIMITER,
        option != ROUTER_MANDATORY && option != AUTO_DELIMITER ==> set == Err::<(), ZmqError>(
            ZmqError::UnsupportedOption(option),
        ) && got == Err::<Vec<u8>, ZmqError>(ZmqError::UnsupportedOption(option)),
        (option == ROUTER_MANDATORY || option == AUTO_DELIMITER) && value@.len() != 4 ==> set
            == Err::<(), ZmqError>(ZmqError::InvalidOptionValue(option)),
        set is Err ==> *final(changed) == *old(changed),
        final(t).router_map_for_send == old(t).router_map_for_send,
        final(t).incoming == old(t).incoming,
        final(t).pipe_to_identity == old(t).pipe_to_identity,
        final(t).current_send_target == old(t).current_send_target,
        final(t).pipe_send_coordinator == old(t).pipe_send_coordinator,
{
}

/// A peer that comes, or becomes known by another identity, is entered last, with its pipe and
/// its endpoint. Coming again leaves the pipe as it is, and neither touches the pipes of others,
/// what has arrived, or a message that is being sent.
pub proof fn peer_is_entered_with_its_pipe(
    a: &mut RouterSocket,
    b: &mut RouterSocket,
    core: &CoreState,
    pipe: usize,
    identity: Option<&Vec<u8>>,
    named: Option<Vec<u8>>,
    other: usize,
)
    requires
        call_ensures(RouterSocket::pipe_attached, (a, core, pipe, identity), ()),
        call_ensures(RouterSocket::update_peer_identity, (b, core, pipe, named), ()),
        known_pipe(*core, pipe),
        other != pipe,
    ensures
        final(a).router_map_for_send.list().last().pipe_read_id == pipe,
        final(a).router_map_for_send.list().last().uri == core.pipe_read_id_to_endpoint_uri@[pipe],
        final(a).router_map_for_send.list().last().identity@ == final(a).identities()[pipe],
        final(a).router_map_for_send.list().last().peer_socket_type is None,
        final(b).router_map_for_send.list().last().pipe_read_id == pipe,
        final(b).router_map_for_send.list().last().uri == core.pipe_read_id_to_endpoint_uri@[pipe],
        final(b).router_map_for_send.list().last().identity@ == final(b).identities()[pipe],
        final(b).router_map_for_send.list().last().peer_type() == peer_type(*core, pipe),
        final(a).pipe_send_coordinator.pipes().dom().contains(pipe),
        old(a).pipe_send_coordinator.pipes().dom().contains(pipe)
            ==> final(a).pipe_send_coordinator == old(a).pipe_send_coordinator,
        final(a).pipe_send_coordinator.pipes().dom().contains(other)
            <==> old(a).pipe_send_coordinator.pipes().dom().contains(other),
        old(a).pipe_send_coordinator.pipes().dom().contains(other)
            ==> final(a).pipe_send_coordinator.pipes()[other]
            == old(a).pipe_send_coordinator.pipes()[other],
        final(b).pipe_send_coordinator == old(b).pipe_send_coordinator,
        final(a).identities().dom().contains(other) <==> old(a).identities().dom().contains(other),
        final(b).identities().dom().contains(other) <==> old(b).identities().dom().contains(other),
        final(a).incoming == old(a).incoming,
        final(b).incoming == old(b).incoming,
        final(a).framing == old(a).framing,
        final(b).framing == old(b).framing,
        final(a).current_send_target == old(a).current_send_target,
        final(b).current_send_target == old(b).current_send_target,
{
    let x = old(a).pipe_send_coordinator.pipes();
    let y = final(a).pipe_send_coordinator.pipes();
    assert(y.dom().contains(other) <==> x.dom().insert(pipe).contains(other));
    if x.dom().contains(other) {
        assert(x.remove(pipe)[other] == x[other]);
        assert(y.remove(pipe)[other] == y[other]);
    }
}

/// A pipe that the core does not know enters nobody.
pub proof fn unknown_pipe_enters_nobody(
    a: &mut RouterSocket,
    b: &mut RouterSocket,
    core: &CoreState,
    pipe: usize,
    identity: Option<&Vec<u8>>,
    named: Option<Vec<u8>>,
)
    requires
        call_ensures(RouterSocket::pipe_attached, (a, core, pipe, identity), ()),
        call_ensures(RouterSocket::update_peer_identity, (b, core, pipe, named), ()),
    ensures
        !known_pipe(*core, pipe) ==> *final(a) == *old(a),
        !core.pipe_read_id_to_endpoint_uri@.dom().contains(pipe) ==> *final(b) == *old(b),
{
}

/// A peer that goes takes its own pipe, identity and unfinished message with it, and those of
/// nobody else; a message that was being sent to another goes on.
pub proof fn gone_peer_takes_only_its_own(
    s: &mut RouterSocket,
    core: &CoreState,
    pipe: usize,
    other: usize,
)
    requires
        call_ensures(RouterSocket::pipe_detached, (s, core, pipe), ()),
        other != pipe,
    ensures
        !final(s).pipe_send_coordinator.pipes().dom().contains(pipe),
        !final(s).identities().dom().contains(pipe),
        !final(s).incoming.partial().dom().contains(pipe),
        final(s).pipe_send_coordinator.pipes().dom().contains(other)
            <==> old(s).pipe_send_coordinator.pipes().dom().contains(other),
        old(s).pipe_send_coordinator.pipes().dom().contains(other)
            ==> final(s).pipe_send_coordinator.pipes()[other]
            == old(s).pipe_send_coordinator.pipes()[other],
        final(s).identities().dom().contains(other) <==> old(s).identities().dom().contains(other),
        old(s).identities().dom().contains(other) ==> final(s).identities()[other]
            == old(s).identities()[other],
        final(s).incoming.partial().dom().contains(other)
            <==> old(s).incoming.partial().dom().contains(other),
        final(s).incoming.queued() == old(s).incoming.queued(),
        final(s).incoming.capacity() == old(s).incoming.capacity(),
        final(s).incoming.is_closed() == old(s).incoming.is_closed(),
        final(s).framing == old(s).framing,
        !known_pipe(*core, pipe) ==> final(s).current_send_target == old(s).current_send_target,
        old(s).current_send_target matches Some(t) ==> (
        core.pipe_read_id_to_endpoint_uri@[pipe]@ != t.target_endpoint_uri@
            ==> final(s).current_send_target == old(s).current_send_target),
        old(s).current_send_target matches Some(t) ==> (known_pipe(*core, pipe)
            && core.pipe_read_id_to_endpoint_uri@[pipe]@ == t.target_endpoint_uri@
            ==> final(s).current_send_target is None),
{
}

/// The end of a pipe changes nothing by itself; what comes over one changes neither the room
/// nor the peers nor the message that is being read or sent.
pub proof fn end_of_a_pipe_changes_nothing(
    s: &mut RouterSocket,
    core: &CoreState,
    pipe: usize,
    event: PipeEvent,
    r: Result<(), ZmqError>,
)
    requires
        call_ensures(RouterSocket::handle_pipe_event, (s, core, pipe, event), r),
    ensures
        final(s).router_map_for_send == old(s).router_map_for_send,
        final(s).current_send_target == old(s).current_send_target,
        final(s).pipe_send_coordinator == old(s).pipe_send_coordinator,
        event is ClosedByPeer ==> r is Ok && *final(s) == *old(s),
        final(s).incoming.buffered() == old(s).incoming.buffered(),
        final(s).incoming.capacity() == old(s).incoming.capacity(),
        final(s).incoming.is_closed() == old(s).incoming.is_closed(),
{
}

} // verus!
