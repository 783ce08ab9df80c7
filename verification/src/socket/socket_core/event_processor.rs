use vstd::prelude::*;

use fibre::mpmc::{AsyncReceiver, AsyncSender};

use crate::error::ZmqError;
use crate::message::Msg;
use crate::socket::socket_core::pipe_manager;
use crate::socket::socket_core::pipe_manager::{
    cleanup_session_state_by_pipe, handle_inproc_pipe_peer_closed_event,
    process_inproc_binding_request_event, AcceptedInproc, ClosedPipe, StoppedChild,
};
use crate::socket::socket_core::shutdown;
use crate::socket::socket_core::shutdown::{
    handle_actor_stopping_event, initiate_core_shutdown, ActorType, ShutdownOrders,
};
use crate::socket::socket_core::state::{
    ConnectionRef, CoreState, EndpointInfo, EndpointType, ReconnectState, ShutdownCoordinator,
};
use crate::text;
use crate::text::{decimal, joined, same_text};
use crate::time::Instant;

verus! {

/// How the core talks to a new connection.
#[derive(Debug, Clone, Copy, PartialEq, Eq, Structural)]
pub enum ConnectionInteractionModel {
    /// Through the actor that serves the session.
    ViaSca { sca_handle_id: usize },
    /// Through an io_uring descriptor.
    ViaUringFd { fd: usize },
}

/// What a socket's core hears of the system around it.
#[allow(inconsistent_fields)]
#[derive(Debug)]
pub enum SystemEvent {
    ContextTerminating,
    SocketClosing { socket_id: usize },
    ActorStarted { handle_id: usize, actor_type: ActorType, parent_id: Option<usize> },
    ActorStopping {
        handle_id: usize,
        actor_type: ActorType,
        endpoint_uri: Option<String>,
        parent_id: Option<usize>,
        error: Option<ZmqError>,
        /// The error in words.
        error_text: String,
    },
    NewConnectionEstablished {
        parent_core_id: usize,
        endpoint_uri: String,
        target_endpoint_uri: String,
        connection: Option<ConnectionRef>,
        interaction_model: ConnectionInteractionModel,
    },
    PeerIdentityEstablished {
        parent_core_id: usize,
        connection_identifier: usize,
        peer_identity: Option<Vec<u8>>,
        peer_socket_type: Option<String>,
    },
    ConnectionAttemptFailed { parent_core_id: usize, target_endpoint_uri: String, error: ZmqError },
    InprocBindingRequest {
        target_inproc_name: String,
        connector_uri: String,
        pipe_to_connector: AsyncSender<Vec<Msg>>,
        connector_pipe_write_id: usize,
        connector_pipe_read_id: usize,
    },
    InprocPipePeerClosed { target_inproc_name: String, closed_by_connector_pipe_read_id: usize },
}

/// A connection whose actor is being handed its pipe.
#[derive(Debug)]
pub struct PendingAttach {
    pub endpoint_uri: String,
    pub target_endpoint_uri: String,
    pub sca_handle_id: usize,
    /// The end of the pipe that the core keeps.
    pub pipe_to_sca: AsyncSender<Vec<Msg>>,
    pub core_write_id: usize,
    pub core_read_id: usize,
    pub is_outbound: bool,
}

/// What is left to do once a connection has been entered into the tables: the socket
/// pattern is told of its pipes, and what was entered before under its URI is closed.
#[derive(Debug)]
pub struct AttachedConnection {
    pub attached_read_id: usize,
    pub attached_write_id: usize,
    /// The endpoint whose place the new one took.
    pub replaced: Option<EndpointInfo>,
    /// The io_uring descriptor that is now the core's.
    pub register_fd: Option<usize>,
}

/// What is to be done about an event.
#[derive(Debug)]
pub enum EventStep {
    Nothing,
    /// The shutdown has begun, unless it had before.
    ShutDown(Option<ShutdownOrders>),
    ChildStopped(StoppedChild),
    /// Hand the receiving end to the connection's actor and go on with `sca_initialized`.
    InitializeSca(PendingAttach, AsyncReceiver<Vec<Msg>>),
    Attached(AttachedConnection),
    /// The socket is shutting down: close the new connection, and stop its actor.
    CloseOrphan { close: Option<ConnectionRef>, stop_sca: Option<usize> },
    /// Tell the socket pattern of the peer's identity.
    UpdateIdentity { pipe_read_id: usize, identity: Option<Vec<u8>> },
    ConnectFailed { target_endpoint_uri: String, error: ZmqError },
    AcceptedInproc(AcceptedInproc),
    /// Reply to the connecter with this error.
    RefusedInproc(ZmqError),
    /// Tell the socket pattern that the pipe is detached.
    ClosedInproc { pipe_read_id: usize, closed: ClosedPipe },
    /// The event cannot be dealt with; the socket is to shut down.
    Failed(ZmqError),
}

/// How many items a pipe was made to hold.
pub uninterp spec fn pipe_capacity(tx: AsyncSender<Vec<Msg>>) -> nat;

/// What is sent on one can be received on the other: they are ends of one pipe.
pub uninterp spec fn pipe_joins(tx: AsyncSender<Vec<Msg>>, rx: AsyncReceiver<Vec<Msg>>) -> bool;

/// `fibre::mpmc::bounded_async`, for a pipe between two tasks: its two ends. The capacity
/// is the one asked for. It panics for a capacity of 0, and for one whose buffer the machine
/// cannot hold.
#[verifier::external_body]
pub(crate) fn open_pipe(capacity: usize) -> (ends: (
    AsyncSender<Vec<Msg>>,
    AsyncReceiver<Vec<Msg>>,
))
    requires
        capacity > 0,
    ensures
        pipe_capacity(ends.0) == capacity,
        pipe_joins(ends.0, ends.1),
{
    fibre::mpmc::bounded_async(capacity)
}

/// Some listener of the socket has the URI.
pub open spec fn listens_on(listed: Seq<(String, EndpointInfo)>, uri: Seq<char>) -> bool {
    exists|i: int|
        0 <= i < listed.len() && (#[trigger] listed[i]).1.endpoint_type is Listener
            && listed[i].1.endpoint_uri@ == uri
}

fn has_listener(core: &CoreState, uri: &str) -> (b: bool)
    ensures
        b == listens_on(core.endpoints.listed(), uri@),
{
    let mut i: usize = 0;
    while i < core.endpoints.len()
        invariant
            i <= core.endpoints.listed().len(),
            forall|j: int|
                0 <= j < i ==> !((#[trigger] core.endpoints.listed()[j]).1.endpoint_type is Listener
                    && core.endpoints.listed()[j].1.endpoint_uri@ == uri@),
        decreases core.endpoints.listed().len() - i,
    {
        let (_, info) = core.endpoints.entry(i);
        if info.endpoint_type == EndpointType::Listener && same_text(
            info.endpoint_uri.as_str(),
            uri,
        ) {
            return true;
        }
        i += 1;
    }
    false
}

/// The tables after a connection has been entered into them.
pub open spec fn connection_entered(
    before: CoreState,
    after: CoreState,
    uri: String,
    info: EndpointInfo,
    read_id: usize,
    replaced: Option<EndpointInfo>,
) -> bool {
    &&& after.same_settings(before)
    &&& after.pipe_reader_tasks == before.pipe_reader_tasks
    &&& after.endpoints@ == before.endpoints@.insert(uri@, info)
    &&& after.pipe_read_id_to_endpoint_uri@ == before.pipe_read_id_to_endpoint_uri@.insert(
        read_id,
        uri,
    )
    &&& replaced == if before.endpoints@.dom().contains(uri@) {
        Some(before.endpoints@[uri@])
    } else {
        None
    }
}

/// The entry of a new connection.
pub open spec fn session_entry(
    uri: String,
    target: String,
    handle_id: usize,
    write_id: usize,
    read_id: usize,
    is_outbound: bool,
    connection: ConnectionRef,
) -> EndpointInfo {
    EndpointInfo {
        task: None,
        endpoint_type: EndpointType::Session,
        endpoint_uri: uri,
        pipe_ids: Some((write_id, read_id)),
        handle_id,
        target_endpoint_uri: Some(target),
        is_outbound_connection: is_outbound,
        peer_socket_type: None,
        connection,
    }
}

/// What a new connection changes and what is to be done about it.
pub open spec fn new_connection_handled(
    core0: CoreState,
    core1: CoreState,
    endpoint_uri: String,
    target_endpoint_uri: String,
    connection: Option<ConnectionRef>,
    interaction_model: ConnectionInteractionModel,
    fresh: (usize, usize),
    r: EventStep,
) -> bool {
    match interaction_model {
        ConnectionInteractionModel::ViaSca { sca_handle_id } => {
            &&& core1 == core0
            &&& r matches EventStep::InitializeSca(p, from_core)
            &&& p.endpoint_uri == endpoint_uri
            &&& p.target_endpoint_uri == target_endpoint_uri
            &&& p.sca_handle_id == sca_handle_id
            &&& p.core_write_id == fresh.0
            &&& p.core_read_id == fresh.1
            &&& p.is_outbound == !listens_on(core0.endpoints.listed(), target_endpoint_uri@)
            &&& pipe_joins(p.pipe_to_sca, from_core)
            &&& pipe_capacity(p.pipe_to_sca) == if core0.options.sndhwm == 0 {
                1
            } else {
                core0.options.sndhwm as int
            }
        },
        ConnectionInteractionModel::ViaUringFd { fd } => match connection {
            None => core1 == core0 && (r matches EventStep::Failed(
                ZmqError::Internal(m),
            ) && m@ == "UringFdConnection missing from NewConnectionEstablished event"@),
            Some(c) => {
                &&& r matches EventStep::Attached(a)
                &&& connection_entered(
                    core0,
                    core1,
                    endpoint_uri,
                    session_entry(
                        endpoint_uri,
                        target_endpoint_uri,
                        fd,
                        fresh.1,
                        fresh.0,
                        !listens_on(core0.endpoints.listed(), target_endpoint_uri@),
                        c,
                    ),
                    fresh.0,
                    a.replaced,
                )
                &&& core1.pipes_tx == core0.pipes_tx
                &&& core1.uring_fd_to_endpoint_uri@ == core0.uring_fd_to_endpoint_uri@.insert(fd, endpoint_uri)
                &&& a.attached_read_id == fresh.0
                &&& a.attached_write_id == fresh.1
                &&& a.register_fd == Some(fd)
            },
        },
    }
}

/// A connection of this socket was established. It counts as an outgoing one unless the
/// socket listens on its target. A connection that is served by an actor gets a pipe, and
/// is entered once the actor has it; one by descriptor is entered at once. `fresh` are two
/// handles that are not in use: for an actor's connection the write pipe comes first, for
/// a descriptor the read pipe.
pub fn handle_new_connection_established(
    core: &mut CoreState,
    endpoint_uri: String,
    target_endpoint_uri: String,
    connection: Option<ConnectionRef>,
    interaction_model: ConnectionInteractionModel,
    fresh: (usize, usize),
) -> (r: EventStep)
    ensures
        new_connection_handled(
            *old(core),
            *final(core),
            endpoint_uri,
            target_endpoint_uri,
            connection,
            interaction_model,
            fresh,
            r,
        ),
{
    let is_outbound: bool = !has_listener(core, target_endpoint_uri.as_str());
    match interaction_model {
        ConnectionInteractionModel::ViaSca { sca_handle_id } => {
            let capacity: usize = if core.options.sndhwm == 0 {
                1
            } else {
                core.options.sndhwm
            };
            let (pipe_to_sca, pipe_from_core) = open_pipe(capacity);
            EventStep::InitializeSca(
                PendingAttach {
                    endpoint_uri,
                    target_endpoint_uri,
                    sca_handle_id,
                    pipe_to_sca,
                    core_write_id: fresh.0,
                    core_read_id: fresh.1,
                    is_outbound,
                },
                pipe_from_core,
            )
        },
        ConnectionInteractionModel::ViaUringFd { fd } => {
            let connection = match connection {
                Some(c) => c,
                None => {
                    return EventStep::Failed(
                        ZmqError::Internal(
                            "UringFdConnection missing from NewConnectionEstablished event".to_owned(),
                        ),
                    );
                },
            };
            let info = EndpointInfo {
                task: None,
                endpoint_type: EndpointType::Session,
                endpoint_uri: endpoint_uri.clone(),
                pipe_ids: Some((fresh.1, fresh.0)),
                handle_id: fd,
                target_endpoint_uri: Some(target_endpoint_uri),
                is_outbound_connection: is_outbound,
                peer_socket_type: None,
                connection,
            };
            let replaced = core.endpoints.insert(endpoint_uri.clone(), info);
            let _ = core.pipe_read_id_to_endpoint_uri.insert(fresh.0, endpoint_uri.clone());
            let _ = core.uring_fd_to_endpoint_uri.insert(fd, endpoint_uri);
            EventStep::Attached(
                AttachedConnection {
                    attached_read_id: fresh.0,
                    attached_write_id: fresh.1,
                    replaced,
                    register_fd: Some(fd),
                },
            )
        },
    }
}

/// Enters a connection whose actor has been handed its pipe, or fails where the actor
/// could not be reached.
pub fn sca_initialized(core: &mut CoreState, pending: PendingAttach, reached: bool) -> (r: Result<
    AttachedConnection,
    ZmqError,
>)
    ensures
        if reached {
            &&& r matches Ok(a)
            &&& connection_entered(
                *old(core),
                *final(core),
                pending.endpoint_uri,
                session_entry(
                    pending.endpoint_uri,
                    pending.target_endpoint_uri,
                    pending.sca_handle_id,
                    pending.core_write_id,
                    pending.core_read_id,
                    pending.is_outbound,
                    ConnectionRef { id: pending.sca_handle_id, is_uring: false },
                ),
                pending.core_read_id,
                a.replaced,
            )
            &&& final(core).pipes_tx@ == old(core).pipes_tx@.insert(
                pending.core_write_id,
                pending.pipe_to_sca,
            )
            &&& final(core).uring_fd_to_endpoint_uri == old(core).uring_fd_to_endpoint_uri
            &&& a.attached_read_id == pending.core_read_id
            &&& a.attached_write_id == pending.core_write_id
            &&& a.register_fd is None
        } else {
            &&& *final(core) == *old(core)
            &&& r matches Err(ZmqError::Internal(m)) && m@
                == "Failed to send ScaInitializePipes to SCA "@ + text::decimal_text(
                pending.sca_handle_id as nat,
            )
        },
{
    if !reached {
        let number = decimal(pending.sca_handle_id);
        return Err(
            ZmqError::Internal(
                joined("Failed to send ScaInitializePipes to SCA ", number.as_str()),
            ),
        );
    }
    let info = EndpointInfo {
        task: None,
        endpoint_type: EndpointType::Session,
        endpoint_uri: pending.endpoint_uri.clone(),
        pipe_ids: Some((pending.core_write_id, pending.core_read_id)),
        handle_id: pending.sca_handle_id,
        target_endpoint_uri: Some(pending.target_endpoint_uri),
        is_outbound_connection: pending.is_outbound,
        peer_socket_type: None,
        connection: ConnectionRef { id: pending.sca_handle_id, is_uring: false },
    };
    let _ = core.pipes_tx.insert(pending.core_write_id, pending.pipe_to_sca);
    let replaced = core.endpoints.insert(pending.endpoint_uri.clone(), info);
    let _ = core.pipe_read_id_to_endpoint_uri.insert(pending.core_read_id, pending.endpoint_uri);
    Ok(
        AttachedConnection {
            attached_read_id: pending.core_read_id,
            attached_write_id: pending.core_write_id,
            replaced,
            register_fd: None,
        },
    )
}

/// The text in an optional `String`, borrowed.
fn borrowed(s: &Option<String>) -> (r: Option<&str>)
    ensures
        pipe_manager::text_of(r) == text_in(*s),
{
    match s {
        Some(t) => Some(t.as_str()),
        None => None,
    }
}

/// The text in an optional `String`.
pub open spec fn text_in(s: Option<String>) -> Option<Seq<char>> {
    match s {
        Some(t) => Some(t@),
        None => None,
    }
}

/// The times that an event may set can be represented.
pub open spec fn event_times_fit(
    coordinator: ShutdownCoordinator,
    core: CoreState,
    event: SystemEvent,
    now: Instant,
) -> bool {
    event matches SystemEvent::ActorStopping { endpoint_uri, parent_id, .. } ==> (parent_id == Some(
        core.handle,
    ) ==> shutdown::stop_times_fit(coordinator, core, text_in(endpoint_uri), now))
}

/// The tables after the identity of a peer has become known: its socket type is entered,
/// and its connection counts as a success.
pub open spec fn identity_entered(
    before: CoreState,
    after: CoreState,
    pipe: usize,
    peer_socket_type: Option<String>,
) -> bool {
    let uri = before.pipe_read_id_to_endpoint_uri@[pipe]@;
    let known = before.pipe_read_id_to_endpoint_uri@.dom().contains(pipe);
    &&& after == (CoreState {
        endpoints: after.endpoints,
        reconnect_states: after.reconnect_states,
        ..before
    })
    &&& after.endpoints@ == if known && before.endpoints@.dom().contains(uri) {
        before.endpoints@.insert(
            uri,
            EndpointInfo { peer_socket_type, ..before.endpoints@[uri] },
        )
    } else {
        before.endpoints@
    }
    &&& after.reconnect_states@ == if known && before.reconnect_states@.dom().contains(uri) {
        before.reconnect_states@.insert(
            uri,
            ReconnectState { current_attempts: 0, next_attempt_at: None },
        )
    } else {
        before.reconnect_states@
    }
}

fn enter_identity(core: &mut CoreState, pipe: usize, peer_socket_type: Option<String>)
    ensures
        identity_entered(*old(core), *final(core), pipe, peer_socket_type),
{
    if let Some(uri) = core.uri_of_pipe(pipe) {
        if let Some(info) = core.endpoints.remove(uri.as_str()) {
            let mut info = info;
            info.peer_socket_type = peer_socket_type;
            let _ = core.endpoints.insert(uri.clone(), info);
            assert(core.endpoints@ =~= old(core).endpoints@.insert(uri@, info));
        }
        if core.reconnect_states.contains_key(uri.as_str()) {
            let mut record = ReconnectState::default();
            record.on_connection_success();
            let _ = core.reconnect_states.insert(uri, record);
        }
    }
}

/// What an event changes and what is to be done about it.
pub open spec fn event_processed(
    coord0: ShutdownCoordinator,
    core0: CoreState,
    coord1: ShutdownCoordinator,
    core1: CoreState,
    event: SystemEvent,
    fresh: (usize, usize),
    now: Instant,
    r: EventStep,
) -> bool {
    let unchanged = coord1 == coord0 && core1 == core0;
    let running = coord0.state is Running;
    match event {
        SystemEvent::ContextTerminating => {
            &&& core1 == core0
            &&& r matches EventStep::ShutDown(o)
            &&& shutdown::shutdown_begun(coord0, coord1, core0, o)
        },
        SystemEvent::SocketClosing { socket_id } => if socket_id == core0.handle {
            &&& core1 == core0
            &&& r matches EventStep::ShutDown(o)
            &&& shutdown::shutdown_begun(coord0, coord1, core0, o)
        } else {
            unchanged && r is Nothing
        },
        SystemEvent::ActorStarted { .. } => unchanged && r is Nothing,
        SystemEvent::ActorStopping {
            handle_id,
            actor_type,
            endpoint_uri,
            parent_id,
            error,
            error_text,
        } => if parent_id == Some(core0.handle) {
            &&& r matches EventStep::ChildStopped(c)
            &&& shutdown::child_taken_out(
                core0,
                core1,
                handle_id,
                text_in(endpoint_uri),
                error,
                error_text@,
                c,
            )
            &&& shutdown::reconnect_set(
                coord0,
                core0,
                core1,
                text_in(endpoint_uri),
                c.should_reconnect,
                now,
            )
            &&& shutdown::child_counted(
                coord0,
                coord1,
                core0.options.linger,
                handle_id,
                actor_type,
                now,
            )
        } else {
            unchanged && r is Nothing
        },
        SystemEvent::NewConnectionEstablished {
            parent_core_id,
            endpoint_uri,
            target_endpoint_uri,
            connection,
            interaction_model,
        } => if parent_core_id != core0.handle {
            unchanged && r is Nothing
        } else if running {
            &&& coord1 == coord0
            &&& new_connection_handled(
                core0,
                core1,
                endpoint_uri,
                target_endpoint_uri,
                connection,
                interaction_model,
                fresh,
                r,
            )
        } else {
            &&& unchanged
            &&& r == EventStep::CloseOrphan {
                close: connection,
                stop_sca: match interaction_model {
                    ConnectionInteractionModel::ViaSca { sca_handle_id } => Some(sca_handle_id),
                    ConnectionInteractionModel::ViaUringFd { .. } => None,
                },
            }
        },
        SystemEvent::PeerIdentityEstablished {
            parent_core_id,
            connection_identifier,
            peer_identity,
            peer_socket_type,
        } => if parent_core_id == core0.handle && running {
            &&& coord1 == coord0
            &&& identity_entered(core0, core1, connection_identifier, peer_socket_type)
            &&& r == EventStep::UpdateIdentity {
                pipe_read_id: connection_identifier,
                identity: peer_identity,
            }
        } else {
            unchanged && r is Nothing
        },
        SystemEvent::ConnectionAttemptFailed { parent_core_id, target_endpoint_uri, error } => {
            &&& unchanged
            &&& r == if parent_core_id == core0.handle {
                EventStep::ConnectFailed { target_endpoint_uri, error }
            } else {
                EventStep::Nothing
            }
        },
        SystemEvent::InprocBindingRequest {
            target_inproc_name,
            connector_uri,
            pipe_to_connector,
            connector_pipe_write_id,
            connector_pipe_read_id,
        } => if !core0.bound_inproc_names@.dom().contains(target_inproc_name@) {
            unchanged && r is Nothing
        } else if running {
            &&& coord1 == coord0
            &&& r matches EventStep::AcceptedInproc(a)
            &&& pipe_manager::inproc_entered(
                core0,
                core1,
                connector_uri,
                pipe_to_connector,
                connector_pipe_read_id,
                connector_pipe_write_id,
                fresh.0,
                ConnectionRef { id: fresh.0, is_uring: false },
                a,
            )
        } else {
            &&& unchanged
            &&& r matches EventStep::RefusedInproc(ZmqError::InvalidState(m)) && m@
                == "Binder socket is shutting down"@
        },
        SystemEvent::InprocPipePeerClosed {
            target_inproc_name,
            closed_by_connector_pipe_read_id,
        } => {
            let pipe = pipe_manager::read_pipe_of_writer(core0, closed_by_connector_pipe_read_id);
            if core0.bound_inproc_names@.dom().contains(target_inproc_name@) && pipe is Some {
                &&& coord1 == coord0
                &&& r matches EventStep::ClosedInproc { pipe_read_id, closed }
                &&& pipe_read_id == pipe->0
                &&& pipe_manager::pipe_cleaned_up(core0, core1, pipe_read_id, closed)
            } else {
                unchanged && r is Nothing
            }
        },
    }
}

/// Deals with what the core hears of the system around it. `fresh` are two handles that
/// are not in use.
pub fn process_system_event(
    coordinator: &mut ShutdownCoordinator,
    core: &mut CoreState,
    event: SystemEvent,
    fresh: (usize, usize),
    now: Instant,
) -> (r: EventStep)
    requires
        event_times_fit(*old(coordinator), *old(core), event, now),
    ensures
        final(coordinator).state.rank() >= old(coordinator).state.rank(),
        event_processed(
            *old(coordinator),
            *old(core),
            *final(coordinator),
            *final(core),
            event,
            fresh,
            now,
            r,
        ),
{
    match event {
        SystemEvent::ContextTerminating => EventStep::ShutDown(
            initiate_core_shutdown(coordinator, core),
        ),
        SystemEvent::SocketClosing { socket_id } => if socket_id == core.handle {
            EventStep::ShutDown(initiate_core_shutdown(coordinator, core))
        } else {
            EventStep::Nothing
        },
        SystemEvent::ActorStarted { .. } => EventStep::Nothing,
        SystemEvent::ActorStopping {
            handle_id,
            actor_type,
            endpoint_uri,
            parent_id,
            error,
            error_text,
        } => {
            let mine: bool = match parent_id {
                Some(p) => p == core.handle,
                None => false,
            };
            if !mine {
                return EventStep::Nothing;
            }
            EventStep::ChildStopped(
                handle_actor_stopping_event(
                    coordinator,
                    core,
                    handle_id,
                    actor_type,
                    borrowed(&endpoint_uri),
                    error.as_ref(),
                    error_text.as_str(),
                    now,
                ),
            )
        },
        SystemEvent::NewConnectionEstablished {
            parent_core_id,
            endpoint_uri,
            target_endpoint_uri,
            connection,
            interaction_model,
        } => {
            if parent_core_id != core.handle {
                return EventStep::Nothing;
            }
            if coordinator.is_running() {
                handle_new_connection_established(
                    core,
                    endpoint_uri,
                    target_endpoint_uri,
                    connection,
                    interaction_model,
                    fresh,
                )
            } else {
                EventStep::CloseOrphan {
                    close: connection,
                    stop_sca: match interaction_model {
                        ConnectionInteractionModel::ViaSca { sca_handle_id } => Some(sca_handle_id),
                        ConnectionInteractionModel::ViaUringFd { .. } => None,
                    },
                }
            }
        },
        SystemEvent::PeerIdentityEstablished {
            parent_core_id,
            connection_identifier,
            peer_identity,
            peer_socket_type,
        } => {
            if parent_core_id == core.handle && coordinator.is_running() {
                enter_identity(core, connection_identifier, peer_socket_type);
                EventStep::UpdateIdentity {
                    pipe_read_id: connection_identifier,
                    identity: peer_identity,
                }
            } else {
                EventStep::Nothing
            }
        },
        SystemEvent::ConnectionAttemptFailed { parent_core_id, target_endpoint_uri, error } => {
            if parent_core_id == core.handle {
                EventStep::ConnectFailed { target_endpoint_uri, error }
            } else {
                EventStep::Nothing
            }
        },
        SystemEvent::InprocBindingRequest {
            target_inproc_name,
            connector_uri,
            pipe_to_connector,
            connector_pipe_write_id,
            connector_pipe_read_id,
        } => {
            if !core.bound_inproc_names.contains_key(target_inproc_name.as_str()) {
                return EventStep::Nothing;
            }
            if coordinator.is_running() {
                EventStep::AcceptedInproc(
                    process_inproc_binding_request_event(
                        core,
                        connector_uri,
                        pipe_to_connector,
                        connector_pipe_read_id,
                        connector_pipe_write_id,
                        fresh.0,
                        ConnectionRef { id: fresh.0, is_uring: false },
                    ),
                )
            } else {
                EventStep::RefusedInproc(
                    ZmqError::InvalidState("Binder socket is shutting down".to_owned()),
                )
            }
        },
        SystemEvent::InprocPipePeerClosed {
            target_inproc_name,
            closed_by_connector_pipe_read_id,
        } => {
            if !core.bound_inproc_names.contains_key(target_inproc_name.as_str()) {
                return EventStep::Nothing;
            }
            match handle_inproc_pipe_peer_closed_event(core, closed_by_connector_pipe_read_id) {
                Some(pipe_read_id) => {
                    let closed = cleanup_session_state_by_pipe(core, pipe_read_id);
                    EventStep::ClosedInproc { pipe_read_id, closed }
                },
                None => EventStep::Nothing,
            }
        },
    }
}

// ---------------------------------------------------------------------------
// Laws
// ---------------------------------------------------------------------------
/// A connection is an outgoing one unless a listener of the socket has its target's URI.
pub proof fn accepted_connections_come_from_listeners(
    core: &mut CoreState,
    uri: String,
    target: String,
    connection: Option<ConnectionRef>,
    sca: usize,
    fresh: (usize, usize),
    r: EventStep,
)
    requires
        call_ensures(
            handle_new_connection_established,
            (
                core,
                uri,
                target,
                connection,
                ConnectionInteractionModel::ViaSca { sca_handle_id: sca },
                fresh,
            ),
            r,
        ),
    ensures
        *final(core) == *old(core),
        r matches EventStep::InitializeSca(p, rx) && {
            &&& p.is_outbound <==> forall|i: int|
                0 <= i < old(core).endpoints.listed().len() ==> ((#[trigger] old(core).endpoints.listed()[i]).1.endpoint_type is Session || old(core).endpoints.listed()[i].1.endpoint_uri@ != target@)
            &&& p.endpoint_uri == uri
            &&& p.target_endpoint_uri == target
            &&& p.sca_handle_id == sca
            &&& p.core_write_id == fresh.0
            &&& p.core_read_id == fresh.1
            &&& pipe_joins(p.pipe_to_sca, rx)
            &&& old(core).options.sndhwm > 0 ==> pipe_capacity(p.pipe_to_sca) == old(core).options.sndhwm
            &&& old(core).options.sndhwm == 0 ==> pipe_capacity(p.pipe_to_sca) == 1
        },
{
}

/// A connection by descriptor is entered at once under its URI, with its own pipes; one without
/// a connection is an error.
pub proof fn descriptor_is_entered_at_once(
    core: &mut CoreState,
    uri: String,
    target: String,
    connection: Option<ConnectionRef>,
    fd: usize,
    fresh: (usize, usize),
    r: EventStep,
    other: Seq<char>,
)
    requires
        call_ensures(
            handle_new_connection_established,
            (
                core,
                uri,
                target,
                connection,
                ConnectionInteractionModel::ViaUringFd { fd },
                fresh,
            ),
            r,
        ),
        other != uri@,
    ensures
        connection is None ==> (r matches EventStep::Failed(e) && e is Internal) && *final(core)
            == *old(core),
        connection matches Some(c) ==> {
            &&& r matches EventStep::Attached(a)
            &&& a.attached_read_id == fresh.0 && a.attached_write_id == fresh.1 && a.register_fd
                == Some(fd)
            &&& final(core).endpoints@.dom().contains(uri@)
            &&& final(core).endpoints@[uri@].connection == c
            &&& final(core).endpoints@[uri@].pipe_ids == Some((fresh.1, fresh.0))
            &&& final(core).endpoints@[uri@].handle_id == fd
            &&& final(core).endpoints@[uri@].endpoint_type is Session
            &&& final(core).endpoints@[uri@].target_endpoint_uri == Some(target)
            &&& final(core).endpoints@[uri@].is_outbound_connection == !listens_on(
                old(core).endpoints.listed(),
                target@,
            )
            &&& final(core).pipe_read_id_to_endpoint_uri@[fresh.0] == uri
            &&& final(core).uring_fd_to_endpoint_uri@[fd] == uri
            &&& old(core).endpoints@.dom().contains(uri@) ==> a.replaced == Some(
                old(core).endpoints@[uri@],
            )
            &&& !old(core).endpoints@.dom().contains(uri@) ==> a.replaced is None
        },
        final(core).endpoints@.dom().contains(other) <==> old(core).endpoints@.dom().contains(
            other,
        ),
{
}

/// A connection whose actor has its pipe is entered with that pipe; where the actor could not
/// be reached nothing is entered.
pub proof fn initialized_connection_is_entered(
    core: &mut CoreState,
    p: PendingAttach,
    reached: bool,
    r: Result<AttachedConnection, ZmqError>,
)
    requires
        call_ensures(sca_initialized, (core, p, reached), r),
    ensures
        r is Ok <==> reached,
        !reached ==> *final(core) == *old(core) && r->Err_0 is Internal,
        reached ==> {
            &&& final(core).pipes_tx@.dom().contains(p.core_write_id)
            &&& final(core).pipes_tx@[p.core_write_id] == p.pipe_to_sca
            &&& final(core).endpoints@.dom().contains(p.endpoint_uri@)
            &&& final(core).endpoints@[p.endpoint_uri@].connection.id == p.sca_handle_id
            &&& !final(core).endpoints@[p.endpoint_uri@].connection.is_uring
            &&& final(core).endpoints@[p.endpoint_uri@].pipe_ids == Some(
                (p.core_write_id, p.core_read_id),
            )
            &&& final(core).endpoints@[p.endpoint_uri@].endpoint_type is Session
            &&& final(core).endpoints@[p.endpoint_uri@].is_outbound_connection == p.is_outbound
            &&& final(core).endpoints@[p.endpoint_uri@].target_endpoint_uri == Some(
                p.target_endpoint_uri,
            )
            &&& final(core).endpoints@[p.endpoint_uri@].handle_id == p.sca_handle_id
            &&& final(core).pipe_read_id_to_endpoint_uri@[p.core_read_id] == p.endpoint_uri
            &&& r->Ok_0.attached_read_id == p.core_read_id && r->Ok_0.attached_write_id
                == p.core_write_id && r->Ok_0.register_fd is None
        },
{
}

/// The end of the context, and of this very socket, begins its shutdown; the end of another
/// socket is none of its affair.
pub proof fn own_end_begins_the_shutdown(
    c: &mut ShutdownCoordinator,
    core: &mut CoreState,
    event: SystemEvent,
    fresh: (usize, usize),
    now: Instant,
    r: EventStep,
)
    requires
        call_ensures(process_system_event, (c, core, event, fresh, now), r),
    ensures
        event is ContextTerminating || (event is SocketClosing && event->socket_id == old(core).handle) ==> (r matches EventStep::ShutDown(o) && (o is Some <==> old(c).state is Running))
            && *final(core) == *old(core),
        event is SocketClosing && event->socket_id != old(core).handle ==> r is Nothing && *final(c)
            == *old(c) && *final(core) == *old(core),
        event is ActorStarted ==> r is Nothing && *final(c) == *old(c) && *final(core) == *old(core),
{
}

/// What is meant for another socket changes nothing.
pub proof fn events_of_others_are_ignored(
    c: &mut ShutdownCoordinator,
    core: &mut CoreState,
    event: SystemEvent,
    fresh: (usize, usize),
    now: Instant,
    r: EventStep,
)
    requires
        call_ensures(process_system_event, (c, core, event, fresh, now), r),
        ({
            ||| event is ActorStopping && event->ActorStopping_parent_id != Some(old(core).handle)
            ||| event is NewConnectionEstablished && event->NewConnectionEstablished_parent_core_id
                != old(core).handle
            ||| event is PeerIdentityEstablished && event->PeerIdentityEstablished_parent_core_id
                != old(core).handle
            ||| event is ConnectionAttemptFailed && event->ConnectionAttemptFailed_parent_core_id
                != old(core).handle
            ||| event is InprocBindingRequest && !old(core).bound_inproc_names@.dom().contains(
                event->InprocBindingRequest_target_inproc_name@,
            )
            ||| event is InprocPipePeerClosed && !old(core).bound_inproc_names@.dom().contains(
                event->InprocPipePeerClosed_target_inproc_name@,
            )
        }),
    ensures
        r is Nothing,
        *final(c) == *old(c),
        *final(core) == *old(core),
{
}

/// A socket that is shutting down takes no new connection: it is closed again, or refused.
pub proof fn no_connection_is_taken_while_shutting_down(
    c: &mut ShutdownCoordinator,
    core: &mut CoreState,
    event: SystemEvent,
    fresh: (usize, usize),
    now: Instant,
    r: EventStep,
)
    requires
        call_ensures(process_system_event, (c, core, event, fresh, now), r),
        !(old(c).state is Running),
    ensures
        event matches SystemEvent::NewConnectionEstablished {
            parent_core_id,
            connection,
            interaction_model,
            ..
        } ==> (parent_core_id == old(core).handle ==> (r matches EventStep::CloseOrphan {
            close,
            stop_sca,
        } && close == connection && (interaction_model
            matches ConnectionInteractionModel::ViaSca { sca_handle_id } ==> stop_sca == Some(
            sca_handle_id,
        )) && (interaction_model is ViaUringFd ==> stop_sca is None)) && *final(core) == *old(core)),
        event is InprocBindingRequest && old(core).bound_inproc_names@.dom().contains(
            event->InprocBindingRequest_target_inproc_name@,
        ) ==> (r matches EventStep::RefusedInproc(e) && e is InvalidState) && *final(core) == *old(core),
        event is PeerIdentityEstablished ==> r is Nothing && *final(core) == *old(core),
{
}

/// A peer's identity is passed on to the pattern with the pipe it belongs to, its socket type is
/// entered, and its connection's failures are forgotten.
pub proof fn peer_identity_is_passed_on(
    c: &mut ShutdownCoordinator,
    core: &mut CoreState,
    pipe: usize,
    identity: Option<Vec<u8>>,
    peer_type: Option<String>,
    fresh: (usize, usize),
    now: Instant,
    r: EventStep,
)
    requires
        call_ensures(
            process_system_event,
            (
                c,
                core,
                SystemEvent::PeerIdentityEstablished {
                    parent_core_id: old(core).handle,
                    connection_identifier: pipe,
                    peer_identity: identity,
                    peer_socket_type: peer_type,
                },
                fresh,
                now,
            ),
            r,
        ),
        old(c).state is Running,
    ensures
        r == (EventStep::UpdateIdentity { pipe_read_id: pipe, identity }),
        old(core).pipe_read_id_to_endpoint_uri@.dom().contains(pipe) && old(core).endpoints@.dom().contains(old(core).pipe_read_id_to_endpoint_uri@[pipe]@) ==> {
            let uri = old(core).pipe_read_id_to_endpoint_uri@[pipe]@;
            &&& final(core).endpoints@[uri].peer_socket_type == peer_type
            &&& final(core).endpoints@[uri].connection == old(core).endpoints@[uri].connection
            &&& final(core).endpoints@[uri].pipe_ids == old(core).endpoints@[uri].pipe_ids
            &&& final(core).endpoints@.dom() == old(core).endpoints@.dom()
        },
        old(core).pipe_read_id_to_endpoint_uri@.dom().contains(pipe) && old(core).reconnect_states@.dom().contains(old(core).pipe_read_id_to_endpoint_uri@[pipe]@) ==> {
            let uri = old(core).pipe_read_id_to_endpoint_uri@[pipe]@;
            final(core).reconnect_states@[uri].current_attempts == 0 && final(core).reconnect_states@[uri].next_attempt_at is None
        },
        *final(c) == *old(c),
{
    let uri = old(core).pipe_read_id_to_endpoint_uri@[pipe]@;
    if old(core).endpoints@.dom().contains(uri) {
        assert(old(core).endpoints@.dom().insert(uri) =~= old(core).endpoints@.dom());
    }
}

/// A failed attempt of this socket is passed on with its target and error.
pub proof fn failed_attempt_is_passed_on(
    c: &mut ShutdownCoordinator,
    core: &mut CoreState,
    target: String,
    error: ZmqError,
    fresh: (usize, usize),
    now: Instant,
    r: EventStep,
)
    requires
        call_ensures(
            process_system_event,
            (
                c,
                core,
                SystemEvent::ConnectionAttemptFailed {
                    parent_core_id: old(core).handle,
                    target_endpoint_uri: target,
                    error,
                },
                fresh,
                now,
            ),
            r,
        ),
    ensures
        r == (EventStep::ConnectFailed { target_endpoint_uri: target, error }),
        *final(core) == *old(core) && *final(c) == *old(c),
{
}

/// A running socket that is bound to the name accepts the connection: it writes where the
/// connecter reads, and reads where the connecter writes.
pub proof fn pipes_are_crossed_between_the_two_ends(
    c: &mut ShutdownCoordinator,
    core: &mut CoreState,
    name: String,
    uri: String,
    tx: AsyncSender<Vec<Msg>>,
    write: usize,
    read: usize,
    fresh: (usize, usize),
    now: Instant,
    r: EventStep,
)
    requires
        call_ensures(
            process_system_event,
            (
                c,
                core,
                SystemEvent::InprocBindingRequest {
                    target_inproc_name: name,
                    connector_uri: uri,
                    pipe_to_connector: tx,
                    connector_pipe_write_id: write,
                    connector_pipe_read_id: read,
                },
                fresh,
                now,
            ),
            r,
        ),
        old(c).state is Running,
        old(core).bound_inproc_names@.dom().contains(name@),
    ensures
        r matches EventStep::AcceptedInproc(a) && a.attached_read_id == write
            && a.attached_write_id == read,
        final(core).pipes_tx@[read] == tx,
        final(core).pipes_tx@.dom().contains(read),
        final(core).endpoints@[uri@].pipe_ids == Some((read, write)),
        final(core).endpoints@[uri@].handle_id == fresh.0,
        final(core).pipe_read_id_to_endpoint_uri@[write] == uri,
        *final(c) == *old(c),
{
}

/// A stopped child of this socket is taken out; while the socket runs its shutdown does not
/// advance, and a connection that is to be tried again has its failure counted.
pub proof fn stopped_child_is_dealt_with(
    c: &mut ShutdownCoordinator,
    core: &mut CoreState,
    handle: usize,
    kind: ActorType,
    uri: String,
    error: Option<ZmqError>,
    text: String,
    fresh: (usize, usize),
    now: Instant,
    r: EventStep,
)
    requires
        call_ensures(
            process_system_event,
            (
                c,
                core,
                SystemEvent::ActorStopping {
                    handle_id: handle,
                    actor_type: kind,
                    endpoint_uri: Some(uri),
                    parent_id: Some(old(core).handle),
                    error,
                    error_text: text,
                },
                fresh,
                now,
            ),
            r,
        ),
        old(core).endpoints@.dom().contains(uri@),
        old(core).endpoints@[uri@].handle_id == handle,
    ensures
        r matches EventStep::ChildStopped(s) && s.found,
        !final(core).endpoints@.dom().contains(uri@),
        old(c).state is Running ==> *final(c) == *old(c),
        error is None || !(old(c).state is Running) ==> final(core).reconnect_states == old(core).reconnect_states,
        final(core).options == old(core).options,
{
}

/// A peer of the process that closes its end takes the endpoint with it; where nobody writes to
/// the pipe that it read, nothing happens.
pub proof fn closed_peer_is_taken_out(
    c: &mut ShutdownCoordinator,
    core: &mut CoreState,
    name: String,
    closed: usize,
    fresh: (usize, usize),
    now: Instant,
    r: EventStep,
    k: int,
    read: usize,
)
    requires
        call_ensures(
            process_system_event,
            (
                c,
                core,
                SystemEvent::InprocPipePeerClosed {
                    target_inproc_name: name,
                    closed_by_connector_pipe_read_id: closed,
                },
                fresh,
                now,
            ),
            r,
        ),
        old(core).bound_inproc_names@.dom().contains(name@),
        pipe_manager::read_pipe_of_writer(*old(core), closed) == Some(read),
        old(core).pipe_read_id_to_endpoint_uri@.dom().contains(read),
    ensures
        r matches EventStep::ClosedInproc { pipe_read_id, .. } && pipe_read_id == read,
        !final(core).endpoints@.dom().contains(old(core).pipe_read_id_to_endpoint_uri@[read]@),
        *final(c) == *old(c),
{
}

} // verus!
