use vstd::prelude::*;

use fibre::mpmc::AsyncSender;

use crate::error::ZmqError;
use crate::message::Msg;
use crate::socket::events::SocketEvent;
use crate::socket::socket_core::state::{ConnectionRef, CoreState, EndpointInfo, EndpointType};
use crate::text::joined;
use crate::time::Duration;
use crate::transport::tcp;
use crate::transport::tcp::is_fatal_connect_error;

verus! {

/// What is left to do once a stopped child has been taken out of the core's tables.
#[derive(Debug)]
pub struct StoppedChild {
    /// Whether an endpoint of the child was found.
    pub found: bool,
    /// The child's task, to be stopped if it still runs.
    pub abort_task: Option<usize>,
    /// The task that read the child's pipe, to be stopped.
    pub abort_reader: Option<usize>,
    /// The io_uring descriptor that is no longer the core's.
    pub unregister_fd: Option<usize>,
    /// What the monitor is to be told.
    pub event: Option<SocketEvent>,
    /// The pipe that the socket pattern is to be told of as detached.
    pub detached_pipe: Option<usize>,
    /// Whether the connection is to be tried again.
    pub should_reconnect: bool,
}

/// The position of the first endpoint with the given handle, or the number of endpoints.
pub open spec fn first_with_handle(listed: Seq<(String, EndpointInfo)>, handle: usize) -> int
    decreases listed.len(),
{
    if listed.len() == 0 || listed[0].1.handle_id == handle {
        0
    } else {
        1 + first_with_handle(listed.skip(1), handle)
    }
}

proof fn lemma_first_with_handle(listed: Seq<(String, EndpointInfo)>, handle: usize, i: int)
    requires
        0 <= i <= listed.len(),
        forall|j: int| 0 <= j < i ==> (#[trigger] listed[j]).1.handle_id != handle,
        i < listed.len() ==> listed[i].1.handle_id == handle,
    ensures
        first_with_handle(listed, handle) == i,
    decreases listed.len(),
{
    if i > 0 {
        assert forall|j: int| 0 <= j < i - 1 implies (#[trigger] listed.skip(1)[j]).1.handle_id
            != handle by {
            assert(listed.skip(1)[j] == listed[j + 1]);
        }
        assert(listed[0].1.handle_id != handle);
        lemma_first_with_handle(listed.skip(1), handle, i - 1);
    }
}

/// The endpoint that a stopped child served: the one with the URI given, where its
/// handle is the child's, and otherwise the first with the child's handle.
pub open spec fn endpoint_of_child(core: CoreState, child: usize, uri: Option<Seq<char>>) -> Option<
    Seq<char>,
> {
    let i = first_with_handle(core.endpoints.listed(), child);
    if uri matches Some(u) && core.endpoints@.dom().contains(u) && core.endpoints@[u].handle_id
        == child {
        uri
    } else if i < core.endpoints.listed().len() {
        Some(core.endpoints.listed()[i].0@)
    } else {
        None
    }
}

/// An optional text as a mathematical value.
pub open spec fn text_of(s: Option<&str>) -> Option<Seq<char>> {
    match s {
        Some(t) => Some(t@),
        None => None,
    }
}

/// The tables after the pipes of an endpoint have been taken out of them.
pub open spec fn pipes_taken_out(
    before: CoreState,
    after: CoreState,
    pipes: Option<(usize, usize)>,
    abort_reader: Option<usize>,
) -> bool {
    match pipes {
        Some((w, r)) => {
            &&& after.pipes_tx@ == before.pipes_tx@.remove(w)
            &&& after.pipe_reader_tasks@ == before.pipe_reader_tasks@.remove(r)
            &&& after.pipe_read_id_to_endpoint_uri@ == before.pipe_read_id_to_endpoint_uri@.remove(
                r,
            )
            &&& abort_reader == if before.pipe_reader_tasks@.dom().contains(r) {
                Some(before.pipe_reader_tasks@[r])
            } else {
                None
            }
        },
        None => {
            &&& after.pipes_tx == before.pipes_tx
            &&& after.pipe_reader_tasks == before.pipe_reader_tasks
            &&& after.pipe_read_id_to_endpoint_uri == before.pipe_read_id_to_endpoint_uri
            &&& abort_reader is None
        },
    }
}

/// The table of descriptors after an endpoint has been taken out of it.
pub open spec fn descriptor_taken_out(
    before: CoreState,
    after: CoreState,
    info: EndpointInfo,
    unregister_fd: Option<usize>,
) -> bool {
    if info.connection.is_uring {
        after.uring_fd_to_endpoint_uri@ == before.uring_fd_to_endpoint_uri@.remove(info.handle_id)
            && unregister_fd == Some(info.handle_id)
    } else {
        after.uring_fd_to_endpoint_uri == before.uring_fd_to_endpoint_uri && unregister_fd is None
    }
}

/// What a monitor is told of the end of an endpoint.
pub open spec fn is_stop_event(
    event: SocketEvent,
    info: EndpointInfo,
    error: Option<ZmqError>,
    error_text: Seq<char>,
) -> bool {
    match info.endpoint_type {
        EndpointType::Listener => event == SocketEvent::Closed { endpoint: info.endpoint_uri },
        EndpointType::Session => if error matches Some(e) && (e is SecurityError || e
            is AuthenticationFailure) {
            event matches SocketEvent::HandshakeFailed { endpoint, error_msg } && endpoint
                == info.endpoint_uri && error_msg@ == error_text
        } else {
            event == SocketEvent::Disconnected { endpoint: info.endpoint_uri }
        },
    }
}

/// Whether a connection that ended with `error` is tried again: it was an outgoing one,
/// it ended with an error that can pass, reconnecting is switched on and the socket is
/// not being shut down.
pub open spec fn reconnects(
    core: CoreState,
    info: EndpointInfo,
    error: Option<ZmqError>,
    full_shutdown: bool,
) -> bool {
    &&& !full_shutdown
    &&& error matches Some(e) && !tcp::fatal_connect_error(e)
    &&& info.endpoint_type is Session
    &&& info.is_outbound_connection
    &&& core.options.reconnect_ivl matches Some(d) && d.spec_nanos() > 0
}

/// The value behind an optional reference.
pub open spec fn error_of(e: Option<&ZmqError>) -> Option<ZmqError> {
    match e {
        Some(x) => Some(*x),
        None => None,
    }
}

fn find_endpoint_of_child(core: &CoreState, child: usize, uri: Option<&str>) -> (r: Option<String>)
    ensures
        match r {
            Some(k) => endpoint_of_child(*core, child, text_of(uri)) == Some(k@)
                && core.endpoints@.dom().contains(k@),
            None => endpoint_of_child(*core, child, text_of(uri)) is None,
        },
{
    if let Some(u) = uri {
        if let Some(info) = core.endpoints.get(u) {
            if info.handle_id == child {
                return Some(u.to_owned());
            }
        }
    }
    let mut i: usize = 0;
    while i < core.endpoints.len()
        invariant
            i <= core.endpoints.listed().len(),
            forall|j: int|
                0 <= j < i ==> (#[trigger] core.endpoints.listed()[j]).1.handle_id != child,
            !(text_of(uri) matches Some(u) && core.endpoints@.dom().contains(u)
                && core.endpoints@[u].handle_id == child),
        decreases core.endpoints.listed().len() - i,
    {
        let (key, info) = core.endpoints.entry(i);
        if info.handle_id == child {
            proof {
                lemma_first_with_handle(core.endpoints.listed(), child, i as int);
            }
            return Some(key.clone());
        }
        i += 1;
    }
    proof {
        lemma_first_with_handle(core.endpoints.listed(), child, i as int);
    }
    None
}

/// Takes a stopped child out of the core's tables.
pub fn cleanup_stopped_child_resources(
    core: &mut CoreState,
    stopped_child_actor_id: usize,
    endpoint_uri_opt: Option<&str>,
    error_opt: Option<&ZmqError>,
    error_text: &str,
    is_full_core_shutdown: bool,
) -> (r: StoppedChild)
    ensures
        final(core).same_settings(*old(core)),
        match endpoint_of_child(*old(core), stopped_child_actor_id, text_of(endpoint_uri_opt)) {
            None => *final(core) == *old(core) && !r.found && r.abort_task is None && r.abort_reader
                is None && r.unregister_fd is None && r.event is None && r.detached_pipe is None
                && !r.should_reconnect,
            Some(key) => {
                let info = old(core).endpoints@[key];
                &&& old(core).endpoints@.dom().contains(key)
                &&& r.found
                &&& final(core).endpoints@ == old(core).endpoints@.remove(key)
                &&& pipes_taken_out(*old(core), *final(core), info.pipe_ids, r.abort_reader)
                &&& descriptor_taken_out(*old(core), *final(core), info, r.unregister_fd)
                &&& r.abort_task == info.task
                &&& r.detached_pipe == match info.pipe_ids {
                    Some((_, read)) => Some(read),
                    None => None::<usize>,
                }
                &&& r.event is Some == old(core).monitored
                &&& r.event matches Some(e) ==> is_stop_event(
                    e,
                    info,
                    error_of(error_opt),
                    error_text@,
                )
                &&& r.should_reconnect == reconnects(
                    *old(core),
                    info,
                    error_of(error_opt),
                    is_full_core_shutdown,
                )
            },
        },
{
    let taken = match find_endpoint_of_child(core, stopped_child_actor_id, endpoint_uri_opt) {
        Some(key) => core.endpoints.remove(key.as_str()),
        None => None,
    };
    let info = match taken {
        Some(i) => i,
        None => {
            return StoppedChild {
                found: false,
                abort_task: None,
                abort_reader: None,
                unregister_fd: None,
                event: None,
                detached_pipe: None,
                should_reconnect: false,
            };
        },
    };
    let mut abort_reader: Option<usize> = None;
    let mut detached_pipe: Option<usize> = None;
    if let Some((write_id, read_id)) = info.pipe_ids {
        let removal = core.remove_pipe_state(write_id, read_id);
        abort_reader = removal.abort_reader;
        detached_pipe = Some(read_id);
    }
    let mut unregister_fd: Option<usize> = None;
    if info.connection.is_uring {
        let _ = core.uring_fd_to_endpoint_uri.remove(info.handle_id);
        unregister_fd = Some(info.handle_id);
    }
    let failed_handshake: bool = match error_opt {
        Some(e) => matches!(e, ZmqError::SecurityError(_) | ZmqError::AuthenticationFailure(_)),
        None => false,
    };
    let event = match info.endpoint_type {
        EndpointType::Listener => SocketEvent::Closed { endpoint: info.endpoint_uri.clone() },
        EndpointType::Session => if failed_handshake {
            SocketEvent::HandshakeFailed {
                endpoint: info.endpoint_uri.clone(),
                error_msg: error_text.to_owned(),
            }
        } else {
            SocketEvent::Disconnected { endpoint: info.endpoint_uri.clone() }
        },
    };
    let is_session: bool = info.endpoint_type == EndpointType::Session;
    let passes: bool = match error_opt {
        Some(e) => !is_fatal_connect_error(e),
        None => false,
    };
    let switched_on: bool = match &core.options.reconnect_ivl {
        Some(d) => !d.is_zero(),
        None => false,
    };
    StoppedChild {
        found: true,
        abort_task: info.task,
        abort_reader,
        unregister_fd,
        event: core.send_monitor_event(event),
        detached_pipe,
        should_reconnect: !is_full_core_shutdown && passes && is_session
            && info.is_outbound_connection && switched_on,
    }
}

/// What is left to do once a session has been taken out of the core's tables.
#[derive(Debug)]
pub struct ClosedSession {
    /// The endpoint as it was: its connection is to be closed and its task stopped.
    pub info: EndpointInfo,
    pub abort_reader: Option<usize>,
    pub unregister_fd: Option<usize>,
    pub event: Option<SocketEvent>,
    pub detached_pipe: Option<usize>,
}

/// Takes the session with the given URI out of the core's tables. An endpoint that is
/// not a session stays.
pub fn cleanup_session_state_by_uri(core: &mut CoreState, endpoint_uri: &str) -> (r: Option<
    ClosedSession,
>)
    ensures
        final(core).same_settings(*old(core)),
        if old(core).endpoints@.dom().contains(endpoint_uri@) && old(core).endpoints@[endpoint_uri@].endpoint_type is Session {
            let info = old(core).endpoints@[endpoint_uri@];
            &&& r matches Some(c)
            &&& c.info == info
            &&& final(core).endpoints@ == old(core).endpoints@.remove(endpoint_uri@)
            &&& pipes_taken_out(*old(core), *final(core), info.pipe_ids, c.abort_reader)
            &&& descriptor_taken_out(*old(core), *final(core), info, c.unregister_fd)
            &&& c.detached_pipe == match info.pipe_ids {
                Some((_, read)) => Some(read),
                None => None::<usize>,
            }
            &&& c.event is Some == old(core).monitored
            &&& c.event matches Some(e) ==> (e matches SocketEvent::Disconnected { endpoint }
                && endpoint@ == endpoint_uri@)
        } else {
            &&& r is None
            &&& final(core).endpoints@ == old(core).endpoints@
            &&& final(core).pipes_tx == old(core).pipes_tx
            &&& final(core).pipe_reader_tasks == old(core).pipe_reader_tasks
            &&& final(core).pipe_read_id_to_endpoint_uri == old(core).pipe_read_id_to_endpoint_uri
            &&& final(core).uring_fd_to_endpoint_uri == old(core).uring_fd_to_endpoint_uri
        },
{
    let info = match core.endpoints.remove(endpoint_uri) {
        Some(i) => i,
        None => {
            return None;
        },
    };
    if info.endpoint_type != EndpointType::Session {
        let ghost before = old(core).endpoints@;
        let _ = core.endpoints.insert(endpoint_uri.to_owned(), info);
        assert(core.endpoints@ =~= before);
        return None;
    }
    let mut abort_reader: Option<usize> = None;
    let mut detached_pipe: Option<usize> = None;
    if let Some((write_id, read_id)) = info.pipe_ids {
        let removal = core.remove_pipe_state(write_id, read_id);
        abort_reader = removal.abort_reader;
        detached_pipe = Some(read_id);
    }
    let mut unregister_fd: Option<usize> = None;
    if info.connection.is_uring {
        let _ = core.uring_fd_to_endpoint_uri.remove(info.handle_id);
        unregister_fd = Some(info.handle_id);
    }
    let event = core.send_monitor_event(
        SocketEvent::Disconnected { endpoint: endpoint_uri.to_owned() },
    );
    Some(ClosedSession { info, abort_reader, unregister_fd, event, detached_pipe })
}

/// What is left to do once the session of a pipe has been taken out of the tables.
#[derive(Debug)]
pub struct ClosedPipe {
    /// The task of a listener, to be stopped.
    pub abort_task: Option<usize>,
    pub abort_reader: Option<usize>,
    pub unregister_fd: Option<usize>,
    pub event: Option<SocketEvent>,
    /// The URI that the connection was made to.
    pub target_uri: Option<String>,
}

/// The tables after the endpoint that a pipe is read from has been taken out of them, and
/// what is left to do.
pub open spec fn pipe_cleaned_up(
    before: CoreState,
    after: CoreState,
    pipe_read_id: usize,
    r: ClosedPipe,
) -> bool {
    &&& after.same_settings(before)
    &&& if !before.pipe_read_id_to_endpoint_uri@.dom().contains(pipe_read_id) {
        &&& after.endpoints == before.endpoints
        &&& after.pipes_tx == before.pipes_tx
        &&& after.pipe_read_id_to_endpoint_uri == before.pipe_read_id_to_endpoint_uri
        &&& after.uring_fd_to_endpoint_uri == before.uring_fd_to_endpoint_uri
        &&& after.pipe_reader_tasks@ == before.pipe_reader_tasks@.remove(pipe_read_id)
        &&& r.abort_reader == if before.pipe_reader_tasks@.dom().contains(pipe_read_id) {
            Some(before.pipe_reader_tasks@[pipe_read_id])
        } else {
            None
        }
        &&& r.abort_task is None && r.unregister_fd is None && r.event is None && r.target_uri
            is None
    } else {
        let uri = before.pipe_read_id_to_endpoint_uri@[pipe_read_id]@;
        if !before.endpoints@.dom().contains(uri) {
            &&& after == before
            &&& r.abort_reader is None && r.abort_task is None && r.unregister_fd is None
                && r.event is None && r.target_uri is None
        } else {
            let info = before.endpoints@[uri];
            &&& after.endpoints@ == before.endpoints@.remove(uri)
            &&& pipes_taken_out(
                before,
                after,
                match info.pipe_ids {
                    Some((w, _)) => Some((w, pipe_read_id)),
                    None => None,
                },
                r.abort_reader,
            )
            &&& descriptor_taken_out(before, after, info, r.unregister_fd)
            &&& r.abort_task == if info.endpoint_type is Listener {
                info.task
            } else {
                None
            }
            &&& r.event == if before.monitored {
                Some(
                    match info.endpoint_type {
                        EndpointType::Session => SocketEvent::Disconnected {
                            endpoint: info.endpoint_uri,
                        },
                        EndpointType::Listener => SocketEvent::Closed {
                            endpoint: info.endpoint_uri,
                        },
                    },
                )
            } else {
                None
            }
            &&& r.target_uri == info.target_endpoint_uri
        }
    }
}

/// Takes the endpoint that a pipe is read from out of the core's tables. The socket
/// pattern is to be told of the pipe as detached in any case.
pub fn cleanup_session_state_by_pipe(core: &mut CoreState, pipe_read_id: usize) -> (r: ClosedPipe)
    ensures
        pipe_cleaned_up(*old(core), *final(core), pipe_read_id, r),
{
    let uri = match core.uri_of_pipe(pipe_read_id) {
        Some(u) => u,
        None => {
            let abort_reader = core.pipe_reader_tasks.remove(pipe_read_id);
            return ClosedPipe {
                abort_task: None,
                abort_reader,
                unregister_fd: None,
                event: None,
                target_uri: None,
            };
        },
    };
    let info = match core.endpoints.remove(uri.as_str()) {
        Some(i) => i,
        None => {
            return ClosedPipe {
                abort_task: None,
                abort_reader: None,
                unregister_fd: None,
                event: None,
                target_uri: None,
            };
        },
    };
    let mut abort_reader: Option<usize> = None;
    if let Some((write_id, _)) = info.pipe_ids {
        let removal = core.remove_pipe_state(write_id, pipe_read_id);
        abort_reader = removal.abort_reader;
    }
    let mut unregister_fd: Option<usize> = None;
    if info.connection.is_uring {
        let _ = core.uring_fd_to_endpoint_uri.remove(info.handle_id);
        unregister_fd = Some(info.handle_id);
    }
    let listener: bool = info.endpoint_type == EndpointType::Listener;
    let event = if listener {
        SocketEvent::Closed { endpoint: info.endpoint_uri }
    } else {
        SocketEvent::Disconnected { endpoint: info.endpoint_uri }
    };
    ClosedPipe {
        abort_task: if listener {
            info.task
        } else {
            None
        },
        abort_reader,
        unregister_fd,
        event: core.send_monitor_event(event),
        target_uri: info.target_endpoint_uri,
    }
}

// ---------------------------------------------------------------------------
// In-process connections
// ---------------------------------------------------------------------------
/// What is left to do once an in-process connection has been accepted: the monitor and
/// the socket pattern are told of it, and the connecter is told of success.
#[derive(Debug)]
pub struct AcceptedInproc {
    pub event: Option<SocketEvent>,
    pub attached_read_id: usize,
    pub attached_write_id: usize,
}

/// The tables after an in-process connection has been entered into them on the side that
/// is bound, and what is left to do.
pub open spec fn inproc_entered(
    before: CoreState,
    after: CoreState,
    connector_uri: String,
    pipe_to_connector: AsyncSender<Vec<Msg>>,
    write_id: usize,
    read_id: usize,
    entry_handle_id: usize,
    connection: ConnectionRef,
    r: AcceptedInproc,
) -> bool {
    &&& after.same_settings(before)
    &&& after.pipe_reader_tasks == before.pipe_reader_tasks
    &&& after.uring_fd_to_endpoint_uri == before.uring_fd_to_endpoint_uri
    &&& after.pipes_tx@ == before.pipes_tx@.insert(write_id, pipe_to_connector)
    &&& after.endpoints@ == before.endpoints@.insert(
        connector_uri@,
        EndpointInfo {
            task: None,
            endpoint_type: EndpointType::Session,
            endpoint_uri: connector_uri,
            pipe_ids: Some((write_id, read_id)),
            handle_id: entry_handle_id,
            target_endpoint_uri: Some(connector_uri),
            is_outbound_connection: false,
            peer_socket_type: None,
            connection,
        },
    )
    &&& after.pipe_read_id_to_endpoint_uri@ == before.pipe_read_id_to_endpoint_uri@.insert(
        read_id,
        connector_uri,
    )
    &&& r.event is Some == before.monitored
    &&& r.event matches Some(e) ==> (e matches SocketEvent::Accepted { endpoint, peer_addr }
        && endpoint == connector_uri && peer_addr@ == "inproc-connector-"@ + connector_uri@)
    &&& r.attached_read_id == read_id
    &&& r.attached_write_id == write_id
}

/// Enters an in-process connection into the core's tables, on the side that is bound.
pub fn process_inproc_binding_request_event(
    core: &mut CoreState,
    connector_uri: String,
    pipe_to_connector: AsyncSender<Vec<Msg>>,
    write_id: usize,
    read_id: usize,
    entry_handle_id: usize,
    connection: ConnectionRef,
) -> (r: AcceptedInproc)
    ensures
        inproc_entered(
            *old(core),
            *final(core),
            connector_uri,
            pipe_to_connector,
            write_id,
            read_id,
            entry_handle_id,
            connection,
            r,
        ),
{
    let info = EndpointInfo {
        task: None,
        endpoint_type: EndpointType::Session,
        endpoint_uri: connector_uri.clone(),
        pipe_ids: Some((write_id, read_id)),
        handle_id: entry_handle_id,
        target_endpoint_uri: Some(connector_uri.clone()),
        is_outbound_connection: false,
        peer_socket_type: None,
        connection,
    };
    let _ = core.pipes_tx.insert(write_id, pipe_to_connector);
    let _ = core.endpoints.insert(connector_uri.clone(), info);
    let _ = core.pipe_read_id_to_endpoint_uri.insert(read_id, connector_uri.clone());
    let peer_addr = joined("inproc-connector-", connector_uri.as_str());
    let event = core.send_monitor_event(
        SocketEvent::Accepted { endpoint: connector_uri, peer_addr },
    );
    AcceptedInproc { event, attached_read_id: read_id, attached_write_id: write_id }
}

/// The session writes to the given pipe.
pub open spec fn writes_to(info: EndpointInfo, write_id: usize) -> bool {
    info.endpoint_type is Session && (info.pipe_ids matches Some((w, _)) && w == write_id)
}

/// The position of the first session that writes to the given pipe, or the number of
/// endpoints.
pub open spec fn first_writing_to(listed: Seq<(String, EndpointInfo)>, write_id: usize) -> int
    decreases listed.len(),
{
    if listed.len() == 0 || writes_to(listed[0].1, write_id) {
        0
    } else {
        1 + first_writing_to(listed.skip(1), write_id)
    }
}

proof fn lemma_first_writing_to(listed: Seq<(String, EndpointInfo)>, write_id: usize, i: int)
    requires
        0 <= i <= listed.len(),
        forall|j: int| 0 <= j < i ==> !writes_to((#[trigger] listed[j]).1, write_id),
        i < listed.len() ==> writes_to(listed[i].1, write_id),
    ensures
        first_writing_to(listed, write_id) == i,
    decreases listed.len(),
{
    if i > 0 {
        assert forall|j: int| 0 <= j < i - 1 implies !writes_to(
            (#[trigger] listed.skip(1)[j]).1,
            write_id,
        ) by {
            assert(listed.skip(1)[j] == listed[j + 1]);
        }
        assert(!writes_to(listed[0].1, write_id));
        lemma_first_writing_to(listed.skip(1), write_id, i - 1);
    }
}

/// The read pipe of the first session that writes to the given pipe.
pub open spec fn read_pipe_of_writer(core: CoreState, write_id: usize) -> Option<usize> {
    let listed = core.endpoints.listed();
    let i = first_writing_to(listed, write_id);
    if i < listed.len() {
        Some((listed[i].1.pipe_ids->0).1)
    } else {
        None
    }
}

/// The read pipe of the session whose peer closed the pipe that it writes to. That pipe
/// is then to be cleaned up by `cleanup_session_state_by_pipe`.
pub fn handle_inproc_pipe_peer_closed_event(core: &CoreState, closed_write_id: usize) -> (r: Option<
    usize,
>)
    ensures
        r == read_pipe_of_writer(*core, closed_write_id),
{
    let mut i: usize = 0;
    while i < core.endpoints.len()
        invariant
            i <= core.endpoints.listed().len(),
            forall|j: int|
                0 <= j < i ==> !writes_to(
                    (#[trigger] core.endpoints.listed()[j]).1,
                    closed_write_id,
                ),
        decreases core.endpoints.listed().len() - i,
    {
        let (_, info) = core.endpoints.entry(i);
        if info.endpoint_type == EndpointType::Session {
            if let Some((write_id, read_id)) = info.pipe_ids {
                if write_id == closed_write_id {
                    proof {
                        lemma_first_writing_to(core.endpoints.listed(), closed_write_id, i as int);
                    }
                    return Some(read_id);
                }
            }
        }
        i += 1;
    }
    proof {
        lemma_first_writing_to(core.endpoints.listed(), closed_write_id, i as int);
    }
    None
}

// ---------------------------------------------------------------------------
// Sending into a pipe
// ---------------------------------------------------------------------------
/// What became of an item that was sent without waiting.
#[derive(Debug)]
pub enum TrySent<T> {
    Sent,
    Full(T),
    Closed(T),
}

/// The channel was asked to take the message, without waiting, and gave this answer.
pub uninterp spec fn message_answered(
    tx: AsyncSender<Vec<Msg>>,
    msgs: Vec<Msg>,
    answer: TrySent<Vec<Msg>>,
) -> bool;

/// `fibre::mpmc::AsyncSender::try_send`, on a channel of whole messages whose other ends are
/// elsewhere: the message is offered to the channel, and one that could not be sent comes
/// back. Whether it could is the channel's affair.
#[verifier::external_body]
pub(crate) fn try_send_message(tx: &AsyncSender<Vec<Msg>>, msgs: Vec<Msg>) -> (r: TrySent<
    Vec<Msg>,
>)
    ensures
        message_answered(*tx, msgs, r),
        r matches TrySent::Full(i) ==> i == msgs,
        r matches TrySent::Closed(i) ==> i == msgs,
{
    match tx.try_send(msgs) {
        Ok(()) => TrySent::Sent,
        Err(fibre::TrySendError::Full(i)) => TrySent::Full(i),
        Err(fibre::TrySendError::Closed(i)) => TrySent::Closed(i),
        Err(fibre::TrySendError::Sent(i)) => TrySent::Closed(i),
    }
}

/// The channel was asked to take the frame, without waiting, and gave this answer.
pub uninterp spec fn frame_answered(
    tx: AsyncSender<Msg>,
    msg: Msg,
    answer: TrySent<Msg>,
) -> bool;

/// `fibre::mpmc::AsyncSender::try_send`, on a channel of single frames whose other ends are
/// elsewhere: the frame is offered to the channel, and one that could not be sent comes back.
/// Whether it could is the channel's affair.
#[verifier::external_body]
fn try_send_frame(tx: &AsyncSender<Msg>, msg: Msg) -> (r: TrySent<Msg>)
    ensures
        frame_answered(*tx, msg, r),
        r matches TrySent::Full(i) ==> i == msg,
        r matches TrySent::Closed(i) ==> i == msg,
{
    match tx.try_send(msg) {
        Ok(()) => TrySent::Sent,
        Err(fibre::TrySendError::Full(i)) => TrySent::Full(i),
        Err(fibre::TrySendError::Closed(i)) => TrySent::Closed(i),
        Err(fibre::TrySendError::Sent(i)) => TrySent::Closed(i),
    }
}

/// The outcome of a send that may have to wait for room.
#[derive(Debug)]
pub enum SendStep {
    Done(Result<(), ZmqError>),
    /// Send the message, waiting for room no longer than the time given, and hand the
    /// outcome to `send_waited`.
    Wait(Msg, Option<Duration>),
}

/// How a send that waited ended.
#[derive(Debug, Clone, Copy, PartialEq, Eq, Structural)]
pub enum WaitedSend {
    Sent,
    Closed,
    TimedOut,
}

/// What the answer to a send that did not wait comes to.
pub open spec fn tried_result<T>(answer: TrySent<T>) -> Result<(), ZmqError> {
    match answer {
        TrySent::Sent => Ok(()),
        TrySent::Full(_) => Err(ZmqError::ResourceLimitReached),
        TrySent::Closed(_) => Err(ZmqError::ConnectionClosed),
    }
}

/// What a send that did not wait comes to.
pub fn send_tried<T>(r: TrySent<T>) -> (res: Result<(), ZmqError>)
    ensures
        res == tried_result(r),
{
    match r {
        TrySent::Sent => Ok(()),
        TrySent::Full(_) => Err(ZmqError::ResourceLimitReached),
        TrySent::Closed(_) => Err(ZmqError::ConnectionClosed),
    }
}

/// What a send that waited comes to.
pub fn send_waited(r: WaitedSend) -> (res: Result<(), ZmqError>)
    ensures
        res == match r {
            WaitedSend::Sent => Ok::<(), ZmqError>(()),
            WaitedSend::Closed => Err(ZmqError::ConnectionClosed),
            WaitedSend::TimedOut => Err(ZmqError::Timeout),
        },
{
    match r {
        WaitedSend::Sent => Ok(()),
        WaitedSend::Closed => Err(ZmqError::ConnectionClosed),
        WaitedSend::TimedOut => Err(ZmqError::Timeout),
    }
}

/// Sends a message into a pipe: at once where the time limit is zero, and otherwise by a
/// wait that the caller performs. A send at once offers the message to the pipe, and comes to
/// what the pipe answers; which answer that is rests with the reader of the pipe.
pub fn send_msg_with_timeout(
    pipe_tx: &AsyncSender<Msg>,
    msg: Msg,
    timeout_opt: Option<Duration>,
) -> (r: SendStep)
    ensures
        match timeout_opt {
            Some(d) if d.spec_nanos() == 0 => exists|answer: TrySent<Msg>| #[trigger]
                frame_answered(*pipe_tx, msg, answer) && r == SendStep::Done(
                    tried_result(answer),
                ),
            _ => r == SendStep::Wait(msg, timeout_opt),
        },
{
    match timeout_opt {
        Some(d) => if d.is_zero() {
            SendStep::Done(send_tried(try_send_frame(pipe_tx, msg)))
        } else {
            SendStep::Wait(msg, Some(d))
        },
        None => SendStep::Wait(msg, None),
    }
}

// ---------------------------------------------------------------------------
// Reading from a pipe
// ---------------------------------------------------------------------------
/// The loop that hands what arrives on a pipe to the socket pattern.
#[derive(Debug)]
pub struct PipeReader {
    pub running: bool,
    /// Why the loop ended, where it did not end in order.
    pub error: Option<ZmqError>,
}

impl PipeReader {
    pub fn new() -> (p: PipeReader)
        ensures
            p.running,
            p.error is None,
    {
        PipeReader { running: true, error: None }
    }

    /// The pattern took a message, or failed to: a failure ends the loop.
    pub fn message_handled(&mut self, result: Result<(), ZmqError>)
        requires
            old(self).running,
            old(self).error is None,
        ensures
            match result {
                Ok(()) => *final(self) == *old(self),
                Err(e) => !final(self).running && final(self).error == Some(e),
            },
    {
        if let Err(e) = result {
            self.error = Some(e);
            self.running = false;
        }
    }

    /// The pattern was told that the peer closed the pipe: the loop ends.
    pub fn close_handled(&mut self, result: Result<(), ZmqError>)
        requires
            old(self).running,
            old(self).error is None,
        ensures
            !final(self).running,
            final(self).error == match result {
                Ok(()) => None,
                Err(e) => Some(e),
            },
    {
        if let Err(e) = result {
            self.error = Some(e);
        }
        self.running = false;
    }
}

// ---------------------------------------------------------------------------
// Laws
// ---------------------------------------------------------------------------
/// A stopped child's endpoint is the one of its URI where the handle there is the child's own;
/// it is forgotten with its pipes and descriptor, and every other endpoint stays.
pub proof fn stopped_child_is_forgotten(
    core: &mut CoreState,
    child: usize,
    uri: &str,
    error: Option<&ZmqError>,
    text: &str,
    full: bool,
    r: StoppedChild,
    other: Seq<char>,
)
    requires
        call_ensures(
            cleanup_stopped_child_resources,
            (core, child, Some(uri), error, text, full),
            r,
        ),
        old(core).endpoints@.dom().contains(uri@),
        old(core).endpoints@[uri@].handle_id == child,
        other != uri@,
    ensures
        r.found,
        !final(core).endpoints@.dom().contains(uri@),
        final(core).endpoints@.dom().contains(other) <==> old(core).endpoints@.dom().contains(
            other,
        ),
        old(core).endpoints@.dom().contains(other) ==> final(core).endpoints@[other] == old(core).endpoints@[other],
        r.abort_task == old(core).endpoints@[uri@].task,
        old(core).endpoints@[uri@].pipe_ids matches Some((w, p)) ==> {
            &&& r.detached_pipe == Some(p)
            &&& !final(core).pipes_tx@.dom().contains(w)
            &&& !final(core).pipe_reader_tasks@.dom().contains(p)
            &&& !final(core).pipe_read_id_to_endpoint_uri@.dom().contains(p)
            &&& old(core).pipe_reader_tasks@.dom().contains(p) ==> r.abort_reader == Some(
                old(core).pipe_reader_tasks@[p],
            )
        },
        old(core).endpoints@[uri@].pipe_ids is None ==> r.detached_pipe is None
            && r.abort_reader is None,
        old(core).endpoints@[uri@].connection.is_uring ==> r.unregister_fd == Some(child) && !final(core).uring_fd_to_endpoint_uri@.dom().contains(child),
        !old(core).endpoints@[uri@].connection.is_uring ==> r.unregister_fd is None,
        final(core).options == old(core).options && final(core).reconnect_states == old(core).reconnect_states,
{
}

/// A child that is not found by its URI is found by its handle, at the first endpoint that has
/// it; a child that no endpoint has changes nothing.
pub proof fn child_is_found_by_its_handle(
    core: &mut CoreState,
    child: usize,
    error: Option<&ZmqError>,
    text: &str,
    full: bool,
    r: StoppedChild,
    k: int,
)
    requires
        call_ensures(cleanup_stopped_child_resources, (core, child, None, error, text, full), r),
    ensures
        0 <= k < old(core).endpoints.listed().len() && old(core).endpoints.listed()[k].1.handle_id
            == child && (forall|i: int|
            0 <= i < k ==> (#[trigger] old(core).endpoints.listed()[i]).1.handle_id != child)
            ==> r.found && final(core).endpoints@ == old(core).endpoints@.remove(
            old(core).endpoints.listed()[k].0@,
        ),
        (forall|i: int|
            0 <= i < old(core).endpoints.listed().len() ==> (#[trigger] old(core).endpoints.listed()[i]).1.handle_id != child) ==> !r.found && !r.should_reconnect
            && *final(core) == *old(core),
{
    let listed = old(core).endpoints.listed();
    if 0 <= k < listed.len() && listed[k].1.handle_id == child && (forall|i: int|
        0 <= i < k ==> (#[trigger] listed[i]).1.handle_id != child) {
        lemma_first_with_handle(listed, child, k);
    }
    if forall|i: int| 0 <= i < listed.len() ==> (#[trigger] listed[i]).1.handle_id != child {
        lemma_first_with_handle(listed, child, listed.len() as int);
    }
}

/// A lost connection that the socket itself made is tried again where reconnecting is switched
/// on and the error can pass. One that ended in order, was accepted, or belongs to a socket
/// that shuts down is not, and neither is a listener.
pub proof fn lost_connections_are_tried_again(
    core: &mut CoreState,
    child: usize,
    uri: &str,
    error: Option<&ZmqError>,
    text: &str,
    full: bool,
    r: StoppedChild,
)
    requires
        call_ensures(
            cleanup_stopped_child_resources,
            (core, child, Some(uri), error, text, full),
            r,
        ),
        old(core).endpoints@.dom().contains(uri@),
        old(core).endpoints@[uri@].handle_id == child,
    ensures
        full || error is None ==> !r.should_reconnect,
        old(core).endpoints@[uri@].endpoint_type is Listener || !old(core).endpoints@[uri@].is_outbound_connection ==> !r.should_reconnect,
        old(core).options.reconnect_ivl is None || old(core).options.reconnect_ivl->0.spec_nanos() == 0 ==> !r.should_reconnect,
        error is Some && (*error->0 is InvalidEndpoint || *error->0 is UnsupportedTransport)
            ==> !r.should_reconnect,
        !full && error is Some && (*error->0 is ConnectionClosed || *error->0 is Timeout
            || *error->0 is ConnectionRefused || *error->0 is SecurityError
            || *error->0 is ProtocolViolation || (*error->0 is IoError && (
        error->0->kind is ConnectionRefused || error->0->kind is ConnectionReset
            || error->0->kind is BrokenPipe || error->0->kind is TimedOut)))
            && old(core).endpoints@[uri@].endpoint_type is Session && old(core).endpoints@[uri@].is_outbound_connection && old(core).options.reconnect_ivl is Some && old(core).options.reconnect_ivl->0.spec_nanos() > 0 ==> r.should_reconnect,
{
}

/// A monitor hears that a listener closed, that a handshake failed, or that a connection ended,
/// each of the endpoint's own URI.
pub proof fn monitor_hears_of_the_end(
    core: &mut CoreState,
    child: usize,
    uri: &str,
    error: Option<&ZmqError>,
    text: &str,
    full: bool,
    r: StoppedChild,
)
    requires
        call_ensures(
            cleanup_stopped_child_resources,
            (core, child, Some(uri), error, text, full),
            r,
        ),
        old(core).endpoints@.dom().contains(uri@),
        old(core).endpoints@[uri@].handle_id == child,
    ensures
        !old(core).monitored ==> r.event is None,
        old(core).monitored && old(core).endpoints@[uri@].endpoint_type is Listener ==> r.event
            == Some(SocketEvent::Closed { endpoint: old(core).endpoints@[uri@].endpoint_uri }),
        old(core).monitored && old(core).endpoints@[uri@].endpoint_type is Session && error is Some
            && (*error->0 is SecurityError || *error->0 is AuthenticationFailure) ==> (
        r.event matches Some(SocketEvent::HandshakeFailed { endpoint, error_msg }) && endpoint
            == old(core).endpoints@[uri@].endpoint_uri && error_msg@ == text@),
        old(core).monitored && old(core).endpoints@[uri@].endpoint_type is Session && (
        error is None || !(*error->0 is SecurityError || *error->0 is AuthenticationFailure))
            ==> r.event == Some(
            SocketEvent::Disconnected { endpoint: old(core).endpoints@[uri@].endpoint_uri },
        ),
{
}

/// Only a session is closed by its URI: it is forgotten with its pipes, and nothing else is. A
/// listener of that URI stays.
pub proof fn only_sessions_are_closed_by_uri(
    core: &mut CoreState,
    uri: &str,
    r: Option<ClosedSession>,
    other: Seq<char>,
)
    requires
        call_ensures(cleanup_session_state_by_uri, (core, uri), r),
        other != uri@,
    ensures
        r is Some <==> old(core).endpoints@.dom().contains(uri@) && old(core).endpoints@[uri@].endpoint_type is Session,
        r is None ==> final(core).endpoints@ == old(core).endpoints@ && final(core).pipes_tx == old(core).pipes_tx,
        r matches Some(c) ==> {
            &&& c.info == old(core).endpoints@[uri@]
            &&& !final(core).endpoints@.dom().contains(uri@)
            &&& c.info.pipe_ids matches Some((w, p)) ==> c.detached_pipe == Some(p) && !final(core).pipes_tx@.dom().contains(w) && !final(core).pipe_read_id_to_endpoint_uri@.dom().contains(p)
            &&& c.info.connection.is_uring ==> c.unregister_fd == Some(c.info.handle_id)
            &&& old(core).monitored ==> (c.event matches Some(SocketEvent::Disconnected {
                endpoint,
            }) && endpoint@ == uri@)
            &&& !old(core).monitored ==> c.event is None
        },
        final(core).endpoints@.dom().contains(other) <==> old(core).endpoints@.dom().contains(
            other,
        ),
        old(core).endpoints@.dom().contains(other) ==> final(core).endpoints@[other] == old(core).endpoints@[other],
{
}

/// The endpoint of a pipe that closed is forgotten, and where it was connected to is told; a
/// pipe that nobody knows only loses its reader.
pub proof fn closed_pipe_takes_its_endpoint(core: &mut CoreState, pipe: usize, r: ClosedPipe)
    requires
        call_ensures(cleanup_session_state_by_pipe, (core, pipe), r),
    ensures
        !old(core).pipe_read_id_to_endpoint_uri@.dom().contains(pipe) ==> final(core).endpoints
            == old(core).endpoints && !final(core).pipe_reader_tasks@.dom().contains(pipe)
            && r.target_uri is None && r.event is None,
        old(core).pipe_read_id_to_endpoint_uri@.dom().contains(pipe) && old(core).endpoints@.dom().contains(old(core).pipe_read_id_to_endpoint_uri@[pipe]@) ==> {
            let uri = old(core).pipe_read_id_to_endpoint_uri@[pipe]@;
            let info = old(core).endpoints@[uri];
            &&& final(core).endpoints@ == old(core).endpoints@.remove(uri)
            &&& r.target_uri == info.target_endpoint_uri
            &&& info.endpoint_type is Listener ==> r.abort_task == info.task
            &&& info.endpoint_type is Session ==> r.abort_task is None
            &&& info.pipe_ids matches Some((w, _)) ==> !final(core).pipes_tx@.dom().contains(w)
                && !final(core).pipe_read_id_to_endpoint_uri@.dom().contains(pipe) && !final(core).pipe_reader_tasks@.dom().contains(pipe)
            &&& old(core).monitored && info.endpoint_type is Session ==> r.event == Some(
                SocketEvent::Disconnected { endpoint: info.endpoint_uri },
            )
            &&& old(core).monitored && info.endpoint_type is Listener ==> r.event == Some(
                SocketEvent::Closed { endpoint: info.endpoint_uri },
            )
            &&& !old(core).monitored ==> r.event is None
            &&& info.connection.is_uring ==> r.unregister_fd == Some(info.handle_id)
        },
{
}

/// An in-process connection that is accepted can be written to and read from under the
/// connecter's URI, as a session that the socket did not make itself.
pub proof fn accepted_inproc_connection_is_entered(
    core: &mut CoreState,
    uri: String,
    tx: AsyncSender<Vec<Msg>>,
    write: usize,
    read: usize,
    handle: usize,
    connection: ConnectionRef,
    r: AcceptedInproc,
    other: Seq<char>,
)
    requires
        call_ensures(
            process_inproc_binding_request_event,
            (core, uri, tx, write, read, handle, connection),
            r,
        ),
        other != uri@,
    ensures
        final(core).pipes_tx@.dom().contains(write) && final(core).pipes_tx@[write] == tx,
        final(core).pipe_read_id_to_endpoint_uri@.dom().contains(read) && final(core).pipe_read_id_to_endpoint_uri@[read] == uri,
        final(core).endpoints@.dom().contains(uri@),
        final(core).endpoints@[uri@].endpoint_type is Session,
        final(core).endpoints@[uri@].pipe_ids == Some((write, read)),
        !final(core).endpoints@[uri@].is_outbound_connection,
        final(core).endpoints@[uri@].connection == connection,
        final(core).endpoints@[uri@].handle_id == handle,
        final(core).endpoints@[uri@].endpoint_uri == uri,
        final(core).endpoints@[uri@].task is None,
        final(core).endpoints@[uri@].target_endpoint_uri == Some(uri),
        r.attached_read_id == read && r.attached_write_id == write,
        old(core).monitored ==> (r.event matches Some(SocketEvent::Accepted { endpoint, peer_addr })
            && endpoint == uri && peer_addr@ == "inproc-connector-"@ + uri@),
        !old(core).monitored ==> r.event is None,
        final(core).endpoints@.dom().contains(other) <==> old(core).endpoints@.dom().contains(
            other,
        ),
        old(core).endpoints@.dom().contains(other) ==> final(core).endpoints@[other] == old(core).endpoints@[other],
{
}

/// A peer that closed a pipe closed the session that writes to it, which is found by that pipe;
/// a listener is not.
pub proof fn closed_peer_is_found_by_its_pipe(core: &CoreState, write: usize, r: Option<usize>, k: int, read: usize)
    requires
        call_ensures(handle_inproc_pipe_peer_closed_event, (core, write), r),
    ensures
        0 <= k < core.endpoints.listed().len() && core.endpoints.listed()[k].1.endpoint_type
            is Session && core.endpoints.listed()[k].1.pipe_ids == Some((write, read)) && (forall|
            i: int,
        |
            0 <= i < k ==> !writes_to((#[trigger] core.endpoints.listed()[i]).1, write)) ==> r
            == Some(read),
        (forall|i: int|
            0 <= i < core.endpoints.listed().len() ==> ((
            #[trigger] core.endpoints.listed()[i]).1.endpoint_type is Listener
                || core.endpoints.listed()[i].1.pipe_ids is None || (
            core.endpoints.listed()[i].1.pipe_ids->0).0 != write)) ==> r is None,
{
    let listed = core.endpoints.listed();
    if 0 <= k < listed.len() && listed[k].1.endpoint_type is Session && listed[k].1.pipe_ids
        == Some((write, read)) && (forall|i: int|
        0 <= i < k ==> !writes_to((#[trigger] listed[i]).1, write)) {
        lemma_first_writing_to(listed, write, k);
    }
    if forall|i: int|
        0 <= i < listed.len() ==> ((#[trigger] listed[i]).1.endpoint_type is Listener
            || listed[i].1.pipe_ids is None || (listed[i].1.pipe_ids->0).0 != write) {
        assert forall|i: int| 0 <= i < listed.len() implies !writes_to(
            (#[trigger] listed[i]).1,
            write,
        ) by {
            assert(listed[i].1.endpoint_type is Listener || listed[i].1.pipe_ids is None || (
            listed[i].1.pipe_ids->0).0 != write);
        }
        lemma_first_writing_to(listed, write, listed.len() as int);
    }
}

/// A send is acknowledged exactly where the message was taken; a full pipe, a closed one and a
/// lapse of time are told apart.
pub proof fn only_taken_messages_are_acknowledged<T>(
    answer: TrySent<T>,
    a: Result<(), ZmqError>,
    waited: WaitedSend,
    b: Result<(), ZmqError>,
)
    requires
        call_ensures(send_tried::<T>, (answer,), a),
        call_ensures(send_waited, (waited,), b),
    ensures
        a is Ok <==> answer is Sent,
        answer is Full ==> a->Err_0 is ResourceLimitReached,
        answer is Closed ==> a->Err_0 is ConnectionClosed,
        b is Ok <==> waited is Sent,
        waited is Closed ==> b->Err_0 is ConnectionClosed,
        waited is TimedOut ==> b->Err_0 is Timeout,
{
}

/// A send waits for room as long as the time limit says: for ever without one, and not at all
/// where it is zero.
pub proof fn send_waits_as_long_as_set(
    tx: &AsyncSender<Msg>,
    msg: Msg,
    limit: Option<Duration>,
    r: SendStep,
)
    requires
        call_ensures(send_msg_with_timeout, (tx, msg, limit), r),
    ensures
        limit is None || limit->0.spec_nanos() > 0 ==> r == SendStep::Wait(msg, limit),
        limit is Some && limit->0.spec_nanos() == 0 ==> exists|answer: TrySent<Msg>| #[trigger]
            frame_answered(*tx, msg, answer) && (r == SendStep::Done(Ok(())) <==> answer is Sent),
{
    if limit is Some && limit->0.spec_nanos() == 0 {
        let answer = choose|answer: TrySent<Msg>| #[trigger]
            frame_answered(*tx, msg, answer) && r == SendStep::Done(tried_result(answer));
        assert(frame_answered(*tx, msg, answer));
    }
}

/// A reader goes on until the pattern fails or the peer closes the pipe, and ends with the
/// failure, if there was one.
pub proof fn reader_goes_on_until_closed(
    fresh: PipeReader,
    a: &mut PipeReader,
    b: &mut PipeReader,
    result: Result<(), ZmqError>,
)
    requires
        call_ensures(PipeReader::new, (), fresh),
        call_ensures(PipeReader::message_handled, (a, result), ()),
        call_ensures(PipeReader::close_handled, (b, result), ()),
    ensures
        fresh.running && fresh.error is None,
        result is Ok ==> *final(a) == *old(a) && final(b).error is None,
        result matches Err(e) ==> !final(a).running && final(a).error == Some(e) && final(b).error
            == Some(e),
        !final(b).running,
{
}

/// An endpoint that is taken out costs nobody else a pipe or a reader, and one without pipes
/// costs none at all.
pub proof fn taking_out_an_endpoint_leaves_other_pipes(
    core: &mut CoreState,
    child: usize,
    uri: Option<&str>,
    error: Option<&ZmqError>,
    text: &str,
    full: bool,
    r: StoppedChild,
    pipe: usize,
)
    requires
        call_ensures(cleanup_stopped_child_resources, (core, child, uri, error, text, full), r),
    ensures
        !r.found ==> *final(core) == *old(core),
        endpoint_of_child(*old(core), child, text_of(uri)) matches Some(key) ==> {
            let info = old(core).endpoints@[key];
            &&& r.found
            &&& info.pipe_ids is None ==> final(core).pipes_tx == old(core).pipes_tx && final(core).pipe_reader_tasks == old(core).pipe_reader_tasks && final(core).pipe_read_id_to_endpoint_uri == old(core).pipe_read_id_to_endpoint_uri
            &&& info.pipe_ids matches Some((w, d)) ==> {
                &&& pipe != w ==> (final(core).pipes_tx@.dom().contains(pipe)
                    <==> old(core).pipes_tx@.dom().contains(pipe))
                &&& pipe != d ==> (final(core).pipe_reader_tasks@.dom().contains(pipe)
                    <==> old(core).pipe_reader_tasks@.dom().contains(pipe))
                &&& pipe != d ==> (final(core).pipe_read_id_to_endpoint_uri@.dom().contains(pipe)
                    <==> old(core).pipe_read_id_to_endpoint_uri@.dom().contains(pipe))
            }
            &&& !info.connection.is_uring ==> final(core).uring_fd_to_endpoint_uri
                == old(core).uring_fd_to_endpoint_uri
        },
{
}

/// The same of a session that is closed by its URI.
pub proof fn closing_a_session_leaves_other_pipes(
    core: &mut CoreState,
    uri: &str,
    r: Option<ClosedSession>,
    pipe: usize,
)
    requires
        call_ensures(cleanup_session_state_by_uri, (core, uri), r),
    ensures
        r is None ==> final(core).pipes_tx == old(core).pipes_tx && final(core).pipe_reader_tasks
            == old(core).pipe_reader_tasks && final(core).pipe_read_id_to_endpoint_uri
            == old(core).pipe_read_id_to_endpoint_uri && final(core).endpoints@
            == old(core).endpoints@,
        r matches Some(c) ==> {
            &&& c.info == old(core).endpoints@[uri@]
            &&& c.info.pipe_ids is None ==> final(core).pipes_tx == old(core).pipes_tx && final(core).pipe_reader_tasks == old(core).pipe_reader_tasks && final(core).pipe_read_id_to_endpoint_uri == old(core).pipe_read_id_to_endpoint_uri
            &&& c.info.pipe_ids matches Some((w, d)) ==> {
                &&& c.detached_pipe == Some(d)
                &&& !final(core).pipes_tx@.dom().contains(w)
                &&& !final(core).pipe_reader_tasks@.dom().contains(d)
                &&& !final(core).pipe_read_id_to_endpoint_uri@.dom().contains(d)
                &&& pipe != w ==> (final(core).pipes_tx@.dom().contains(pipe)
                    <==> old(core).pipes_tx@.dom().contains(pipe))
                &&& pipe != d ==> (final(core).pipe_reader_tasks@.dom().contains(pipe)
                    <==> old(core).pipe_reader_tasks@.dom().contains(pipe))
                &&& pipe != d ==> (final(core).pipe_read_id_to_endpoint_uri@.dom().contains(pipe)
                    <==> old(core).pipe_read_id_to_endpoint_uri@.dom().contains(pipe))
            }
            &&& c.event is Some <==> old(core).monitored
        },
{
}

} // verus!
