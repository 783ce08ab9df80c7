use vstd::prelude::*;
use vstd::string::*;

use fibre::mpmc::{AsyncReceiver, AsyncSender};

use crate::error::ZmqError;
use crate::message::Msg;
use crate::socket::connection_iface::InprocConnection;
use crate::socket::events::SocketEvent;
use crate::socket::socket_core::event_processor;
use crate::socket::socket_core::event_processor::{open_pipe, SystemEvent};
use crate::socket::socket_core::state::{ConnectionRef, CoreState, EndpointInfo, EndpointType};
use crate::text;
use crate::text::{joined, strip_prefix};

verus! {

/// The clone of an `fibre::mpmc::AsyncSender`: another sending end of the same pipe.
#[verifier::external_body]
fn another_sender(tx: &AsyncSender<Vec<Msg>>) -> (r: AsyncSender<Vec<Msg>>)
    ensures
        event_processor::pipe_capacity(r) == event_processor::pipe_capacity(*tx),
        forall|rx: AsyncReceiver<Vec<Msg>>|
            event_processor::pipe_joins(*tx, rx) ==> #[trigger] event_processor::pipe_joins(r, rx),
{
    tx.clone()
}

/// Binds a socket to a name, once the context has registered it or refused to.
pub fn bind_inproc(core: &mut CoreState, name: String, registered: Result<(), ZmqError>) -> (r:
    Result<(), ZmqError>)
    ensures
        r == registered,
        *final(core) == (CoreState {
            bound_inproc_names: final(core).bound_inproc_names,
            ..*old(core)
        }),
        final(core).bound_inproc_names@ == if registered is Ok {
            old(core).bound_inproc_names@.insert(name@, ())
        } else {
            old(core).bound_inproc_names@
        },
{
    if registered.is_ok() {
        let _ = core.bound_inproc_names.insert(name, ());
    }
    registered
}

/// Whether an attempt to connect can be made.
#[derive(Debug)]
pub enum InprocBegin {
    /// Not: the error, and what a monitor and the core hear of it.
    Refused { error: ZmqError, monitor: Option<SocketEvent>, publish: Option<SystemEvent> },
    /// Go on with `request_inproc`.
    Ready,
}

/// Begins to connect to a name. It must be bound, and the socket's pattern must be there to
/// take what arrives.
pub fn begin_connect_inproc(
    core: &CoreState,
    name: &str,
    binder_known: bool,
    logic_available: bool,
) -> (r: InprocBegin)
    ensures
        if !binder_known {
            let words = "Inproc endpoint '"@ + name@ + "' not bound or not found"@;
            r matches InprocBegin::Refused { error, monitor, publish } && {
                &&& error matches ZmqError::ConnectionRefused(m) && m@ == words
                &&& monitor is Some == core.monitored
                &&& monitor matches Some(e) ==> (e matches SocketEvent::ConnectFailed {
                    endpoint,
                    error_msg,
                } && endpoint@ == "inproc://"@ + name@ && error_msg@ == words)
                &&& publish is None
            }
        } else if !logic_available {
            r matches InprocBegin::Refused { error, monitor, publish } && {
                &&& error matches ZmqError::Internal(m) && m@
                    == "ISocket logic unavailable for inproc connector's PipeReaderTask"@
                &&& monitor is None
                &&& publish matches Some(
                    SystemEvent::ConnectionAttemptFailed {
                        parent_core_id,
                        target_endpoint_uri,
                        error: e,
                    },
                ) && parent_core_id == core.handle && target_endpoint_uri@ == "inproc://"@ + name@
                    && e == error
            }
        } else {
            r is Ready
        },
{
    let uri = joined("inproc://", name);
    if !binder_known {
        let mut words = joined("Inproc endpoint '", name);
        words.append("' not bound or not found");
        let event = SocketEvent::ConnectFailed { endpoint: uri, error_msg: words.clone() };
        return InprocBegin::Refused {
            error: ZmqError::ConnectionRefused(words),
            monitor: core.send_monitor_event(event),
            publish: None,
        };
    }
    if !logic_available {
        let error = ZmqError::Internal(
            "ISocket logic unavailable for inproc connector's PipeReaderTask".to_owned(),
        );
        return InprocBegin::Refused {
            error: error.clone(),
            monitor: None,
            publish: Some(
                SystemEvent::ConnectionAttemptFailed {
                    parent_core_id: core.handle,
                    target_endpoint_uri: uri,
                    error,
                },
            ),
        };
    }
    InprocBegin::Ready
}

/// How many messages a pipe between two sockets of the process holds: as many as the larger
/// of the two limits of the connecting socket, and at least one.
pub open spec fn inproc_room(core: CoreState) -> usize {
    let rcv = core.options.rcvhwm;
    let snd = core.options.sndhwm;
    let larger = if rcv >= snd {
        rcv
    } else {
        snd
    };
    if larger == 0 {
        1
    } else {
        larger
    }
}

/// An attempt to connect that waits for its answer.
#[derive(Debug)]
pub struct InprocAttempt {
    pub name: String,
    pub connector_uri: String,
    pub write_id: usize,
    pub read_id: usize,
}

/// A request to connect.
#[derive(Debug)]
pub struct InprocRequest {
    pub attempt: InprocAttempt,
    /// What the bound socket hears.
    pub event: SystemEvent,
    /// Where the bound socket reads.
    pub binder_rx: AsyncReceiver<Vec<Msg>>,
    /// Where the connecting socket reads.
    pub connector_rx: AsyncReceiver<Vec<Msg>>,
    /// The connecting socket's side of the connection.
    pub connection: InprocConnection,
}

/// What a request enters into the connecting core's tables.
pub open spec fn inproc_requested(
    before: CoreState,
    after: CoreState,
    name: Seq<char>,
    write_id: usize,
    read_id: usize,
    entry_handle_id: usize,
    connection: ConnectionRef,
) -> bool {
    let uri = "inproc://"@ + name;
    let info = after.endpoints@[uri];
    &&& after.same_settings(before)
    &&& after.pipe_reader_tasks == before.pipe_reader_tasks
    &&& after.uring_fd_to_endpoint_uri == before.uring_fd_to_endpoint_uri
    &&& after.pipes_tx@ == before.pipes_tx@.insert(write_id, after.pipes_tx@[write_id])
    &&& event_processor::pipe_capacity(after.pipes_tx@[write_id]) == inproc_room(before)
    &&& after.endpoints@ == before.endpoints@.insert(uri, info)
    &&& info.task is None
    &&& info.endpoint_type is Session
    &&& info.endpoint_uri@ == uri
    &&& info.pipe_ids == Some((write_id, read_id))
    &&& info.handle_id == entry_handle_id
    &&& info.target_endpoint_uri matches Some(t) && t@ == uri
    &&& info.is_outbound_connection
    &&& info.peer_socket_type is None
    &&& info.connection == connection
    &&& after.pipe_read_id_to_endpoint_uri@ == before.pipe_read_id_to_endpoint_uri@.insert(
        read_id,
        info.endpoint_uri,
    )
}

/// Makes the two pipes of a connection, enters it into the tables and words the request to
/// the socket that is bound to the name.
pub fn request_inproc(
    core: &mut CoreState,
    name: String,
    write_id: usize,
    read_id: usize,
    entry_handle_id: usize,
    connection: ConnectionRef,
) -> (r: InprocRequest)
    ensures
        inproc_requested(
            *old(core),
            *final(core),
            name@,
            write_id,
            read_id,
            entry_handle_id,
            connection,
        ),
        r.attempt.name == name,
        r.attempt.connector_uri@ == "inproc://"@ + name@,
        r.attempt.write_id == write_id,
        r.attempt.read_id == read_id,
        r.event matches SystemEvent::InprocBindingRequest {
            target_inproc_name,
            connector_uri,
            pipe_to_connector,
            connector_pipe_write_id,
            connector_pipe_read_id,
        } && target_inproc_name == name && connector_uri@ == "inproc://"@ + name@
            && event_processor::pipe_capacity(pipe_to_connector) == inproc_room(*old(core))
            && event_processor::pipe_joins(pipe_to_connector, r.connector_rx)
            && connector_pipe_write_id == write_id && connector_pipe_read_id == read_id,
        r.connection.connection_id == entry_handle_id,
        r.connection.local_pipe_write_id_to_peer == write_id,
        r.connection.local_pipe_read_id_from_peer == read_id,
        r.connection.peer_inproc_name_or_uri@ == "inproc://"@ + name@,
        r.connection.monitored == old(core).monitored,
        r.connection.sndtimeo == old(core).options.sndtimeo,
        event_processor::pipe_capacity(r.connection.data_tx_to_peer) == inproc_room(*old(core)),
        event_processor::pipe_joins(r.connection.data_tx_to_peer, r.binder_rx),
        event_processor::pipe_joins(final(core).pipes_tx@[write_id], r.binder_rx),
{
    let rcv: usize = core.options.rcvhwm;
    let snd: usize = core.options.sndhwm;
    let larger: usize = if rcv >= snd {
        rcv
    } else {
        snd
    };
    let room: usize = if larger == 0 {
        1
    } else {
        larger
    };
    let uri = joined("inproc://", name.as_str());
    let (tx_to_binder, binder_rx) = open_pipe(room);
    let (tx_to_connector, connector_rx) = open_pipe(room);
    let data_tx_to_peer = another_sender(&tx_to_binder);
    let _ = core.pipes_tx.insert(write_id, tx_to_binder);
    let info = EndpointInfo {
        task: None,
        endpoint_type: EndpointType::Session,
        endpoint_uri: uri.clone(),
        pipe_ids: Some((write_id, read_id)),
        handle_id: entry_handle_id,
        target_endpoint_uri: Some(uri.clone()),
        is_outbound_connection: true,
        peer_socket_type: None,
        connection,
    };
    let _ = core.endpoints.insert(uri.clone(), info);
    let _ = core.pipe_read_id_to_endpoint_uri.insert(read_id, uri.clone());
    InprocRequest {
        attempt: InprocAttempt {
            name: name.clone(),
            connector_uri: uri.clone(),
            write_id,
            read_id,
        },
        event: SystemEvent::InprocBindingRequest {
            target_inproc_name: name,
            connector_uri: uri.clone(),
            pipe_to_connector: tx_to_connector,
            connector_pipe_write_id: write_id,
            connector_pipe_read_id: read_id,
        },
        binder_rx,
        connector_rx,
        connection: InprocConnection::new(
            entry_handle_id,
            write_id,
            read_id,
            uri,
            data_tx_to_peer,
            core.monitored,
            core.options.sndtimeo,
        ),
    }
}

/// The answer to a request to connect.
#[derive(Debug)]
pub enum InprocReply {
    Accepted,
    /// With the error in words.
    Rejected(ZmqError, String),
    /// The bound socket is gone.
    NoReply,
    /// The request could not be published.
    NotPublished,
}

/// What an attempt to connect comes to.
#[derive(Debug)]
pub struct InprocEnd {
    pub result: Result<(), ZmqError>,
    /// What a monitor hears.
    pub monitor: Option<SocketEvent>,
    /// Whether the socket's pattern is told of the new pipe.
    pub attach: bool,
    /// The reader task to stop.
    pub abort_reader: Option<usize>,
}

/// The tables without a connection.
pub open spec fn connection_taken_out(
    before: CoreState,
    after: CoreState,
    uri: Seq<char>,
    write_id: usize,
    read_id: usize,
) -> bool {
    &&& after.same_settings(before)
    &&& after.uring_fd_to_endpoint_uri == before.uring_fd_to_endpoint_uri
    &&& after.endpoints@ == before.endpoints@.remove(uri)
    &&& after.pipes_tx@ == before.pipes_tx@.remove(write_id)
    &&& after.pipe_reader_tasks@ == before.pipe_reader_tasks@.remove(read_id)
    &&& after.pipe_read_id_to_endpoint_uri@ == before.pipe_read_id_to_endpoint_uri@.remove(read_id)
}

/// Takes the answer to a request to connect. Unless the connection was accepted, it is taken
/// out of the tables again.
pub fn inproc_replied(core: &mut CoreState, attempt: InprocAttempt, reply: InprocReply) -> (r:
    InprocEnd)
    ensures
        reply is Accepted ==> *final(core) == *old(core),
        !(reply is Accepted) ==> connection_taken_out(
            *old(core),
            *final(core),
            attempt.connector_uri@,
            attempt.write_id,
            attempt.read_id,
        ),
        r.attach == reply is Accepted,
        r.result is Ok == reply is Accepted,
        r.abort_reader == if !(reply is Accepted) && old(core).pipe_reader_tasks@.dom().contains(
            attempt.read_id,
        ) {
            Some(old(core).pipe_reader_tasks@[attempt.read_id])
        } else {
            None
        },
        r.monitor is Some == (old(core).monitored && !(reply is NotPublished)),
        match reply {
            InprocReply::Accepted => r.monitor matches Some(e) ==> (e
                matches SocketEvent::Connected { endpoint, peer_addr } && endpoint
                == attempt.connector_uri && peer_addr@ == "inproc-binder-for-"@ + attempt.name@),
            InprocReply::Rejected(e, words) => {
                &&& r.result == Err::<(), ZmqError>(e)
                &&& r.monitor matches Some(ev) ==> ev == (SocketEvent::ConnectFailed {
                    endpoint: attempt.connector_uri,
                    error_msg: words,
                })
            },
            InprocReply::NoReply => {
                let words = "Binder for inproc endpoint '"@ + attempt.name@
                    + "' failed to reply or disappeared"@;
                &&& r.result matches Err(ZmqError::Internal(m)) && m@ == words
                &&& r.monitor matches Some(ev) ==> (ev matches SocketEvent::ConnectFailed {
                    endpoint,
                    error_msg,
                } && endpoint == attempt.connector_uri && error_msg@ == words)
            },
            InprocReply::NotPublished => r.result matches Err(ZmqError::Internal(m)) && m@
                == "Event bus publish failed for inproc connect request"@,
        },
{
    if let InprocReply::Accepted = reply {
        let peer_addr = joined("inproc-binder-for-", attempt.name.as_str());
        let event = SocketEvent::Connected { endpoint: attempt.connector_uri, peer_addr };
        return InprocEnd {
            result: Ok(()),
            monitor: core.send_monitor_event(event),
            attach: true,
            abort_reader: None,
        };
    }
    let _ = core.endpoints.remove(attempt.connector_uri.as_str());
    let removal = core.remove_pipe_state(attempt.write_id, attempt.read_id);
    let (error, words) = match reply {
        InprocReply::Rejected(e, words) => (e, words),
        InprocReply::NoReply => {
            let mut words = joined("Binder for inproc endpoint '", attempt.name.as_str());
            words.append("' failed to reply or disappeared");
            (ZmqError::Internal(words.clone()), words)
        },
        _ => {
            return InprocEnd {
                result: Err(
                    ZmqError::Internal(
                        "Event bus publish failed for inproc connect request".to_owned(),
                    ),
                ),
                monitor: None,
                attach: false,
                abort_reader: removal.abort_reader,
            };
        },
    };
    let event = SocketEvent::ConnectFailed { endpoint: attempt.connector_uri, error_msg: words };
    InprocEnd {
        result: Err(error),
        monitor: core.send_monitor_event(event),
        attach: false,
        abort_reader: removal.abort_reader,
    }
}

/// What is left to do when a connection has been taken down.
#[derive(Debug)]
pub struct InprocDisconnect {
    /// What the bound socket hears.
    pub publish: SystemEvent,
    /// The task to stop.
    pub abort_task: Option<usize>,
    /// The reader task to stop.
    pub abort_reader: Option<usize>,
    /// The pipe that the socket's pattern is told of.
    pub detach: Option<usize>,
    /// What a monitor hears.
    pub monitor: Option<SocketEvent>,
}

/// The endpoint is an in-process URI with a name.
pub open spec fn is_inproc_uri(uri: Seq<char>) -> bool {
    text::has_prefix(uri, "inproc://"@) && uri.len() > "inproc://"@.len()
}

/// Takes a connection down from the side that made it. One that is not there is no error.
pub fn disconnect_inproc(core: &mut CoreState, endpoint_uri: &str) -> (r: Result<
    Option<InprocDisconnect>,
    ZmqError,
>)
    ensures
        ({
            let uri = endpoint_uri@;
            let info = old(core).endpoints@[uri];
            let read_id = (info.pipe_ids->0).1;
            let write_id = (info.pipe_ids->0).0;
            if !is_inproc_uri(uri) {
                *final(core) == *old(core) && (r matches Err(ZmqError::InvalidEndpoint(m)) && m@
                    == uri)
            } else if !old(core).endpoints@.dom().contains(uri) {
                *final(core) == *old(core) && r matches Ok(None)
            } else if info.pipe_ids is None {
                *final(core) == *old(core) && (r matches Err(ZmqError::Internal(m)) && m@
                    == "Missing pipe IDs for stored inproc endpoint during disconnect"@)
            } else {
                &&& connection_taken_out(*old(core), *final(core), uri, write_id, read_id)
                &&& r matches Ok(Some(d)) && {
                    &&& d.publish matches SystemEvent::InprocPipePeerClosed {
                        target_inproc_name,
                        closed_by_connector_pipe_read_id,
                    } && target_inproc_name@ == uri.skip("inproc://"@.len() as int)
                        && closed_by_connector_pipe_read_id == read_id
                    &&& d.abort_task == info.task
                    &&& d.abort_reader == if old(core).pipe_reader_tasks@.dom().contains(read_id) {
                        Some(old(core).pipe_reader_tasks@[read_id])
                    } else {
                        None
                    }
                    &&& d.detach == if old(core).pipes_tx@.dom().contains(write_id) || old(core).pipe_reader_tasks@.dom().contains(read_id) || old(core).pipe_read_id_to_endpoint_uri@.dom().contains(read_id) {
                        Some(read_id)
                    } else {
                        None
                    }
                    &&& d.monitor is Some == old(core).monitored
                    &&& d.monitor matches Some(e) ==> (e matches SocketEvent::Disconnected {
                        endpoint,
                    } && endpoint@ == uri)
                }
            }
        }),
{
    let name = match strip_prefix(endpoint_uri, "inproc://") {
        Some(name) => name.to_owned(),
        None => {
            return Err(ZmqError::InvalidEndpoint(endpoint_uri.to_owned()));
        },
    };
    if name.as_str().unicode_len() == 0 {
        return Err(ZmqError::InvalidEndpoint(endpoint_uri.to_owned()));
    }
    let (task, pipe_ids) = match core.endpoints.get(endpoint_uri) {
        Some(info) => (info.task, info.pipe_ids),
        None => {
            return Ok(None);
        },
    };
    let (write_id, read_id) = match pipe_ids {
        Some(ids) => ids,
        None => {
            return Err(
                ZmqError::Internal(
                    "Missing pipe IDs for stored inproc endpoint during disconnect".to_owned(),
                ),
            );
        },
    };
    let _ = core.endpoints.remove(endpoint_uri);
    let removal = core.remove_pipe_state(write_id, read_id);
    let monitor = core.send_monitor_event(
        SocketEvent::Disconnected { endpoint: endpoint_uri.to_owned() },
    );
    Ok(
        Some(
            InprocDisconnect {
                publish: SystemEvent::InprocPipePeerClosed {
                    target_inproc_name: name,
                    closed_by_connector_pipe_read_id: read_id,
                },
                abort_task: task,
                abort_reader: removal.abort_reader,
                detach: if removal.removed {
                    Some(read_id)
                } else {
                    None
                },
                monitor,
            },
        ),
    )
}

/// A request to connect that is not granted leaves the tables as they were, where the name was
/// not connected to and the pipes are new.
pub proof fn failed_connect_leaves_no_trace(
    before: CoreState,
    during: CoreState,
    after: CoreState,
    name: Seq<char>,
    write_id: usize,
    read_id: usize,
    entry_handle_id: usize,
    connection: ConnectionRef,
)
    requires
        inproc_requested(before, during, name, write_id, read_id, entry_handle_id, connection),
        connection_taken_out(during, after, "inproc://"@ + name, write_id, read_id),
        !before.endpoints@.dom().contains("inproc://"@ + name),
        !before.pipes_tx@.dom().contains(write_id),
        !before.pipe_reader_tasks@.dom().contains(read_id),
        !before.pipe_read_id_to_endpoint_uri@.dom().contains(read_id),
    ensures
        after.same_settings(before),
        after.uring_fd_to_endpoint_uri == before.uring_fd_to_endpoint_uri,
        after.endpoints@ == before.endpoints@,
        after.pipes_tx@ == before.pipes_tx@,
        after.pipe_reader_tasks@ == before.pipe_reader_tasks@,
        after.pipe_read_id_to_endpoint_uri@ == before.pipe_read_id_to_endpoint_uri@,
{
    assert(after.endpoints@ =~= before.endpoints@);
    assert(after.pipes_tx@ =~= before.pipes_tx@);
    assert(after.pipe_reader_tasks@ =~= before.pipe_reader_tasks@);
    assert(after.pipe_read_id_to_endpoint_uri@ =~= before.pipe_read_id_to_endpoint_uri@);
}

// ---------------------------------------------------------------------------
// Laws
// ---------------------------------------------------------------------------
/// A name is bound exactly where the context registered it, and the refusal is reported.
pub proof fn registered_name_is_bound(
    core: &mut CoreState,
    name: String,
    registered: Result<(), ZmqError>,
    r: Result<(), ZmqError>,
    other: Seq<char>,
)
    requires
        call_ensures(bind_inproc, (core, name, registered), r),
        other != name@,
    ensures
        r is Ok <==> registered is Ok,
        registered is Err ==> r == registered && final(core).bound_inproc_names@ == old(core).bound_inproc_names@,
        registered is Ok ==> final(core).bound_inproc_names@.dom().contains(name@),
        final(core).bound_inproc_names@.dom().contains(other) <==> old(core).bound_inproc_names@.dom().contains(other),
        final(core).endpoints == old(core).endpoints,
{
}

/// A connection can be begun exactly where the name is bound and the pattern is there; a name
/// that is not bound refuses it.
pub proof fn only_bound_names_are_connected_to(
    core: &CoreState,
    name: &str,
    known: bool,
    logic: bool,
    r: InprocBegin,
)
    requires
        call_ensures(begin_connect_inproc, (core, name, known, logic), r),
    ensures
        r is Ready <==> known && logic,
        !known ==> (r matches InprocBegin::Refused { error, monitor, publish }
            && error is ConnectionRefused && (monitor is Some <==> core.monitored) && (
        monitor matches Some(e) ==> (e matches SocketEvent::ConnectFailed { endpoint, .. }
            && endpoint@ == "inproc://"@ + name@)) && publish is None),
        known && !logic ==> (r matches InprocBegin::Refused { error, publish, .. }
            && error is Internal && (publish matches Some(
            SystemEvent::ConnectionAttemptFailed { parent_core_id, target_endpoint_uri, error: e },
        ) && parent_core_id == core.handle && target_endpoint_uri@ == "inproc://"@ + name@ && e
            == error)),
{
}

/// A pipe within the process holds as many messages as the larger limit says, and at least one.
pub proof fn inproc_pipe_holds_the_larger_limit(core: CoreState)
    ensures
        inproc_room(core) >= core.options.rcvhwm,
        inproc_room(core) >= core.options.sndhwm,
        inproc_room(core) >= 1,
        inproc_room(core) == core.options.rcvhwm || inproc_room(core) == core.options.sndhwm
            || inproc_room(core) == 1,
        core.options.rcvhwm > 0 || core.options.sndhwm > 0 ==> inproc_room(core)
            == core.options.rcvhwm || inproc_room(core) == core.options.sndhwm,
{
}

/// A request joins the two ends: what the connecter writes the binder reads, and the other way
/// round; the connection is entered as an outgoing session under the name's URI.
pub proof fn request_joins_both_ends(
    core: &mut CoreState,
    name: String,
    write: usize,
    read: usize,
    handle: usize,
    connection: ConnectionRef,
    r: InprocRequest,
    other: Seq<char>,
)
    requires
        call_ensures(request_inproc, (core, name, write, read, handle, connection), r),
        other != "inproc://"@ + name@,
    ensures
        event_processor::pipe_joins(final(core).pipes_tx@[write], r.binder_rx),
        event_processor::pipe_joins(r.connection.data_tx_to_peer, r.binder_rx),
        r.event matches SystemEvent::InprocBindingRequest {
            target_inproc_name,
            connector_uri,
            pipe_to_connector,
            connector_pipe_write_id,
            connector_pipe_read_id,
        } && target_inproc_name == name && connector_uri@ == "inproc://"@ + name@
            && event_processor::pipe_joins(pipe_to_connector, r.connector_rx)
            && connector_pipe_write_id == write && connector_pipe_read_id == read,
        ({
            let info = final(core).endpoints@["inproc://"@ + name@];
            &&& final(core).endpoints@.dom().contains("inproc://"@ + name@)
            &&& info.is_outbound_connection && info.endpoint_type is Session
            &&& info.pipe_ids == Some((write, read))
            &&& info.connection == connection
            &&& info.handle_id == handle
        }),
        final(core).pipe_read_id_to_endpoint_uri@.dom().contains(read),
        final(core).pipe_read_id_to_endpoint_uri@[read]@ == "inproc://"@ + name@,
        final(core).endpoints@.dom().contains(other) <==> old(core).endpoints@.dom().contains(
            other,
        ),
        r.attempt.write_id == write && r.attempt.read_id == read && r.attempt.name == name,
        r.connection.sndtimeo == old(core).options.sndtimeo,
        r.connection.local_pipe_read_id_from_peer == read,
        r.connection.local_pipe_write_id_to_peer == write,
{
}

/// A connection stands exactly where it was accepted; otherwise it is taken out again and the
/// reason is reported.
pub proof fn only_accepted_connections_stand(
    core: &mut CoreState,
    attempt: InprocAttempt,
    reply: InprocReply,
    r: InprocEnd,
    other: Seq<char>,
)
    requires
        call_ensures(inproc_replied, (core, attempt, reply), r),
        other != attempt.connector_uri@,
    ensures
        r.result is Ok <==> reply is Accepted,
        r.attach <==> reply is Accepted,
        reply is Accepted ==> *final(core) == *old(core) && r.abort_reader is None,
        !(reply is Accepted) ==> {
            &&& !final(core).endpoints@.dom().contains(attempt.connector_uri@)
            &&& !final(core).pipes_tx@.dom().contains(attempt.write_id)
            &&& !final(core).pipe_read_id_to_endpoint_uri@.dom().contains(attempt.read_id)
            &&& old(core).pipe_reader_tasks@.dom().contains(attempt.read_id) ==> r.abort_reader
                == Some(old(core).pipe_reader_tasks@[attempt.read_id])
        },
        final(core).endpoints@.dom().contains(other) <==> old(core).endpoints@.dom().contains(
            other,
        ),
        reply matches InprocReply::Rejected(e, _) ==> r.result == Err::<(), ZmqError>(e),
        reply is NoReply || reply is NotPublished ==> r.result->Err_0 is Internal,
        old(core).monitored && reply is Accepted ==> (r.monitor matches Some(
            SocketEvent::Connected { endpoint, .. },
        ) && endpoint == attempt.connector_uri),
        old(core).monitored && (reply is Rejected || reply is NoReply) ==> (r.monitor matches Some(
            SocketEvent::ConnectFailed { endpoint, .. },
        ) && endpoint == attempt.connector_uri),
        !old(core).monitored ==> r.monitor is None,
{
}

/// Taking a connection down removes it and its pipes, tells the binder by its name which pipe
/// closed, and leaves every other endpoint; one that is not there is no error.
pub proof fn disconnected_endpoint_is_gone(
    core: &mut CoreState,
    uri: &str,
    r: Result<Option<InprocDisconnect>, ZmqError>,
    name: Seq<char>,
    write: usize,
    read: usize,
    other: Seq<char>,
)
    requires
        call_ensures(disconnect_inproc, (core, uri), r),
        uri@ == "inproc://"@ + name,
        name.len() > 0,
        other != uri@,
    ensures
        !old(core).endpoints@.dom().contains(uri@) ==> (r matches Ok(None)) && *final(core) == *old(core),
        old(core).endpoints@.dom().contains(uri@) && old(core).endpoints@[uri@].pipe_ids is None
            ==> (r matches Err(e) && e is Internal) && *final(core) == *old(core),
        old(core).endpoints@.dom().contains(uri@) && old(core).endpoints@[uri@].pipe_ids == Some(
            (write, read),
        ) ==> {
            &&& !final(core).endpoints@.dom().contains(uri@)
            &&& !final(core).pipes_tx@.dom().contains(write)
            &&& !final(core).pipe_read_id_to_endpoint_uri@.dom().contains(read)
            &&& r matches Ok(Some(d))
            &&& d.publish matches SystemEvent::InprocPipePeerClosed {
                target_inproc_name,
                closed_by_connector_pipe_read_id,
            } && target_inproc_name@ == name && closed_by_connector_pipe_read_id == read
            &&& d.abort_task == old(core).endpoints@[uri@].task
            &&& old(core).pipes_tx@.dom().contains(write) ==> d.detach == Some(read)
            &&& old(core).monitored ==> (d.monitor matches Some(SocketEvent::Disconnected {
                endpoint,
            }) && endpoint@ == uri@)
        },
        final(core).endpoints@.dom().contains(other) <==> old(core).endpoints@.dom().contains(
            other,
        ),
{
    let n = "inproc://"@.len() as int;
    assert(("inproc://"@ + name).take(n) =~= "inproc://"@);
    assert(("inproc://"@ + name).skip(n) =~= name);
}

/// What is no in-process URI with a name is refused.
pub proof fn other_uris_are_not_disconnected(
    core: &mut CoreState,
    uri: &str,
    r: Result<Option<InprocDisconnect>, ZmqError>,
)
    requires
        call_ensures(disconnect_inproc, (core, uri), r),
        forall|name: Seq<char>| name.len() > 0 ==> uri@ != #[trigger] ("inproc://"@ + name),
    ensures
        r matches Err(e) && e is InvalidEndpoint,
        *final(core) == *old(core),
{
    let n = "inproc://"@.len() as int;
    if is_inproc_uri(uri@) {
        assert(uri@ =~= "inproc://"@ + uri@.skip(n));
    }
}

/// Both pipes of a connection have room for as many messages as the larger high-water mark
/// says, and for one where both are zero. Nothing that was in the tables is disturbed.
pub proof fn inproc_pipes_have_the_larger_room(
    core: &mut CoreState,
    name: String,
    write: usize,
    read: usize,
    handle: usize,
    connection: ConnectionRef,
    r: InprocRequest,
    other: usize,
)
    requires
        call_ensures(request_inproc, (core, name, write, read, handle, connection), r),
        other != write,
        other != read,
    ensures
        event_processor::pipe_capacity(final(core).pipes_tx@[write]) == event_processor::pipe_capacity(
            r.connection.data_tx_to_peer,
        ),
        r.event matches SystemEvent::InprocBindingRequest { pipe_to_connector, .. }
            && event_processor::pipe_capacity(pipe_to_connector) == event_processor::pipe_capacity(
            r.connection.data_tx_to_peer,
        ),
        event_processor::pipe_capacity(r.connection.data_tx_to_peer) >= 1,
        event_processor::pipe_capacity(r.connection.data_tx_to_peer) >= old(core).options.rcvhwm,
        event_processor::pipe_capacity(r.connection.data_tx_to_peer) >= old(core).options.sndhwm,
        event_processor::pipe_capacity(r.connection.data_tx_to_peer) == old(core).options.rcvhwm
            || event_processor::pipe_capacity(r.connection.data_tx_to_peer) == old(core).options.sndhwm || event_processor::pipe_capacity(r.connection.data_tx_to_peer) == 1 && old(core).options.rcvhwm == 0 && old(core).options.sndhwm == 0,
        final(core).pipes_tx@.dom().contains(other) <==> old(core).pipes_tx@.dom().contains(other),
        final(core).pipe_read_id_to_endpoint_uri@.dom().contains(other)
            <==> old(core).pipe_read_id_to_endpoint_uri@.dom().contains(other),
        final(core).pipe_reader_tasks == old(core).pipe_reader_tasks,
        final(core).options == old(core).options,
        r.connection.connection_id == handle,
        r.connection.monitored == old(core).monitored,
        r.connection.peer_inproc_name_or_uri@ == "inproc://"@ + name@,
        r.attempt.connector_uri@ == "inproc://"@ + name@,
{
}

} // verus!
