use vstd::prelude::*;
use vstd::string::*;

use tokio::sync::Semaphore;

use crate::error::{IoErrorKind, ZmqError};
use crate::socket::events::SocketEvent;
use crate::socket::patterns::pipe_coordinator;
use crate::socket::patterns::pipe_coordinator::new_semaphore;
use crate::socket::socket_core::event_processor::{ConnectionInteractionModel, SystemEvent};
use crate::socket::socket_core::state::ConnectionRef;
use crate::text::joined;
use crate::time::Duration;
use crate::transport::ipc::is_fatal_ipc_accept_error;
use crate::transport::tcp::is_fatal_accept_error;

verus! {

/// The transports that listen for connections.
#[derive(Debug, Clone, Copy, PartialEq, Eq, Structural)]
pub enum ListenerKind {
    Tcp,
    Ipc,
}

/// What follows the words of a listener's errors.
pub open spec fn kind_suffix(kind: ListenerKind) -> Seq<char> {
    match kind {
        ListenerKind::Tcp => Seq::empty(),
        ListenerKind::Ipc => " (IPC)"@,
    }
}

fn suffixed(words: &str, kind: ListenerKind) -> (s: String)
    ensures
        s@ == words@ + kind_suffix(kind),
{
    match kind {
        ListenerKind::Tcp => {
            assert(words@ + Seq::<char>::empty() =~= words@);
            words.to_owned()
        },
        ListenerKind::Ipc => joined(words, " (IPC)"),
    }
}

/// The scheme of a listener's URIs.
pub open spec fn scheme(kind: ListenerKind) -> Seq<char> {
    match kind {
        ListenerKind::Tcp => "tcp://"@,
        ListenerKind::Ipc => "ipc://"@,
    }
}

// ---------------------------------------------------------------------------
// The number of connections
// ---------------------------------------------------------------------------
/// How many connections a listener serves at once: the number that is set, but at least one,
/// and as many as can be counted where none is set.
pub open spec fn connection_limit(max_connections: Option<usize>) -> usize {
    match max_connections {
        None => usize::MAX,
        Some(n) => if n == 0 {
            1
        } else {
            n
        },
    }
}

/// The semaphore that bounds the connections of a listener. A limit beyond what a semaphore
/// holds, as where no limit is set, cannot be kept.
pub fn new_connection_limiter(max_connections: Option<usize>) -> (s: Semaphore)
    requires
        connection_limit(max_connections) <= usize::MAX / 8,
    ensures
        pipe_coordinator::permits_made(s) == connection_limit(max_connections),
{
    let n: usize = match max_connections {
        None => usize::MAX,
        Some(n) => n,
    };
    if n > 1 {
        new_semaphore(n)
    } else {
        new_semaphore(1)
    }
}

// ---------------------------------------------------------------------------
// The listener's command loop
// ---------------------------------------------------------------------------
/// What a listener hears.
#[derive(Debug, Clone, Copy, PartialEq, Eq, Structural)]
pub enum ListenerEvent {
    ContextTerminating,
    SocketClosing { socket_id: usize },
    OtherEvent,
    EventBusLagged,
    EventBusClosed,
    Stop,
    OtherCommand,
    MailboxClosed,
}

/// How the task that accepts connections ended.
#[derive(Debug)]
pub enum AcceptLoopEnd {
    InOrder,
    Cancelled,
    /// With what was said of it.
    Panicked(String),
}

/// The loop that keeps a listener until it is told to stop.
#[derive(Debug)]
pub struct ListenerLoop {
    pub kind: ListenerKind,
    pub parent_socket_id: usize,
    pub running: bool,
    /// Why the loop ended, where it did not end in order.
    pub error: Option<ZmqError>,
}

/// The error that an event leaves behind in a listener's loop.
pub open spec fn listener_fault(event: ListenerEvent, kind: ListenerKind) -> Option<Seq<char>> {
    match event {
        ListenerEvent::EventBusLagged => Some("Listener event bus lagged"@ + kind_suffix(kind)),
        ListenerEvent::EventBusClosed => Some("Listener event bus closed"@ + kind_suffix(kind)),
        ListenerEvent::MailboxClosed => Some(
            "Listener command mailbox closed by peer"@ + kind_suffix(kind),
        ),
        _ => None,
    }
}

impl ListenerLoop {
    pub fn new(kind: ListenerKind, parent_socket_id: usize) -> (l: ListenerLoop)
        ensures
            l == (ListenerLoop { kind, parent_socket_id, running: true, error: None }),
    {
        ListenerLoop { kind, parent_socket_id, running: true, error: None }
    }

    /// Takes an event. The loop ends, and accepting with it, on the end of the context or of
    /// the listener's socket, on a command to stop, and when nothing can be heard any more.
    pub fn on_event(&mut self, event: ListenerEvent)
        requires
            old(self).running,
            old(self).error is None,
        ensures
            final(self).kind == old(self).kind,
            final(self).parent_socket_id == old(self).parent_socket_id,
            final(self).running == match event {
                ListenerEvent::OtherEvent | ListenerEvent::OtherCommand => true,
                ListenerEvent::SocketClosing { socket_id } => socket_id
                    != old(self).parent_socket_id,
                _ => false,
            },
            match listener_fault(event, old(self).kind) {
                None => final(self).error is None,
                Some(words) => final(self).error matches Some(ZmqError::Internal(m)) && m@ == words,
            },
    {
        match event {
            ListenerEvent::ContextTerminating => {
                self.running = false;
            },
            ListenerEvent::SocketClosing { socket_id } => {
                if socket_id == self.parent_socket_id {
                    self.running = false;
                }
            },
            ListenerEvent::Stop => {
                self.running = false;
            },
            ListenerEvent::EventBusLagged => {
                self.running = false;
                self.error = Some(
                    ZmqError::Internal(suffixed("Listener event bus lagged", self.kind)),
                );
            },
            ListenerEvent::EventBusClosed => {
                self.running = false;
                self.error = Some(
                    ZmqError::Internal(suffixed("Listener event bus closed", self.kind)),
                );
            },
            ListenerEvent::MailboxClosed => {
                self.running = false;
                self.error = Some(
                    ZmqError::Internal(
                        suffixed("Listener command mailbox closed by peer", self.kind),
                    ),
                );
            },
            ListenerEvent::OtherEvent => {},
            ListenerEvent::OtherCommand => {},
        }
    }

    /// The error that the listener ends with, if any, once the task that accepts connections
    /// has ended. An earlier error goes before its panic.
    pub fn finish(self, accept_loop: AcceptLoopEnd) -> (r: Option<ZmqError>)
        requires
            !self.running,
        ensures
            match self.error {
                Some(e) => r == Some(e),
                None => match accept_loop {
                    AcceptLoopEnd::Panicked(words) => r matches Some(ZmqError::Internal(m)) && m@
                        == "Listener accept loop panicked"@ + kind_suffix(self.kind) + ": "@
                        + words@,
                    _ => r is None,
                },
            },
    {
        match self.error {
            Some(e) => Some(e),
            None => match accept_loop {
                AcceptLoopEnd::Panicked(words) => {
                    let mut m = suffixed("Listener accept loop panicked", self.kind);
                    m.append(": ");
                    m.append(words.as_str());
                    Some(ZmqError::Internal(m))
                },
                _ => None,
            },
        }
    }
}

// ---------------------------------------------------------------------------
// Accepting connections
// ---------------------------------------------------------------------------
/// A connection that was accepted.
#[derive(Debug)]
pub struct AcceptedConnection {
    /// The URI of this connection.
    pub connection_uri: String,
    /// What a monitor hears of it.
    pub event: SocketEvent,
}

/// What an accept that failed comes to.
#[derive(Debug)]
pub struct AcceptFailure {
    /// What a monitor hears of it.
    pub event: SocketEvent,
    /// The error with which accepting ends, where it does; otherwise it goes on after a
    /// pause.
    pub stop: Option<ZmqError>,
    pub pause: Duration,
}

/// How the setup of a new connection ended.
#[derive(Debug, Clone, Copy, PartialEq, Eq, Structural)]
pub enum ConnectionSetup {
    /// An actor serves the connection.
    Session { sca_handle_id: usize },
    /// The connection's descriptor is registered with io_uring.
    Uring { fd: usize, connection: ConnectionRef },
    Failed,
}

/// The error of accepting when the bound on connections is gone.
pub fn limiter_closed(kind: ListenerKind) -> (e: ZmqError)
    ensures
        e matches ZmqError::Internal(m) && m@ == match kind {
            ListenerKind::Tcp => "Connection limiter closed"@,
            ListenerKind::Ipc => "IPC Connection limiter closed"@,
        },
{
    ZmqError::Internal(
        match kind {
            ListenerKind::Tcp => "Connection limiter closed".to_owned(),
            ListenerKind::Ipc => "IPC Connection limiter closed".to_owned(),
        },
    )
}

/// A connection was accepted from a peer.
pub fn accepted(kind: ListenerKind, endpoint_uri: &str, peer_addr: &str) -> (r: AcceptedConnection)
    ensures
        r.connection_uri@ == scheme(kind) + peer_addr@,
        r.event matches SocketEvent::Accepted { endpoint, peer_addr: p } && endpoint@
            == endpoint_uri@ && p@ == peer_addr@,
{
    let connection_uri = match kind {
        ListenerKind::Tcp => joined("tcp://", peer_addr),
        ListenerKind::Ipc => joined("ipc://", peer_addr),
    };
    AcceptedConnection {
        connection_uri,
        event: SocketEvent::Accepted {
            endpoint: endpoint_uri.to_owned(),
            peer_addr: peer_addr.to_owned(),
        },
    }
}

/// An accept failed, with an error of the given kind, which the library knows as `error`.
/// Accepting ends where no later accept could succeed, and pauses for a tenth of a second
/// otherwise.
pub fn accept_failed(
    kind: ListenerKind,
    endpoint_uri: &str,
    io_kind: IoErrorKind,
    error: ZmqError,
    error_text: &str,
) -> (r: AcceptFailure)
    ensures
        r.event matches SocketEvent::AcceptFailed { endpoint, error_msg } && endpoint@
            == endpoint_uri@ && error_msg@ == error_text@,
        r.stop == if io_kind is InvalidInput || io_kind is BrokenPipe {
            Some(error)
        } else {
            None
        },
        r.pause.spec_nanos() == 100_000_000,
{
    let fatal: bool = match kind {
        ListenerKind::Tcp => is_fatal_accept_error(io_kind),
        ListenerKind::Ipc => is_fatal_ipc_accept_error(io_kind),
    };
    AcceptFailure {
        event: SocketEvent::AcceptFailed {
            endpoint: endpoint_uri.to_owned(),
            error_msg: error_text.to_owned(),
        },
        stop: if fatal {
            Some(error)
        } else {
            None
        },
        pause: Duration::from_millis(100),
    }
}

/// What the core is told of a new connection, where its setup succeeded.
pub fn connection_established(
    parent_core_id: usize,
    connection_uri: String,
    target_uri: String,
    setup: ConnectionSetup,
) -> (r: Option<SystemEvent>)
    ensures
        r == match setup {
            ConnectionSetup::Session { sca_handle_id } => Some(
                SystemEvent::NewConnectionEstablished {
                    parent_core_id,
                    endpoint_uri: connection_uri,
                    target_endpoint_uri: target_uri,
                    connection: None,
                    interaction_model: ConnectionInteractionModel::ViaSca { sca_handle_id },
                },
            ),
            ConnectionSetup::Uring { fd, connection } => Some(
                SystemEvent::NewConnectionEstablished {
                    parent_core_id,
                    endpoint_uri: connection_uri,
                    target_endpoint_uri: target_uri,
                    connection: Some(connection),
                    interaction_model: ConnectionInteractionModel::ViaUringFd { fd },
                },
            ),
            ConnectionSetup::Failed => None,
        },
{
    match setup {
        ConnectionSetup::Session { sca_handle_id } => Some(
            SystemEvent::NewConnectionEstablished {
                parent_core_id,
                endpoint_uri: connection_uri,
                target_endpoint_uri: target_uri,
                connection: None,
                interaction_model: ConnectionInteractionModel::ViaSca { sca_handle_id },
            },
        ),
        ConnectionSetup::Uring { fd, connection } => Some(
            SystemEvent::NewConnectionEstablished {
                parent_core_id,
                endpoint_uri: connection_uri,
                target_endpoint_uri: target_uri,
                connection: Some(connection),
                interaction_model: ConnectionInteractionModel::ViaUringFd { fd },
            },
        ),
        ConnectionSetup::Failed => None,
    }
}

/// What the io_uring worker answered to a registration.
#[derive(Debug)]
pub enum RegistrationReply {
    Registered { fd: usize },
    /// Another answer, in words.
    OtherSuccess(String),
    Refused(ZmqError),
    /// No answer, and why, in words.
    NoReply(String),
}

/// What the registration of a descriptor with io_uring comes to. Where it is refused the
/// descriptor is to be closed. `registered` are the words for an answer about another
/// descriptor.
pub fn registration_checked(raw_fd: usize, reply: RegistrationReply, registered: &str) -> (r:
    Result<(), ZmqError>)
    ensures
        match reply {
            RegistrationReply::Registered { fd } => if fd == raw_fd {
                r is Ok
            } else {
                r matches Err(ZmqError::Internal(m)) && m@ == "UringWorker unexpected success: "@
                    + registered@
            },
            RegistrationReply::OtherSuccess(words) => r matches Err(ZmqError::Internal(m)) && m@
                == "UringWorker unexpected success: "@ + words@,
            RegistrationReply::Refused(e) => r == Err::<(), ZmqError>(e),
            RegistrationReply::NoReply(words) => r matches Err(ZmqError::Internal(m)) && m@
                == "Register FD with UringWorker reply error: "@ + words@,
        },
{
    match reply {
        RegistrationReply::Registered { fd } => if fd == raw_fd {
            Ok(())
        } else {
            Err(ZmqError::Internal(joined("UringWorker unexpected success: ", registered)))
        },
        RegistrationReply::OtherSuccess(words) => Err(
            ZmqError::Internal(joined("UringWorker unexpected success: ", words.as_str())),
        ),
        RegistrationReply::Refused(e) => Err(e),
        RegistrationReply::NoReply(words) => Err(
            ZmqError::Internal(
                joined("Register FD with UringWorker reply error: ", words.as_str()),
            ),
        ),
    }
}

// ---------------------------------------------------------------------------
// Laws
// ---------------------------------------------------------------------------
/// A listener serves as many connections at once as is set, and at least one.
pub proof fn connections_are_limited_as_set(n: usize, s: Semaphore)
    requires
        call_ensures(new_connection_limiter, (Some(n),), s),
    ensures
        n > 0 ==> pipe_coordinator::permits_made(s) == n,
        n == 0 ==> pipe_coordinator::permits_made(s) == 1,
        connection_limit(None) == usize::MAX,
{
}

/// A listener goes on until its context, its own socket or a command ends it, or nothing can be
/// heard any more; only the last is an error.
pub proof fn listener_goes_on_until_told(
    kind: ListenerKind,
    parent: usize,
    fresh: ListenerLoop,
    l: &mut ListenerLoop,
    event: ListenerEvent,
)
    requires
        call_ensures(ListenerLoop::new, (kind, parent), fresh),
        call_ensures(ListenerLoop::on_event, (l, event), ()),
    ensures
        fresh.running && fresh.error is None && fresh.parent_socket_id == parent && fresh.kind
            == kind,
        event is OtherEvent || event is OtherCommand ==> final(l).running && final(l).error is None,
        event matches ListenerEvent::SocketClosing { socket_id } ==> (final(l).running <==> socket_id
            != old(l).parent_socket_id) && final(l).error is None,
        event is ContextTerminating || event is Stop ==> !final(l).running && final(l).error is None,
        event is EventBusLagged || event is EventBusClosed || event is MailboxClosed ==> !final(l).running && (final(l).error matches Some(e) && e is Internal),
{
}

/// A listener ends with the first error that it met, and a panic of its task counts where there
/// was none.
pub proof fn listener_ends_with_its_first_error(
    l: ListenerLoop,
    end: AcceptLoopEnd,
    r: Option<ZmqError>,
)
    requires
        call_ensures(ListenerLoop::finish, (l, end), r),
    ensures
        l.error is Some ==> r == l.error,
        l.error is None && !(end is Panicked) ==> r is None,
        l.error is None && end is Panicked ==> (r matches Some(e) && e is Internal),
{
}

/// A connection is known by its peer's address under the scheme of the listener, and a monitor
/// hears of the listener and the peer.
pub proof fn accepted_connection_is_known_by_its_peer(
    kind: ListenerKind,
    uri: &str,
    peer: &str,
    r: AcceptedConnection,
    e: ZmqError,
)
    requires
        call_ensures(accepted, (kind, uri, peer), r),
        call_ensures(limiter_closed, (kind,), e),
    ensures
        kind is Tcp ==> r.connection_uri@ == "tcp://"@ + peer@,
        kind is Ipc ==> r.connection_uri@ == "ipc://"@ + peer@,
        r.event matches SocketEvent::Accepted { endpoint, peer_addr } && endpoint@ == uri@
            && peer_addr@ == peer@,
        e is Internal,
{
}

/// Accepting goes on, after a tenth of a second, unless the listening socket itself is of no
/// use any more; a monitor hears of every failure.
pub proof fn accepting_goes_on_after_a_failure(
    kind: ListenerKind,
    uri: &str,
    io: IoErrorKind,
    error: ZmqError,
    text: &str,
    r: AcceptFailure,
)
    requires
        call_ensures(accept_failed, (kind, uri, io, error, text), r),
    ensures
        io is ConnectionAborted || io is ConnectionReset || io is ConnectionRefused
            || io is WouldBlock || io is TimedOut || io is PermissionDenied || io is NotFound
            || io is AddrInUse || io is AddrNotAvailable || io is Other ==> r.stop is None,
        io is InvalidInput || io is BrokenPipe ==> r.stop == Some(error),
        r.pause.spec_nanos() == 100_000_000,
        r.event matches SocketEvent::AcceptFailed { endpoint, error_msg } && endpoint@ == uri@
            && error_msg@ == text@,
{
}

/// The core is told of a connection exactly where its setup succeeded, with what serves it.
pub proof fn core_is_told_of_connections_that_stand(
    parent: usize,
    uri: String,
    target: String,
    setup: ConnectionSetup,
    r: Option<SystemEvent>,
)
    requires
        call_ensures(connection_established, (parent, uri, target, setup), r),
    ensures
        r is None <==> setup is Failed,
        r matches Some(e) ==> (e matches SystemEvent::NewConnectionEstablished {
            parent_core_id,
            endpoint_uri,
            target_endpoint_uri,
            connection,
            interaction_model,
        } && parent_core_id == parent && endpoint_uri == uri && target_endpoint_uri == target && (
        setup matches ConnectionSetup::Session { sca_handle_id } ==> connection is None
            && interaction_model == (ConnectionInteractionModel::ViaSca { sca_handle_id })) && (
        setup matches ConnectionSetup::Uring { fd, connection: c } ==> connection == Some(c)
            && interaction_model == (ConnectionInteractionModel::ViaUringFd { fd }))),
{
}

/// A descriptor is registered exactly where the worker says so of that very descriptor.
pub proof fn registration_is_of_the_descriptor(
    fd: usize,
    reply: RegistrationReply,
    words: &str,
    r: Result<(), ZmqError>,
)
    requires
        call_ensures(registration_checked, (fd, reply, words), r),
    ensures
        r is Ok <==> reply == (RegistrationReply::Registered { fd }),
        reply matches RegistrationReply::Refused(e) ==> r == Err::<(), ZmqError>(e),
        reply is OtherSuccess || reply is NoReply ==> r->Err_0 is Internal,
{
}

} // verus!
