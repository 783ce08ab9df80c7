use vstd::prelude::*;
use vstd::string::*;

use crate::error::{IoErrorKind, ZmqError};
use crate::socket::events::SocketEvent;
use crate::socket::socket_core::event_processor::{ConnectionInteractionModel, SystemEvent};
use crate::text;
use crate::text::{contains_text, decimal, joined};
use crate::time::Duration;
use crate::transport::listener::{connection_established, ConnectionSetup};

verus! {

/// Whether a listener cannot go on after this error.
pub fn is_fatal_ipc_accept_error(kind: IoErrorKind) -> (b: bool)
    ensures
        b == (kind is InvalidInput || kind is BrokenPipe),
{
    matches!(kind, IoErrorKind::InvalidInput | IoErrorKind::BrokenPipe)
}

/// The name of a peer that connected to a listener, after its descriptor.
pub fn accepted_peer_name(fd: usize) -> (s: String)
    ensures
        s@ == "ipc-peer-fd-"@ + text::decimal_text(fd as nat),
{
    joined("ipc-peer-fd-", decimal(fd).as_str())
}

/// How long an attempt to connect may take: the handshake interval, or five seconds.
pub fn connect_timeout(handshake_ivl: Option<Duration>) -> (d: Duration)
    ensures
        match handshake_ivl {
            Some(h) => d == h,
            None => d.spec_nanos() == 5_000_000_000,
        },
{
    match handshake_ivl {
        Some(h) => h,
        None => Duration::from_secs(5),
    }
}

/// How an attempt to connect ended.
#[derive(Debug)]
pub enum ConnectOutcome {
    /// On a descriptor, with the actor that serves it.
    Connected { fd: usize, sca_handle_id: usize },
    Failed(ZmqError),
    TimedOut,
    /// The context or the socket was being closed.
    Aborted,
}

/// The error of an attempt that the closing of the context or of the socket cut short.
pub fn connect_aborted() -> (e: ZmqError)
    ensures
        e matches ZmqError::Internal(m) && m@ == "IPC Connect aborted by system event."@,
{
    ZmqError::Internal("IPC Connect aborted by system event.".to_owned())
}

/// What an attempt to connect comes to.
#[derive(Debug)]
pub struct ConnectEnd {
    /// What a monitor hears.
    pub monitor: SocketEvent,
    /// What the core hears.
    pub publish: Option<SystemEvent>,
    /// The error that the attempt ended with.
    pub error: Option<ZmqError>,
}

/// The URI of a connection that was made to a listener.
pub open spec fn connected_uri(fd: usize) -> Seq<char> {
    "ipc://"@ + ("ipc-fd-"@ + text::decimal_text(fd as nat))
}

/// Whether the core is told of a failure: unless it is what came of being closed.
pub open spec fn is_reported(e: ZmqError) -> bool {
    !(e matches ZmqError::Internal(s) && text::contains_part(s@, "aborted by system event"@))
}

/// What an attempt to connect comes to. `error_text` puts a failure into words.
pub fn connect_attempted(
    parent_socket_id: usize,
    endpoint_uri: &str,
    outcome: ConnectOutcome,
    error_text: &str,
) -> (r: ConnectEnd)
    ensures
        match outcome {
            ConnectOutcome::Connected { fd, sca_handle_id } => {
                &&& r.monitor matches SocketEvent::Connected { endpoint, peer_addr } && endpoint@
                    == endpoint_uri@ && peer_addr@ == connected_uri(fd)
                &&& r.publish matches Some(
                    SystemEvent::NewConnectionEstablished {
                        parent_core_id,
                        endpoint_uri: u,
                        target_endpoint_uri: t,
                        connection,
                        interaction_model,
                    },
                ) && parent_core_id == parent_socket_id && u@ == connected_uri(fd) && t@
                    == endpoint_uri@ && connection is None && interaction_model == (
                ConnectionInteractionModel::ViaSca { sca_handle_id })
                &&& r.error is None
            },
            _ => {
                &&& r.monitor matches SocketEvent::ConnectFailed { endpoint, error_msg }
                    && endpoint@ == endpoint_uri@ && error_msg@ == error_text@
                &&& r.error matches Some(e) && {
                    &&& match outcome {
                        ConnectOutcome::Failed(f) => e == f,
                        ConnectOutcome::TimedOut => e is Timeout,
                        _ => e matches ZmqError::Internal(m) && m@
                            == "IPC Connect aborted by system event."@,
                    }
                    &&& if is_reported(e) {
                        r.publish matches Some(
                            SystemEvent::ConnectionAttemptFailed {
                                parent_core_id,
                                target_endpoint_uri,
                                error,
                            },
                        ) && parent_core_id == parent_socket_id && target_endpoint_uri@
                            == endpoint_uri@ && error == e
                    } else {
                        r.publish is None
                    }
                }
            },
        },
{
    let error = match outcome {
        ConnectOutcome::Connected { fd, sca_handle_id } => {
            let name = joined("ipc-fd-", decimal(fd).as_str());
            let uri = joined("ipc://", name.as_str());
            return ConnectEnd {
                monitor: SocketEvent::Connected {
                    endpoint: endpoint_uri.to_owned(),
                    peer_addr: uri.clone(),
                },
                publish: connection_established(
                    parent_socket_id,
                    uri,
                    endpoint_uri.to_owned(),
                    ConnectionSetup::Session { sca_handle_id },
                ),
                error: None,
            };
        },
        ConnectOutcome::Failed(e) => e,
        ConnectOutcome::TimedOut => ZmqError::Timeout,
        ConnectOutcome::Aborted => connect_aborted(),
    };
    let aborted: bool = match &error {
        ZmqError::Internal(s) => contains_text(s.as_str(), "aborted by system event"),
        _ => false,
    };
    let publish = if aborted {
        None
    } else {
        Some(
            SystemEvent::ConnectionAttemptFailed {
                parent_core_id: parent_socket_id,
                target_endpoint_uri: endpoint_uri.to_owned(),
                error: error.clone(),
            },
        )
    };
    ConnectEnd {
        monitor: SocketEvent::ConnectFailed {
            endpoint: endpoint_uri.to_owned(),
            error_msg: error_text.to_owned(),
        },
        publish,
        error: Some(error),
    }
}

/// The error of a connection that the core could not be told of.
pub fn publish_failed() -> (e: ZmqError)
    ensures
        e matches ZmqError::Internal(m) && m@ == "IPC Failed to publish NewConnection"@,
{
    ZmqError::Internal("IPC Failed to publish NewConnection".to_owned())
}

// ---------------------------------------------------------------------------
// Laws
// ---------------------------------------------------------------------------
/// Only a listening socket that is of no use any more ends accepting.
pub proof fn passing_errors_do_not_end_accepting(kind: IoErrorKind, b: bool)
    requires
        call_ensures(is_fatal_ipc_accept_error, (kind,), b),
    ensures
        kind is ConnectionAborted || kind is ConnectionReset || kind is ConnectionRefused
            || kind is WouldBlock || kind is TimedOut || kind is PermissionDenied || kind is NotFound
            || kind is AddrInUse || kind is AddrNotAvailable || kind is Other ==> !b,
        kind is InvalidInput || kind is BrokenPipe ==> b,
{
}

/// An attempt may take as long as a handshake, and five seconds where that is not set. A peer
/// is named after its descriptor.
pub proof fn attempts_take_a_handshake_at_most(
    h: Option<Duration>,
    d: Duration,
    fd: usize,
    name: String,
    aborted: ZmqError,
    unpublished: ZmqError,
)
    requires
        call_ensures(connect_timeout, (h,), d),
        call_ensures(accepted_peer_name, (fd,), name),
        call_ensures(connect_aborted, (), aborted),
        call_ensures(publish_failed, (), unpublished),
    ensures
        h is Some ==> d == h->0,
        h is None ==> d.spec_nanos() == 5 * 1_000_000_000,
        name@ == "ipc-peer-fd-"@ + text::decimal_text(fd as nat),
        aborted is Internal && unpublished is Internal,
{
}

/// A connection that was made is told of to the core and a monitor, under a URI of its own and
/// with its target.
pub proof fn made_connection_is_told_of(
    parent: usize,
    uri: &str,
    fd: usize,
    sca: usize,
    text: &str,
    r: ConnectEnd,
)
    requires
        call_ensures(
            connect_attempted,
            (parent, uri, ConnectOutcome::Connected { fd, sca_handle_id: sca }, text),
            r,
        ),
    ensures
        r.error is None,
        r.publish matches Some(
            SystemEvent::NewConnectionEstablished {
                parent_core_id,
                endpoint_uri,
                target_endpoint_uri,
                connection,
                interaction_model,
            },
        ) && parent_core_id == parent && target_endpoint_uri@ == uri@ && endpoint_uri@ == "ipc://"@
            + ("ipc-fd-"@ + text::decimal_text(fd as nat)) && connection is None
            && interaction_model == (ConnectionInteractionModel::ViaSca { sca_handle_id: sca }),
        r.monitor matches SocketEvent::Connected { endpoint, .. } && endpoint@ == uri@,
{
}

/// Every failure is an error of the attempt and told of to a monitor. The core hears of it too,
/// unless it came of closing.
pub proof fn failed_attempt_is_told_of(
    parent: usize,
    uri: &str,
    outcome: ConnectOutcome,
    text: &str,
    r: ConnectEnd,
)
    requires
        call_ensures(connect_attempted, (parent, uri, outcome, text), r),
        !(outcome is Connected),
    ensures
        outcome matches ConnectOutcome::Failed(e) ==> r.error == Some(e),
        outcome is TimedOut ==> (r.error matches Some(e) && e is Timeout),
        outcome is Aborted ==> (r.error matches Some(e) && e is Internal) && r.publish is None,
        outcome is TimedOut || (outcome is Failed && !(outcome->Failed_0 is Internal)) ==> (
        r.publish matches Some(
            SystemEvent::ConnectionAttemptFailed { parent_core_id, target_endpoint_uri, error },
        ) && parent_core_id == parent && target_endpoint_uri@ == uri@ && Some(error) == r.error),
        r.monitor matches SocketEvent::ConnectFailed { endpoint, error_msg } && endpoint@ == uri@
            && error_msg@ == text@,
{
    if outcome is Aborted {
        let words = "IPC Connect aborted by system event."@;
        let part = "aborted by system event"@;
        reveal_strlit("IPC Connect aborted by system event.");
        reveal_strlit("aborted by system event");
        assert(words.subrange(12, (12 + part.len()) as int) =~= part);
        assert(text::is_at(words, part, 12));
    }
}

} // verus!
