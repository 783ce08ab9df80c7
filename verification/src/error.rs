use vstd::prelude::*;

verus! {

/// The kinds of operating-system errors that the library tells apart.
#[derive(Clone, Copy, Debug, PartialEq, Eq, Structural)]
pub enum IoErrorKind {
    AddrInUse,
    AddrNotAvailable,
    BrokenPipe,
    ConnectionAborted,
    ConnectionRefused,
    ConnectionReset,
    InvalidInput,
    NotFound,
    PermissionDenied,
    TimedOut,
    WouldBlock,
    Other,
}

/// What can go wrong in a socket operation.
#[derive(Debug)]
pub enum ZmqError {
    /// An operating-system error, by its kind and its message.
    IoError { kind: IoErrorKind, message: String },
    InvalidEndpoint(String),
    InvalidArgument(String),
    InvalidMessage(String),
    InvalidState(String),
    InvalidOptionValue(i32),
    InvalidSocketType(String),
    UnsupportedOption(i32),
    UnsupportedTransport(String),
    UnsupportedFeature(String),
    AddrInUse(String),
    DnsResolutionFailed(String),
    ConnectionRefused(String),
    HostUnreachable(String),
    ConnectionClosed,
    Timeout,
    ResourceLimitReached,
    MessageTooLarge(usize, usize),
    SecurityError(String),
    AuthenticationFailure(String),
    ProtocolViolation(String),
    Internal(String),
    Shutdown,
}

impl Clone for ZmqError {
    fn clone(&self) -> (e: ZmqError)
        ensures
            e == *self,
    {
        match self {
            ZmqError::IoError { kind, message } => ZmqError::IoError {
                kind: *kind,
                message: message.clone(),
            },
            ZmqError::InvalidEndpoint(s) => ZmqError::InvalidEndpoint(s.clone()),
            ZmqError::InvalidArgument(s) => ZmqError::InvalidArgument(s.clone()),
            ZmqError::InvalidMessage(s) => ZmqError::InvalidMessage(s.clone()),
            ZmqError::InvalidState(s) => ZmqError::InvalidState(s.clone()),
            ZmqError::InvalidOptionValue(o) => ZmqError::InvalidOptionValue(*o),
            ZmqError::InvalidSocketType(s) => ZmqError::InvalidSocketType(s.clone()),
            ZmqError::UnsupportedOption(o) => ZmqError::UnsupportedOption(*o),
            ZmqError::UnsupportedTransport(s) => ZmqError::UnsupportedTransport(s.clone()),
            ZmqError::UnsupportedFeature(s) => ZmqError::UnsupportedFeature(s.clone()),
            ZmqError::AddrInUse(s) => ZmqError::AddrInUse(s.clone()),
            ZmqError::DnsResolutionFailed(s) => ZmqError::DnsResolutionFailed(s.clone()),
            ZmqError::ConnectionRefused(s) => ZmqError::ConnectionRefused(s.clone()),
            ZmqError::HostUnreachable(s) => ZmqError::HostUnreachable(s.clone()),
            ZmqError::ConnectionClosed => ZmqError::ConnectionClosed,
            ZmqError::Timeout => ZmqError::Timeout,
            ZmqError::ResourceLimitReached => ZmqError::ResourceLimitReached,
            ZmqError::MessageTooLarge(n, m) => ZmqError::MessageTooLarge(*n, *m),
            ZmqError::SecurityError(s) => ZmqError::SecurityError(s.clone()),
            ZmqError::AuthenticationFailure(s) => ZmqError::AuthenticationFailure(s.clone()),
            ZmqError::ProtocolViolation(s) => ZmqError::ProtocolViolation(s.clone()),
            ZmqError::Internal(s) => ZmqError::Internal(s.clone()),
            ZmqError::Shutdown => ZmqError::Shutdown,
        }
    }
}

} // verus!
