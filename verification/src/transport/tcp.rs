use vstd::prelude::*;
use vstd::string::*;

use crate::error::{IoErrorKind, ZmqError};
use crate::socket::events::SocketEvent;
use crate::socket::options::SocketOptions;
use crate::socket::socket_core::event_processor::SystemEvent;
use crate::text;
use crate::text::{contains_text, joined, strip_prefix};
use crate::time;
use crate::time::Duration;
use crate::transport::address::SocketAddr;

verus! {

/// The time before a first attempt to reconnect where none is set, in milliseconds.
pub const DEFAULT_RECONNECT_IVL_MS: u64 = 100;

/// How many connections may wait to be accepted where no number is set.
pub const DEFAULT_BACKLOG: i32 = 128;

/// Whether a listener cannot go on after this error.
pub fn is_fatal_accept_error(kind: IoErrorKind) -> (b: bool)
    ensures
        b == (kind is InvalidInput || kind is BrokenPipe),
{
    matches!(kind, IoErrorKind::InvalidInput | IoErrorKind::BrokenPipe)
}

/// The errors after which connecting is not tried again: a wrong address, a wrong
/// endpoint, a name that does not resolve. Refusals, timeouts and failed handshakes
/// pass.
pub open spec fn fatal_connect_error(e: ZmqError) -> bool {
    match e {
        ZmqError::IoError { kind, .. } => kind is AddrNotAvailable || kind is AddrInUse || kind
            is InvalidInput || kind is PermissionDenied,
        ZmqError::InvalidEndpoint(_)
        | ZmqError::UnsupportedTransport(_)
        | ZmqError::DnsResolutionFailed(_) => true,
        _ => false,
    }
}

pub fn is_fatal_connect_error(e: &ZmqError) -> (b: bool)
    ensures
        b == fatal_connect_error(*e),
{
    match e {
        ZmqError::IoError { kind, .. } => matches!(
            kind,
            IoErrorKind::AddrNotAvailable
            | IoErrorKind::AddrInUse
            | IoErrorKind::InvalidInput
            | IoErrorKind::PermissionDenied
        ),
        ZmqError::InvalidEndpoint(_)
        | ZmqError::UnsupportedTransport(_)
        | ZmqError::DnsResolutionFailed(_) => true,
        _ => false,
    }
}

// ---------------------------------------------------------------------------
// Keepalive
// ---------------------------------------------------------------------------
/// How TCP connections are set up.
#[derive(Debug, Clone, Copy)]
pub struct TcpTransportConfig {
    pub tcp_nodelay: bool,
    pub keepalive_time: Option<Duration>,
    pub keepalive_interval: Option<Duration>,
    pub keepalive_count: Option<u32>,
}

/// How the stream of a connection is made ready.
#[derive(Debug, Clone, Copy)]
pub struct StreamSetup {
    pub config: TcpTransportConfig,
    /// Whether io_uring serves the connection.
    pub via_uring: bool,
    /// Whether segments are held back until they are full.
    pub cork: bool,
}

/// The setup that a socket's options ask for. `uring_built` says whether there is an io_uring
/// to serve connections; without one the option for it is of no effect, and segments are held
/// back only with one.
pub fn stream_setup(options: &SocketOptions, uring_built: bool) -> (r: StreamSetup)
    ensures
        r.config == (TcpTransportConfig {
            tcp_nodelay: options.tcp_nodelay,
            keepalive_time: options.tcp_keepalive_idle,
            keepalive_interval: options.tcp_keepalive_interval,
            keepalive_count: options.tcp_keepalive_count,
        }),
        r.via_uring == (options.io_uring.session_enabled && uring_built),
        r.cork == (r.via_uring && options.tcp_cork),
{
    let via_uring: bool = options.io_uring.session_enabled && uring_built;
    StreamSetup {
        config: TcpTransportConfig {
            tcp_nodelay: options.tcp_nodelay,
            keepalive_time: options.tcp_keepalive_idle,
            keepalive_interval: options.tcp_keepalive_interval,
            keepalive_count: options.tcp_keepalive_count,
        },
        via_uring,
        cork: via_uring && options.tcp_cork,
    }
}

/// The keepalive settings of a connection; what is `None` is left to the system.
#[derive(Debug, Clone, Copy)]
pub struct KeepaliveSettings {
    pub time: Option<Duration>,
    pub interval: Option<Duration>,
    pub retries: Option<u32>,
}

/// The keepalive settings that a connection is given, where any is set.
pub fn keepalive_settings(config: &TcpTransportConfig) -> (r: Option<KeepaliveSettings>)
    ensures
        r == if config.keepalive_time is Some || config.keepalive_interval is Some
            || config.keepalive_count is Some {
            Some(
                KeepaliveSettings {
                    time: config.keepalive_time,
                    interval: config.keepalive_interval,
                    retries: config.keepalive_count,
                },
            )
        } else {
            None
        },
{
    if config.keepalive_time.is_some() || config.keepalive_interval.is_some()
        || config.keepalive_count.is_some() {
        Some(
            KeepaliveSettings {
                time: config.keepalive_time,
                interval: config.keepalive_interval,
                retries: config.keepalive_count,
            },
        )
    } else {
        None
    }
}

// ---------------------------------------------------------------------------
// Listening
// ---------------------------------------------------------------------------
/// How a listening socket is made.
#[derive(Debug, Clone, Copy)]
pub struct ListenerSetup {
    pub bind_addr: SocketAddr,
    pub is_ipv6: bool,
    /// Whether IPv4 connections are taken too.
    pub dual_stack: bool,
    pub reuse_address: bool,
    pub backlog: i32,
}

/// The part of a listener's endpoint that is looked up.
pub fn listener_host(endpoint: &str) -> (r: Result<String, ZmqError>)
    ensures
        match r {
            Ok(host) => text::has_prefix(endpoint@, "tcp://"@) && host@ == endpoint@.skip(
                "tcp://"@.len() as int,
            ),
            Err(e) => !text::has_prefix(endpoint@, "tcp://"@) && (e
                matches ZmqError::InvalidEndpoint(m) && m@ == endpoint@),
        },
{
    match strip_prefix(endpoint, "tcp://") {
        Some(host) => Ok(host.to_owned()),
        None => Err(ZmqError::InvalidEndpoint(endpoint.to_owned())),
    }
}

/// The socket that a listener is given, on the first of the addresses that its host was found
/// to have. A lookup that failed comes in words.
pub fn listener_setup(
    host: &str,
    lookup: Result<Vec<SocketAddr>, String>,
    backlog: Option<i32>,
) -> (r: Result<ListenerSetup, ZmqError>)
    ensures
        match lookup {
            Err(words) => r matches Err(ZmqError::DnsResolutionFailed(m)) && m@
                == "Failed to resolve listener address '"@ + host@ + "': "@ + words@,
            Ok(addrs) => if addrs@.len() == 0 {
                r matches Err(ZmqError::DnsResolutionFailed(m)) && m@
                    == "No IP addresses found for listener host '"@ + host@ + "'"@
            } else {
                let is_ipv6 = addrs@[0].ip is V6;
                r == Ok::<ListenerSetup, ZmqError>(
                    ListenerSetup {
                        bind_addr: addrs@[0],
                        is_ipv6,
                        dual_stack: is_ipv6,
                        reuse_address: true,
                        backlog: match backlog {
                            Some(n) => n,
                            None => DEFAULT_BACKLOG,
                        },
                    },
                )
            },
        },
{
    let addrs = match lookup {
        Ok(addrs) => addrs,
        Err(words) => {
            let mut m = joined("Failed to resolve listener address '", host);
            m.append("': ");
            m.append(words.as_str());
            return Err(ZmqError::DnsResolutionFailed(m));
        },
    };
    if addrs.len() == 0 {
        let mut m = joined("No IP addresses found for listener host '", host);
        m.append("'");
        return Err(ZmqError::DnsResolutionFailed(m));
    }
    let bind_addr = addrs[0];
    let is_ipv6: bool = bind_addr.ip.is_ipv6();
    Ok(
        ListenerSetup {
            bind_addr,
            is_ipv6,
            dual_stack: is_ipv6,
            reuse_address: true,
            backlog: match backlog {
                Some(n) => n,
                None => DEFAULT_BACKLOG,
            },
        },
    )
}

/// The URI of an address, given in words.
pub fn tcp_uri(addr: &str) -> (s: String)
    ensures
        s@ == "tcp://"@ + addr@,
{
    joined("tcp://", addr)
}

// ---------------------------------------------------------------------------
// Connecting: one address after another
// ---------------------------------------------------------------------------
/// The addresses of a host, which are tried in turn.
#[derive(Debug)]
pub struct AddressTries {
    pub addr_str: String,
    pub addresses: Vec<SocketAddr>,
    /// How many have been tried.
    pub tried: usize,
    pub last_error: Option<ZmqError>,
}

/// The next step of trying the addresses.
#[derive(Debug)]
pub enum AddressStep {
    /// Connect to the address; hand a failure to `failed`.
    Connect(SocketAddr),
    Done(ZmqError),
}

impl AddressTries {
    pub open spec fn wf(self) -> bool {
        &&& self.tried <= self.addresses@.len()
        &&& self.last_error is Some == (self.tried > 0)
    }

    /// The addresses that an endpoint was found to have. A lookup that failed comes in words.
    pub fn new(endpoint_uri: &str, lookup: Result<Vec<SocketAddr>, String>) -> (r: Result<
        AddressTries,
        ZmqError,
    >)
        ensures
            ({
                let host = host_part(endpoint_uri@);
                match lookup {
                    Ok(addresses) => r matches Ok(t) && t.wf() && t.addr_str@ == host
                        && t.addresses == addresses && t.tried == 0,
                    Err(words) => r matches Err(ZmqError::DnsResolutionFailed(m)) && m@
                        == "Failed to resolve '"@ + host + "': "@ + words@,
                }
            }),
    {
        let addr_str = match strip_prefix(endpoint_uri, "tcp://") {
            Some(host) => host.to_owned(),
            None => endpoint_uri.to_owned(),
        };
        match lookup {
            Ok(addresses) => Ok(AddressTries { addr_str, addresses, tried: 0, last_error: None }),
            Err(words) => {
                let mut m = joined("Failed to resolve '", addr_str.as_str());
                m.append("': ");
                m.append(words.as_str());
                Err(ZmqError::DnsResolutionFailed(m))
            },
        }
    }

    /// The address to try next. When all have failed, the error is the last one.
    pub fn next(&self) -> (r: AddressStep)
        requires
            self.wf(),
        ensures
            if self.tried < self.addresses@.len() {
                r == AddressStep::Connect(self.addresses@[self.tried as int])
            } else if self.tried > 0 {
                r matches AddressStep::Done(e) && self.last_error == Some(e)
            } else {
                r matches AddressStep::Done(ZmqError::HostUnreachable(m)) && m@
                    == "No IP addresses found or all attempts failed for "@ + self.addr_str@
            },
    {
        if self.tried < self.addresses.len() {
            return AddressStep::Connect(self.addresses[self.tried]);
        }
        match &self.last_error {
            Some(e) => AddressStep::Done(e.clone()),
            None => AddressStep::Done(
                ZmqError::HostUnreachable(
                    joined(
                        "No IP addresses found or all attempts failed for ",
                        self.addr_str.as_str(),
                    ),
                ),
            ),
        }
    }

    /// Notes that connecting to the address failed.
    pub fn failed(&mut self, e: ZmqError)
        requires
            old(self).wf(),
            old(self).tried < old(self).addresses@.len(),
        ensures
            final(self).wf(),
            *final(self) == (AddressTries {
                tried: (old(self).tried + 1) as usize,
                last_error: Some(e),
                ..*old(self)
            }),
    {
        let count: usize = self.addresses.len();
        assert(self.tried < count);
        self.last_error = Some(e);
        self.tried = self.tried + 1;
    }

    /// The error when connecting was cut short by the end of the context or the socket.
    pub fn aborted() -> (e: ZmqError)
        ensures
            e matches ZmqError::Internal(m) && m@ == "Connect aborted by system event."@,
    {
        ZmqError::Internal("Connect aborted by system event.".to_owned())
    }
}

/// An endpoint without its scheme.
pub open spec fn host_part(endpoint: Seq<char>) -> Seq<char> {
    if text::has_prefix(endpoint, "tcp://"@) {
        endpoint.skip("tcp://"@.len() as int)
    } else {
        endpoint
    }
}

// ---------------------------------------------------------------------------
// Connecting: one attempt after another
// ---------------------------------------------------------------------------
/// The loop that connects to an endpoint, and tries again while that fails.
#[derive(Debug)]
pub struct ConnectLoop {
    pub endpoint: String,
    pub parent_socket_id: usize,
    /// How often connecting had failed before the loop began.
    pub initial_attempts: u32,
    pub initial_ivl: Duration,
    pub ivl_max: Option<Duration>,
    /// Whether a failure is final.
    pub no_retry: bool,
    pub current_delay: Duration,
    pub attempt_count: u32,
    pub running: bool,
    pub last_error: Option<ZmqError>,
}

/// A first wait after it was doubled so often, never beyond the longest.
pub open spec fn grown(initial: nat, max: nat, doublings: nat) -> nat
    decreases doublings,
{
    if doublings == 0 {
        initial
    } else {
        let d = 2 * grown(initial, max, (doublings - 1) as nat);
        if d < max {
            d
        } else {
            max
        }
    }
}

/// How often the first wait is doubled before the loop begins.
pub open spec fn early_doublings(initial: nat, max: Option<nat>, attempts: u32) -> nat {
    if initial > 0 && (max matches Some(m) && m > 0) {
        if attempts < 31 {
            attempts as nat
        } else {
            31
        }
    } else {
        0
    }
}

/// The length of a span that may not be set.
pub open spec fn nanos_of(d: Option<Duration>) -> Option<nat> {
    match d {
        Some(d) => Some(d.spec_nanos()),
        None => None,
    }
}

/// The wait that is set before a first attempt to reconnect.
pub open spec fn reconnect_ivl(options: SocketOptions) -> nat {
    match options.reconnect_ivl {
        Some(d) => d.spec_nanos(),
        None => (DEFAULT_RECONNECT_IVL_MS * 1_000_000) as nat,
    }
}

/// What a connecter hears before an attempt or while it waits.
#[derive(Debug, Clone, Copy, PartialEq, Eq, Structural)]
pub enum ConnecterEvent {
    ContextTerminating,
    SocketClosing { socket_id: usize },
    Other,
    BusLagged,
    BusClosed,
    /// Nothing was heard.
    Silence,
}

/// The next step of the loop.
#[derive(Debug)]
pub enum ConnectStep {
    /// Hand what is heard at once to `before_attempt`, and then attempt to connect.
    Attempt,
    /// Hand what is heard to `waited`: at once where no delay is given, and otherwise the first
    /// that is heard within the delay. The event is for a monitor.
    Wait { delay: Duration, event: Option<SocketEvent> },
    Stop,
}

/// The error is one of those by which a shutdown is known.
pub open spec fn is_shutdown_error(e: ZmqError) -> bool {
    e matches ZmqError::Internal(s) && (text::contains_part(s@, "shutdown by"@)
        || text::contains_part(s@, "event bus error"@))
}

fn tells_of_shutdown(e: &ZmqError) -> (b: bool)
    ensures
        b == is_shutdown_error(*e),
{
    match e {
        ZmqError::Internal(s) => contains_text(s.as_str(), "shutdown by") || contains_text(
            s.as_str(),
            "event bus error",
        ),
        _ => false,
    }
}

/// How an attempt to connect ended.
#[derive(Debug)]
pub enum AttemptOutcome {
    /// The connection stands, and the core was told of it.
    Established,
    /// The connection stands, and the core could not be told of it.
    Unpublished,
    Failed(ZmqError),
}

/// What is left to do when the loop has ended.
#[derive(Debug)]
pub struct ConnectLoopEnd {
    /// What the core hears.
    pub publish: Option<SystemEvent>,
    /// What a monitor hears.
    pub monitor: Option<SocketEvent>,
    /// The error that the connecter ended with.
    pub error: Option<ZmqError>,
}

impl ConnectLoop {
    /// The wait after another failure.
    pub open spec fn next_delay(self) -> nat {
        let d = self.current_delay.spec_nanos();
        match self.ivl_max {
            None => if d > 0 {
                self.initial_ivl.spec_nanos()
            } else {
                d
            },
            Some(m) => if m.spec_nanos() == 0 {
                d
            } else if d == 0 || 2 * d >= m.spec_nanos() {
                m.spec_nanos()
            } else {
                2 * d
            },
        }
    }

    /// The wait is doubled after another failure.
    pub open spec fn doubles(self) -> bool {
        self.current_delay.spec_nanos() > 0 && (self.ivl_max matches Some(m) && m.spec_nanos() > 0)
    }

    /// A loop that connects to the endpoint, after connecting has failed so often.
    pub fn new(
        endpoint: String,
        parent_socket_id: usize,
        initial_attempts: u32,
        options: &SocketOptions,
    ) -> (r: Result<ConnectLoop, ZmqError>)
        requires
            ({
                let initial = reconnect_ivl(*options);
                let n = early_doublings(
                    initial,
                    nanos_of(options.reconnect_ivl_max),
                    initial_attempts,
                );
                n > 0 ==> forall|i: nat|
                    i < n ==> 2 * #[trigger] grown(
                        initial,
                        options.reconnect_ivl_max->0.spec_nanos(),
                        i,
                    ) <= time::MAX_DURATION_NANOS
            }),
        ensures
            match r {
                Err(e) => !text::has_prefix(endpoint@, "tcp://"@) && e == ZmqError::InvalidEndpoint(
                    endpoint,
                ),
                Ok(l) => {
                    let initial = reconnect_ivl(*options);
                    let max = nanos_of(options.reconnect_ivl_max);
                    &&& text::has_prefix(endpoint@, "tcp://"@)
                    &&& l.endpoint == endpoint
                    &&& l.parent_socket_id == parent_socket_id
                    &&& l.initial_attempts == initial_attempts
                    &&& l.attempt_count == initial_attempts
                    &&& l.initial_ivl.spec_nanos() == initial
                    &&& l.ivl_max == options.reconnect_ivl_max
                    &&& l.no_retry == (nanos_of(options.reconnect_ivl) == Some(0nat) && (max
                        == Some(0nat) || max is None))
                    &&& l.current_delay.spec_nanos() == grown(
                        initial,
                        max->0,
                        early_doublings(initial, max, initial_attempts),
                    )
                    &&& l.running
                    &&& l.last_error is None
                },
            },
    {
        if strip_prefix(endpoint.as_str(), "tcp://").is_none() {
            return Err(ZmqError::InvalidEndpoint(endpoint));
        }
        let initial_ivl = match options.reconnect_ivl {
            Some(d) => d,
            None => Duration::from_millis(DEFAULT_RECONNECT_IVL_MS),
        };
        let ivl_is_zero: bool = match options.reconnect_ivl {
            Some(d) => d.is_zero(),
            None => false,
        };
        let max_is_off: bool = match options.reconnect_ivl_max {
            Some(d) => d.is_zero(),
            None => true,
        };
        let mut current_delay = initial_ivl;
        if !initial_ivl.is_zero() && !max_is_off {
            if let Some(max) = options.reconnect_ivl_max {
                let n: u32 = if initial_attempts < 31 {
                    initial_attempts
                } else {
                    31
                };
                assert(initial_ivl.spec_nanos() == reconnect_ivl(*options));
                assert(early_doublings(
                    reconnect_ivl(*options),
                    nanos_of(options.reconnect_ivl_max),
                    initial_attempts,
                ) == n);
                let mut i: u32 = 0;
                while i < n
                    invariant
                        i <= n,
                        current_delay.spec_nanos() == grown(
                            initial_ivl.spec_nanos(),
                            max.spec_nanos(),
                            i as nat,
                        ),
                        forall|j: nat|
                            j < n ==> 2 * #[trigger] grown(
                                initial_ivl.spec_nanos(),
                                max.spec_nanos(),
                                j,
                            ) <= time::MAX_DURATION_NANOS,
                    decreases n - i,
                {
                    current_delay = current_delay.saturating_mul(2).min(max);
                    i += 1;
                }
            }
        }
        Ok(
            ConnectLoop {
                endpoint,
                parent_socket_id,
                initial_attempts,
                initial_ivl,
                ivl_max: options.reconnect_ivl_max,
                no_retry: ivl_is_zero && max_is_off,
                current_delay,
                attempt_count: initial_attempts,
                running: true,
                last_error: None,
            },
        )
    }

    /// The next step: the first attempt is made at once, and each later one after a wait,
    /// unless a failure is final.
    pub fn next(&mut self) -> (r: ConnectStep)
        requires
            old(self).running,
        ensures
            if old(self).attempt_count <= old(self).initial_attempts {
                r is Attempt && *final(self) == *old(self)
            } else if old(self).no_retry {
                r is Stop && *final(self) == (ConnectLoop { running: false, ..*old(self) })
            } else {
                &&& *final(self) == *old(self)
                &&& r matches ConnectStep::Wait { delay, event } && {
                    &&& delay == old(self).current_delay
                    &&& event is Some == (delay.spec_nanos() > 0)
                    &&& event matches Some(e) ==> (e matches SocketEvent::ConnectRetried {
                        endpoint,
                        interval,
                    } && endpoint == old(self).endpoint && interval == delay)
                }
            },
    {
        if self.attempt_count <= self.initial_attempts {
            return ConnectStep::Attempt;
        }
        if self.no_retry {
            self.running = false;
            return ConnectStep::Stop;
        }
        let delay = self.current_delay;
        let event = if delay.is_zero() {
            None
        } else {
            Some(SocketEvent::ConnectRetried { endpoint: self.endpoint.clone(), interval: delay })
        };
        ConnectStep::Wait { delay, event }
    }

    /// Whether what was heard in a wait lets the loop go on.
    pub open spec fn goes_on_after(self, event: ConnecterEvent) -> bool {
        match event {
            ConnecterEvent::ContextTerminating => false,
            ConnecterEvent::SocketClosing { socket_id } => self.current_delay.spec_nanos() > 0
                && socket_id != self.parent_socket_id,
            ConnecterEvent::BusLagged | ConnecterEvent::BusClosed => self.current_delay.spec_nanos()
                == 0,
            _ => true,
        }
    }

    fn wait_for_retry_delay_internal(&self, event: ConnecterEvent) -> (b: bool)
        ensures
            b == self.goes_on_after(event),
    {
        match event {
            ConnecterEvent::ContextTerminating => false,
            ConnecterEvent::SocketClosing { socket_id } => !self.current_delay.is_zero()
                && socket_id != self.parent_socket_id,
            ConnecterEvent::BusLagged | ConnecterEvent::BusClosed => self.current_delay.is_zero(),
            _ => true,
        }
    }

    /// A wait is over. The loop goes on, with the next wait set, unless what was heard ends it.
    pub fn waited(&mut self, event: ConnecterEvent)
        requires
            old(self).running,
            old(self).doubles() ==> 2 * old(self).current_delay.spec_nanos()
                <= time::MAX_DURATION_NANOS,
        ensures
            if old(self).goes_on_after(event) {
                &&& *final(self) == (ConnectLoop {
                    current_delay: final(self).current_delay,
                    ..*old(self)
                })
                &&& final(self).current_delay.spec_nanos() == old(self).next_delay()
            } else {
                &&& *final(self) == (ConnectLoop {
                    running: false,
                    last_error: final(self).last_error,
                    ..*old(self)
                })
                &&& final(self).last_error matches Some(ZmqError::Internal(m)) && m@
                    == "Connecter shutdown by event retry delay."@
            },
    {
        if !self.wait_for_retry_delay_internal(event) {
            self.last_error = Some(
                ZmqError::Internal("Connecter shutdown by event retry delay.".to_owned()),
            );
            self.running = false;
            return;
        }
        match self.ivl_max {
            Some(max) => {
                if !max.is_zero() {
                    if self.current_delay.is_zero() {
                        self.current_delay = max;
                    } else {
                        self.current_delay = self.current_delay.saturating_mul(2).min(max);
                    }
                }
            },
            None => {
                if !self.current_delay.is_zero() {
                    self.current_delay = self.initial_ivl;
                }
            },
        }
    }

    /// Counts an attempt, and looks at what is heard before it is made. Returns whether it is
    /// to be made.
    pub fn before_attempt(&mut self, event: ConnecterEvent) -> (go: bool)
        requires
            old(self).running,
            old(self).attempt_count < u32::MAX,
        ensures
            *final(self) == (ConnectLoop {
                attempt_count: (old(self).attempt_count + 1) as u32,
                running: go,
                last_error: final(self).last_error,
                ..*old(self)
            }),
            match shutdown_words(event, old(self).parent_socket_id) {
                None => go && final(self).last_error == old(self).last_error,
                Some(words) => !go && (final(self).last_error matches Some(ZmqError::Internal(m))
                    && m@ == words),
            },
    {
        self.attempt_count = self.attempt_count + 1;
        let words = match event {
            ConnecterEvent::ContextTerminating => "Shutdown by ContextTerminating (pre-connect).",
            ConnecterEvent::SocketClosing { socket_id } => {
                if socket_id != self.parent_socket_id {
                    return true;
                }
                "Shutdown by parent SocketClosing (pre-connect)."
            },
            ConnecterEvent::BusClosed => "Event bus closed (pre-connect).",
            ConnecterEvent::BusLagged => "Event bus lagged (pre-connect).",
            _ => {
                return true;
            },
        };
        self.last_error = Some(ZmqError::Internal(words.to_owned()));
        self.running = false;
        false
    }

    /// Notes how an attempt ended. Success ends the loop, and so does an error that no later
    /// attempt could mend. After the first other failure a monitor hears that more attempts
    /// follow; `error_text` puts the error into words.
    pub fn attempted(&mut self, outcome: AttemptOutcome, error_text: &str) -> (event: Option<
        SocketEvent,
    >)
        requires
            old(self).running,
            old(self).attempt_count > old(self).initial_attempts,
        ensures
            *final(self) == (ConnectLoop {
                running: final(self).running,
                last_error: final(self).last_error,
                ..*old(self)
            }),
            match outcome {
                AttemptOutcome::Established => !final(self).running && final(self).last_error
                    is None && event is None,
                AttemptOutcome::Unpublished => !final(self).running && event is None && (final(self).last_error matches Some(ZmqError::Internal(m)) && m@
                    == "Failed to publish NewConnectionEstablished"@),
                AttemptOutcome::Failed(e) => {
                    let ends = fatal_connect_error(e) || is_shutdown_error(e) || (old(self).no_retry && old(self).attempt_count == 1);
                    &&& final(self).last_error == Some(e)
                    &&& final(self).running == !ends
                    &&& event is Some == (!ends && old(self).attempt_count == old(self).initial_attempts + 1)
                    &&& event matches Some(ev) ==> (ev matches SocketEvent::ConnectDelayed {
                        endpoint,
                        error_msg,
                    } && endpoint == old(self).endpoint && error_msg@ == error_text@)
                },
            },
    {
        match outcome {
            AttemptOutcome::Established => {
                self.last_error = None;
                self.running = false;
                None
            },
            AttemptOutcome::Unpublished => {
                self.last_error = Some(
                    ZmqError::Internal("Failed to publish NewConnectionEstablished".to_owned()),
                );
                self.running = false;
                None
            },
            AttemptOutcome::Failed(e) => {
                let ends: bool = is_fatal_connect_error(&e) || tells_of_shutdown(&e) || (
                self.no_retry && self.attempt_count == 1);
                self.last_error = Some(e);
                if ends {
                    self.running = false;
                    return None;
                }
                if self.attempt_count - 1 == self.initial_attempts {
                    return Some(
                        SocketEvent::ConnectDelayed {
                            endpoint: self.endpoint.clone(),
                            error_msg: error_text.to_owned(),
                        },
                    );
                }
                None
            },
        }
    }

    /// What is left to do when the loop has ended: a last error is reported, unless it is one
    /// by which a shutdown is known. `error_text` puts the error into words.
    pub fn finish(self, error_text: &str) -> (r: ConnectLoopEnd)
        requires
            !self.running,
        ensures
            r.error == self.last_error,
            match self.last_error {
                Some(e) if !is_shutdown_error(e) => {
                    &&& r.publish == Some(
                        SystemEvent::ConnectionAttemptFailed {
                            parent_core_id: self.parent_socket_id,
                            target_endpoint_uri: self.endpoint,
                            error: e,
                        },
                    )
                    &&& r.monitor matches Some(SocketEvent::ConnectFailed { endpoint, error_msg })
                        && endpoint == self.endpoint && error_msg@ == error_text@
                },
                _ => r.publish is None && r.monitor is None,
            },
    {
        match self.last_error {
            Some(e) => {
                if tells_of_shutdown(&e) {
                    return ConnectLoopEnd { publish: None, monitor: None, error: Some(e) };
                }
                ConnectLoopEnd {
                    publish: Some(
                        SystemEvent::ConnectionAttemptFailed {
                            parent_core_id: self.parent_socket_id,
                            target_endpoint_uri: self.endpoint.clone(),
                            error: e.clone(),
                        },
                    ),
                    monitor: Some(
                        SocketEvent::ConnectFailed {
                            endpoint: self.endpoint,
                            error_msg: error_text.to_owned(),
                        },
                    ),
                    error: Some(e),
                }
            },
            None => ConnectLoopEnd { publish: None, monitor: None, error: None },
        }
    }
}

/// The words of the error with which an event ends the loop before an attempt.
pub open spec fn shutdown_words(event: ConnecterEvent, parent_socket_id: usize) -> Option<
    Seq<char>,
> {
    match event {
        ConnecterEvent::ContextTerminating => Some(
            "Shutdown by ContextTerminating (pre-connect)."@,
        ),
        ConnecterEvent::SocketClosing { socket_id } => if socket_id == parent_socket_id {
            Some("Shutdown by parent SocketClosing (pre-connect)."@)
        } else {
            None
        },
        ConnecterEvent::BusClosed => Some("Event bus closed (pre-connect)."@),
        ConnecterEvent::BusLagged => Some("Event bus lagged (pre-connect)."@),
        _ => None,
    }
}

/// Once a longest wait is set, doubling never takes the wait beyond it, and never makes it
/// shorter than it was unless it began beyond it.
pub proof fn doubling_is_capped(initial: nat, max: nat, n: nat)
    requires
        n > 0,
    ensures
        grown(initial, max, n) <= max,
        initial <= max ==> grown(initial, max, (n - 1) as nat) <= grown(initial, max, n),
    decreases n,
{
    if n > 1 {
        doubling_is_capped(initial, max, (n - 1) as nat);
    }
}

// ---------------------------------------------------------------------------
// Laws
// ---------------------------------------------------------------------------
/// What passes when the server comes up, or the network recovers, is tried again; only an
/// address, an endpoint or a name that will never do ends connecting.
pub proof fn passing_errors_are_not_fatal(e: ZmqError)
    ensures
        fatal_connect_error(e) <==> {
            ||| e matches ZmqError::IoError { kind: IoErrorKind::AddrNotAvailable, .. }
            ||| e matches ZmqError::IoError { kind: IoErrorKind::AddrInUse, .. }
            ||| e matches ZmqError::IoError { kind: IoErrorKind::InvalidInput, .. }
            ||| e matches ZmqError::IoError { kind: IoErrorKind::PermissionDenied, .. }
            ||| e is InvalidEndpoint
            ||| e is UnsupportedTransport
            ||| e is DnsResolutionFailed
        },
        (e matches ZmqError::IoError { kind, .. } && (kind is ConnectionRefused || kind
            is ConnectionReset || kind is ConnectionAborted || kind is TimedOut || kind
            is BrokenPipe || kind is NotFound || kind is WouldBlock || kind is Other))
            ==> !fatal_connect_error(e),
        e is Timeout || e is ConnectionClosed || e is ConnectionRefused || e is SecurityError || e
            is AuthenticationFailure || e is ProtocolViolation ==> !fatal_connect_error(e),
{
}

/// The question whether an error is fatal is answered by the error alone.
pub proof fn fatal_errors_are_known_by_kind(e: &ZmqError, b: bool)
    requires
        call_ensures(is_fatal_connect_error, (e,), b),
    ensures
        (*e matches ZmqError::IoError { kind, .. } && (kind is ConnectionRefused || kind
            is ConnectionReset || kind is ConnectionAborted || kind is TimedOut || kind
            is BrokenPipe || kind is NotFound || kind is WouldBlock || kind is Other)) ==> !b,
        e is Timeout || e is ConnectionClosed || e is ConnectionRefused || e is SecurityError || e
            is AuthenticationFailure || e is ProtocolViolation || e is HostUnreachable || e
            is Internal || e is ResourceLimitReached ==> !b,
        e is InvalidEndpoint || e is UnsupportedTransport || e is DnsResolutionFailed ==> b,
        (*e matches ZmqError::IoError { kind, .. } && (kind is AddrNotAvailable || kind
            is AddrInUse || kind is InvalidInput || kind is PermissionDenied)) ==> b,
{
}

/// A listener stops accepting only for an error that its own socket causes; a connection that
/// went away, or a lack of descriptors, passes.
pub proof fn accepting_goes_on_after_passing_errors(kind: IoErrorKind, b: bool)
    requires
        call_ensures(is_fatal_accept_error, (kind,), b),
    ensures
        b <==> kind == IoErrorKind::InvalidInput || kind == IoErrorKind::BrokenPipe,
{
}

/// A loop that may try again does so after a refusal, a timeout or a reset, however often it
/// has tried; success ends it without an error, and a fatal error ends it with that error.
pub proof fn connecting_goes_on_until_it_succeeds(
    l: &mut ConnectLoop,
    outcome: AttemptOutcome,
    words: &str,
    event: Option<SocketEvent>,
)
    requires
        call_ensures(ConnectLoop::attempted, (l, outcome, words), event),
    ensures
        final(l).endpoint == old(l).endpoint,
        final(l).current_delay == old(l).current_delay,
        final(l).attempt_count == old(l).attempt_count,
        outcome is Established ==> !final(l).running && final(l).last_error is None && event
            is None,
        outcome is Unpublished ==> !final(l).running && final(l).last_error is Some && event
            is None,
        outcome matches AttemptOutcome::Failed(e) ==> final(l).last_error == Some(e),
        !old(l).no_retry && (outcome matches AttemptOutcome::Failed(e) && (e is Timeout || e
            is ConnectionClosed || e is ConnectionRefused || e is SecurityError || e
            is ProtocolViolation || e is HostUnreachable || (e matches ZmqError::IoError {
            kind,
            ..
        } && (kind is ConnectionRefused || kind is ConnectionReset || kind is TimedOut))))
            ==> final(l).running,
        (outcome matches AttemptOutcome::Failed(e) && (e is InvalidEndpoint || e
            is UnsupportedTransport || e is DnsResolutionFailed)) ==> !final(l).running && event
            is None,
        old(l).no_retry && old(l).attempt_count == 1 && outcome is Failed ==> !final(l).running,
        outcome is Failed ==> (event is Some <==> final(l).running && old(l).attempt_count
            == old(l).initial_attempts + 1),
        event matches Some(ev) ==> (ev matches SocketEvent::ConnectDelayed {
            endpoint,
            error_msg,
        } && endpoint == old(l).endpoint && error_msg@ == words@),
{
}

/// The first attempt is made at once; a later one after the wait that is set, of which a
/// monitor hears unless there is none to wait; and where a failure is final there is none.
pub proof fn later_attempts_wait(l: &mut ConnectLoop, r: ConnectStep)
    requires
        call_ensures(ConnectLoop::next, (l,), r),
    ensures
        r is Attempt <==> old(l).attempt_count <= old(l).initial_attempts,
        r is Stop <==> old(l).attempt_count > old(l).initial_attempts && old(l).no_retry,
        r is Stop ==> !final(l).running,
        r !is Stop ==> *final(l) == *old(l),
        r matches ConnectStep::Wait { delay, event } ==> delay.spec_nanos()
            == old(l).current_delay.spec_nanos() && (event is Some <==> delay.spec_nanos() > 0),
        r matches ConnectStep::Wait { delay, event: Some(e) } ==> (e
            matches SocketEvent::ConnectRetried { endpoint, interval } && endpoint
            == old(l).endpoint && interval == delay),
{
}

/// After each wait the next one is twice as long, up to the longest that is set. Without a
/// longest wait it stays the first one.
pub proof fn waits_double_up_to_the_longest(l: &mut ConnectLoop, event: ConnecterEvent)
    requires
        call_ensures(ConnectLoop::waited, (l, event), ()),
        event is Silence,
    ensures
        final(l).running == old(l).running,
        final(l).last_error == old(l).last_error,
        final(l).attempt_count == old(l).attempt_count,
        final(l).endpoint == old(l).endpoint,
        old(l).ivl_max matches Some(m) && m.spec_nanos() > 0 && old(l).current_delay.spec_nanos() > 0 && 2 * old(l).current_delay.spec_nanos()
            <= m.spec_nanos() ==> final(l).current_delay.spec_nanos() == 2 * old(l).current_delay.spec_nanos(),
        old(l).ivl_max is Some && old(l).ivl_max->0.spec_nanos() > 0
            ==> final(l).current_delay.spec_nanos() <= old(l).ivl_max->0.spec_nanos(),
        old(l).ivl_max matches Some(m) && m.spec_nanos() > 0 && (2 * old(l).current_delay.spec_nanos() >= m.spec_nanos() || old(l).current_delay.spec_nanos() == 0)
            ==> final(l).current_delay.spec_nanos() == old(l).ivl_max->0.spec_nanos(),
        old(l).ivl_max matches Some(m) && m.spec_nanos() == 0
            ==> final(l).current_delay.spec_nanos() == old(l).current_delay.spec_nanos(),
        old(l).ivl_max is None && old(l).current_delay.spec_nanos() > 0
            ==> final(l).current_delay.spec_nanos() == old(l).initial_ivl.spec_nanos(),
        old(l).ivl_max is None && old(l).current_delay.spec_nanos() == 0
            ==> final(l).current_delay.spec_nanos() == 0,
{
}

/// The end of the context ends a wait and the loop; so does the closing of the loop's own
/// socket, and while it really waits the closing of another socket does not.
pub proof fn waiting_ends_with_the_socket(l: &mut ConnectLoop, event: ConnecterEvent)
    requires
        call_ensures(ConnectLoop::waited, (l, event), ()),
        old(l).running,
    ensures
        event is ContextTerminating ==> !final(l).running && final(l).last_error is Some,
        event == (ConnecterEvent::SocketClosing { socket_id: old(l).parent_socket_id })
            ==> !final(l).running && final(l).last_error is Some,
        old(l).current_delay.spec_nanos() > 0 && (event matches ConnecterEvent::SocketClosing {
            socket_id,
        } && socket_id != old(l).parent_socket_id) ==> final(l).running,
        old(l).current_delay.spec_nanos() > 0 && (event is BusClosed || event is BusLagged)
            ==> !final(l).running,
        event is Silence || event is Other ==> final(l).running,
        !final(l).running ==> (final(l).last_error matches Some(e) && e is Internal),
{
}

/// An attempt is counted, and made unless the context ends, the loop's own socket closes or
/// events are lost.
pub proof fn attempts_stop_with_the_socket(l: &mut ConnectLoop, event: ConnecterEvent, go: bool)
    requires
        call_ensures(ConnectLoop::before_attempt, (l, event), go),
        old(l).attempt_count < u32::MAX,
    ensures
        final(l).attempt_count == old(l).attempt_count + 1,
        final(l).running == go,
        !go <==> event is ContextTerminating || event is BusClosed || event is BusLagged || event
            == (ConnecterEvent::SocketClosing { socket_id: old(l).parent_socket_id }),
        go ==> final(l).last_error == old(l).last_error,
        !go ==> (final(l).last_error matches Some(e) && e is Internal),
        final(l).current_delay == old(l).current_delay,
        final(l).endpoint == old(l).endpoint,
{
}

/// A loop starts with its first attempt ahead of it, and waits as long as the failures before
/// it call for: the interval that is set, or 100 milliseconds, doubled for each up to the
/// longest wait.
pub proof fn loop_starts_where_failures_left_it(
    endpoint: String,
    parent: usize,
    attempts: u32,
    options: &SocketOptions,
    r: Result<ConnectLoop, ZmqError>,
)
    requires
        call_ensures(ConnectLoop::new, (endpoint, parent, attempts, options), r),
    ensures
        r is Ok <==> text::has_prefix(endpoint@, "tcp://"@),
        r matches Err(e) ==> e == ZmqError::InvalidEndpoint(endpoint),
        r matches Ok(l) ==> {
            &&& l.running && l.last_error is None && l.endpoint == endpoint
            &&& l.attempt_count == attempts && l.initial_attempts == attempts
            &&& l.parent_socket_id == parent
            &&& l.initial_ivl.spec_nanos() == match options.reconnect_ivl {
                Some(d) => d.spec_nanos(),
                None => 100_000_000,
            }
            &&& attempts == 0 ==> l.current_delay.spec_nanos() == l.initial_ivl.spec_nanos()
            &&& options.reconnect_ivl_max is None ==> l.current_delay.spec_nanos()
                == l.initial_ivl.spec_nanos()
            &&& attempts > 0 && l.initial_ivl.spec_nanos() > 0 && (options.reconnect_ivl_max
                matches Some(m) && m.spec_nanos() > 0) ==> l.current_delay.spec_nanos()
                <= options.reconnect_ivl_max->0.spec_nanos()
            &&& l.no_retry <==> (options.reconnect_ivl matches Some(d) && d.spec_nanos() == 0)
                && (options.reconnect_ivl_max matches Some(m) ==> m.spec_nanos() == 0)
        },
{
    if r is Ok && attempts > 0 && options.reconnect_ivl_max is Some {
        let n = early_doublings(
            reconnect_ivl(*options),
            nanos_of(options.reconnect_ivl_max),
            attempts,
        );
        if n > 0 {
            doubling_is_capped(
                reconnect_ivl(*options),
                options.reconnect_ivl_max->0.spec_nanos(),
                n,
            );
        }
    }
}

/// Each failure before the loop doubles the first wait, for the first 31 of them.
pub proof fn early_waits_double(initial: nat, max: nat, n: nat)
    ensures
        grown(initial, max, 0) == initial,
        2 * grown(initial, max, n) <= max ==> grown(initial, max, n + 1) == 2 * grown(
            initial,
            max,
            n,
        ),
        2 * grown(initial, max, n) >= max ==> grown(initial, max, n + 1) == max,
        initial > 0 && max > 0 && n <= 31 ==> early_doublings(initial, Some(max), n as u32) == n,
        initial > 0 && max > 0 && 31 <= n <= u32::MAX ==> early_doublings(
            initial,
            Some(max),
            n as u32,
        ) == 31,
        early_doublings(0, Some(max), n as u32) == 0,
        early_doublings(initial, None, n as u32) == 0,
        early_doublings(initial, Some(0), n as u32) == 0,
{
}

/// A failed loop tells the core and a monitor of its last error, unless a shutdown ended it; a
/// loop that succeeded tells nothing.
pub proof fn failure_is_reported_unless_shut_down(l: ConnectLoop, words: &str, r: ConnectLoopEnd)
    requires
        call_ensures(ConnectLoop::finish, (l, words), r),
    ensures
        r.error == l.last_error,
        l.last_error is None ==> r.publish is None && r.monitor is None,
        r.publish is Some <==> r.monitor is Some,
        l.last_error matches Some(e) && e !is Internal ==> {
            &&& r.publish == Some(
                SystemEvent::ConnectionAttemptFailed {
                    parent_core_id: l.parent_socket_id,
                    target_endpoint_uri: l.endpoint,
                    error: l.last_error->0,
                },
            )
            &&& r.monitor matches Some(SocketEvent::ConnectFailed { endpoint, error_msg })
                && endpoint == l.endpoint && error_msg@ == words@
        },
        l.last_error matches Some(ZmqError::Internal(m)) && text::contains_part(
            m@,
            "shutdown by"@,
        ) ==> r.publish is None,
        l.last_error matches Some(ZmqError::Internal(m)) && text::contains_part(
            m@,
            "event bus error"@,
        ) ==> r.publish is None,
        l.last_error matches Some(ZmqError::Internal(m)) && !text::contains_part(
            m@,
            "shutdown by"@,
        ) && !text::contains_part(m@, "event bus error"@) ==> r.publish is Some,
{
}

/// The addresses of a host are tried in order, each once; the error in the end is that of the
/// last one, and a host without any is unreachable.
pub proof fn addresses_are_tried_in_order(
    t: &AddressTries,
    step: AddressStep,
    failing: &mut AddressTries,
    e: ZmqError,
)
    requires
        call_ensures(AddressTries::next, (t,), step),
        t.wf(),
        call_ensures(AddressTries::failed, (failing, e), ()),
        old(failing).tried < old(failing).addresses@.len(),
        old(failing).tried < usize::MAX,
    ensures
        t.tried < t.addresses@.len() ==> step == AddressStep::Connect(
            t.addresses@[t.tried as int],
        ),
        t.tried == t.addresses@.len() && t.tried > 0 ==> (step matches AddressStep::Done(last)
            && t.last_error == Some(last)),
        t.addresses@.len() == 0 ==> (step matches AddressStep::Done(last) && last
            is HostUnreachable),
        final(failing).tried == old(failing).tried + 1,
        final(failing).last_error == Some(e),
        final(failing).addresses == old(failing).addresses,
{
}

/// A lookup gives all its addresses to be tried, from the first; one that failed is an error of
/// name resolution.
pub proof fn lookup_decides_what_is_tried(
    uri: &str,
    lookup: Result<Vec<SocketAddr>, String>,
    r: Result<AddressTries, ZmqError>,
)
    requires
        call_ensures(AddressTries::new, (uri, lookup), r),
    ensures
        lookup matches Ok(addresses) ==> (r matches Ok(t) && t.addresses == addresses && t.tried
            == 0 && t.last_error is None),
        lookup is Err ==> (r matches Err(e) && e is DnsResolutionFailed),
{
}

/// A listener is bound to the first address of its host, with the backlog that is set or 128,
/// and takes IPv4 connections too where the address is an IPv6 one.
pub proof fn listener_takes_the_first_address(
    host: &str,
    lookup: Result<Vec<SocketAddr>, String>,
    backlog: Option<i32>,
    r: Result<ListenerSetup, ZmqError>,
)
    requires
        call_ensures(listener_setup, (host, lookup, backlog), r),
    ensures
        r is Ok <==> (lookup matches Ok(addrs) && addrs@.len() > 0),
        r matches Err(e) ==> e is DnsResolutionFailed,
        r matches Ok(s) ==> {
            &&& s.bind_addr == lookup->Ok_0@[0]
            &&& s.is_ipv6 == (s.bind_addr.ip is V6)
            &&& s.dual_stack == (s.bind_addr.ip is V6)
            &&& s.reuse_address
            &&& backlog matches Some(n) ==> s.backlog == n
            &&& backlog is None ==> s.backlog == 128
        },
{
}

/// A listener's endpoint is looked up without its scheme, and is refused without one.
pub proof fn listener_needs_the_scheme(endpoint: &str, r: Result<String, ZmqError>)
    requires
        call_ensures(listener_host, (endpoint,), r),
    ensures
        r matches Ok(host) ==> "tcp://"@ + host@ == endpoint@,
        r is Err ==> !(exists|rest: Seq<char>| #[trigger] ("tcp://"@ + rest) == endpoint@),
        r matches Err(e) ==> (e matches ZmqError::InvalidEndpoint(m) && m@ == endpoint@),
{
    let scheme = "tcp://"@;
    if r is Ok {
        assert(scheme + endpoint@.skip(scheme.len() as int) =~= endpoint@);
    } else {
        assert forall|rest: Seq<char>| #[trigger] (scheme + rest) == endpoint@ implies false by {
            assert(endpoint@.take(scheme.len() as int) =~= scheme);
        }
    }
}

/// A stream is set up with the options of its socket; io_uring serves it only where it is asked
/// for and there, and segments are held back only then.
pub proof fn streams_follow_their_options(options: &SocketOptions, built: bool, r: StreamSetup)
    requires
        call_ensures(stream_setup, (options, built), r),
    ensures
        r.config.tcp_nodelay == options.tcp_nodelay,
        r.config.keepalive_time == options.tcp_keepalive_idle,
        r.config.keepalive_interval == options.tcp_keepalive_interval,
        r.config.keepalive_count == options.tcp_keepalive_count,
        r.via_uring <==> options.io_uring.session_enabled && built,
        r.cork <==> options.io_uring.session_enabled && built && options.tcp_cork,
{
}

/// Keepalive is switched on exactly where a part of it is set, with every part as it is set.
pub proof fn keepalive_is_as_set(config: &TcpTransportConfig, r: Option<KeepaliveSettings>)
    requires
        call_ensures(keepalive_settings, (config,), r),
    ensures
        r is None <==> config.keepalive_time is None && config.keepalive_interval is None
            && config.keepalive_count is None,
        r matches Some(k) ==> k.time == config.keepalive_time && k.interval
            == config.keepalive_interval && k.retries == config.keepalive_count,
{
}

/// An address is written behind the scheme, and an attempt that closing cut short is an
/// internal error.
pub proof fn tcp_uris_have_their_scheme(addr: &str, s: String, e: ZmqError)
    requires
        call_ensures(tcp_uri, (addr,), s),
        call_ensures(AddressTries::aborted, (), e),
    ensures
        s@ == "tcp://"@ + addr@,
        e is Internal,
{
}

/// Why the loop ended is put into words where it was not a failed attempt.
pub proof fn end_of_the_loop_is_put_into_words(
    a: &mut ConnectLoop,
    b: &mut ConnectLoop,
    c: &mut ConnectLoop,
    words: &str,
    event: Option<SocketEvent>,
    go: bool,
)
    requires
        call_ensures(ConnectLoop::attempted, (a, AttemptOutcome::Unpublished, words), event),
        call_ensures(ConnectLoop::before_attempt, (b, ConnecterEvent::ContextTerminating), go),
        call_ensures(ConnectLoop::waited, (c, ConnecterEvent::ContextTerminating), ()),
        old(c).running,
    ensures
        final(a).last_error matches Some(ZmqError::Internal(m)) && m@
            == "Failed to publish NewConnectionEstablished"@,
        !go && (final(b).last_error matches Some(ZmqError::Internal(m)) && m@
            == "Shutdown by ContextTerminating (pre-connect)."@),
        final(c).last_error matches Some(ZmqError::Internal(m)) && m@
            == "Connecter shutdown by event retry delay."@,
        final(a).endpoint == old(a).endpoint,
        final(b).endpoint == old(b).endpoint,
        final(a).current_delay == old(a).current_delay,
        final(b).current_delay == old(b).current_delay,
{
}

} // verus!
