use vstd::prelude::*;
use vstd::string::*;

use crate::error::ZmqError;
use crate::id_map::IdMap;
use crate::message::Msg;
use crate::text::joined;

verus! {

/// How many buffers the pool for sending has by default.
pub const DEFAULT_IO_URING_SND_BUFFER_COUNT: usize = 16;

/// How many bytes each buffer of the pool for sending has by default.
pub const DEFAULT_IO_URING_SND_BUFFER_SIZE: usize = 65536;

/// How many buffers the pool for receiving has by default.
pub const DEFAULT_IO_URING_RECV_BUFFER_COUNT: usize = 16;

/// How many bytes each buffer of the pool for receiving has by default.
pub const DEFAULT_IO_URING_RECV_BUFFER_SIZE: usize = 65536;

/// How the io_uring backend is set up.
#[derive(Debug, Clone, Copy, PartialEq, Eq, Structural)]
pub struct UringConfig {
    pub ring_entries: u32,
    pub default_send_zerocopy: bool,
    pub default_recv_multishot: bool,
    pub default_recv_buffer_count: usize,
    pub default_recv_buffer_size: usize,
    pub default_send_buffer_count: usize,
    pub default_send_buffer_size: usize,
}

/// The setup where none is given.
pub open spec fn default_config() -> UringConfig {
    UringConfig {
        ring_entries: 256,
        default_send_zerocopy: false,
        default_recv_multishot: true,
        default_recv_buffer_count: DEFAULT_IO_URING_RECV_BUFFER_COUNT,
        default_recv_buffer_size: DEFAULT_IO_URING_RECV_BUFFER_SIZE,
        default_send_buffer_count: DEFAULT_IO_URING_SND_BUFFER_COUNT,
        default_send_buffer_size: DEFAULT_IO_URING_SND_BUFFER_SIZE,
    }
}

impl Default for UringConfig {
    fn default() -> (c: UringConfig)
        ensures
            c == default_config(),
    {
        UringConfig {
            ring_entries: 256,
            default_send_zerocopy: false,
            default_recv_multishot: true,
            default_recv_buffer_count: DEFAULT_IO_URING_RECV_BUFFER_COUNT,
            default_recv_buffer_size: DEFAULT_IO_URING_RECV_BUFFER_SIZE,
            default_send_buffer_count: DEFAULT_IO_URING_SND_BUFFER_COUNT,
            default_send_buffer_size: DEFAULT_IO_URING_SND_BUFFER_SIZE,
        }
    }
}

/// What the worker reports of a descriptor.
#[derive(Debug)]
pub enum HandlerUpstreamEvent {
    Data(Msg),
    HandshakeComplete { peer_identity: Option<Vec<u8>> },
    Error(ZmqError),
}

/// The name of what is reported.
pub fn upstream_event_variant_name(event: &HandlerUpstreamEvent) -> (s: &'static str)
    ensures
        s@ == match event {
            HandlerUpstreamEvent::Data(_) => "Data"@,
            HandlerUpstreamEvent::HandshakeComplete { .. } => "HandshakeComplete"@,
            HandlerUpstreamEvent::Error(_) => "Error"@,
        },
{
    match event {
        HandlerUpstreamEvent::Data(_) => "Data",
        HandlerUpstreamEvent::HandshakeComplete { .. } => "HandshakeComplete",
        HandlerUpstreamEvent::Error(_) => "Error",
    }
}

/// What a socket's core is told of one of its descriptors.
#[derive(Debug)]
pub enum UringCommand {
    FdMessage { fd: usize, msg: Msg },
    FdHandshakeComplete { fd: usize, peer_identity: Option<Vec<u8>> },
    FdError { fd: usize, error: ZmqError },
}

/// What a report says to the descriptor's core.
pub open spec fn command_of(fd: usize, event: HandlerUpstreamEvent) -> UringCommand {
    match event {
        HandlerUpstreamEvent::Data(msg) => UringCommand::FdMessage { fd, msg },
        HandlerUpstreamEvent::HandshakeComplete { peer_identity } => {
            UringCommand::FdHandshakeComplete { fd, peer_identity }
        },
        HandlerUpstreamEvent::Error(error) => UringCommand::FdError { fd, error },
    }
}

/// What has been started, each by the number under which it is kept.
#[derive(Debug, Clone, Copy, PartialEq, Eq, Structural)]
pub struct StartedUring {
    /// The way to ask the worker for something.
    pub op_tx: usize,
    /// The worker's thread.
    pub worker: usize,
    /// The task that passes on what the worker reports.
    pub processor: usize,
}

/// The state of the io_uring backend of the process.
#[derive(Debug)]
pub struct UringBackend {
    /// Whether the backend has been started, if only to be shut down later.
    pub started_once: bool,
    /// Whether the backend is up.
    pub initialized: bool,
    pub op_tx: Option<usize>,
    pub worker: Option<usize>,
    pub processor: Option<usize>,
    /// Whether there is a way for the worker to report.
    pub upstream_open: bool,
    /// The mailbox of the core of each descriptor.
    pub fd_mailboxes: IdMap<usize>,
}

/// The next step of starting the backend.
#[derive(Debug)]
pub enum UringStart {
    Done(Result<(), ZmqError>),
    /// Start the worker and the task behind it, and hand the outcome to `backend_spawned`.
    Spawn(UringConfig),
}

impl UringBackend {
    pub fn new() -> (b: UringBackend)
        ensures
            !b.started_once,
            !b.initialized,
            b.op_tx is None,
            b.worker is None,
            b.processor is None,
            !b.upstream_open,
            b.fd_mailboxes@ == Map::<usize, usize>::empty(),
    {
        UringBackend {
            started_once: false,
            initialized: false,
            op_tx: None,
            worker: None,
            processor: None,
            upstream_open: false,
            fd_mailboxes: IdMap::new(),
        }
    }

    /// Starts the backend. Once it has been started this does nothing, and it is not started
    /// again after a shutdown.
    pub fn initialize_uring_backend(&mut self, config: UringConfig) -> (r: UringStart)
        ensures
            if old(self).started_once {
                r == UringStart::Done(Ok(())) && *final(self) == *old(self)
            } else {
                r == UringStart::Spawn(config) && *final(self) == (UringBackend {
                    upstream_open: true,
                    ..*old(self)
                })
            },
    {
        if self.started_once {
            return UringStart::Done(Ok(()));
        }
        self.upstream_open = true;
        UringStart::Spawn(config)
    }

    /// Notes whether the worker was started. A failure leaves the backend to be started by a
    /// later attempt.
    pub fn backend_spawned(&mut self, result: Result<StartedUring, ZmqError>) -> (r: Result<
        (),
        ZmqError,
    >)
        requires
            !old(self).started_once,
        ensures
            match result {
                Ok(s) => r is Ok && *final(self) == (UringBackend {
                    started_once: true,
                    initialized: true,
                    op_tx: Some(s.op_tx),
                    worker: Some(s.worker),
                    processor: Some(s.processor),
                    ..*old(self)
                }),
                Err(e) => r == Err::<(), ZmqError>(e) && *final(self) == (UringBackend {
                    upstream_open: false,
                    ..*old(self)
                }),
            },
    {
        match result {
            Ok(s) => {
                self.op_tx = Some(s.op_tx);
                self.worker = Some(s.worker);
                self.processor = Some(s.processor);
                self.initialized = true;
                self.started_once = true;
                Ok(())
            },
            Err(e) => {
                self.upstream_open = false;
                Err(e)
            },
        }
    }

    /// Starts the backend in its default setup, unless it is up.
    pub fn ensure_global_uring_systems_started(&mut self) -> (r: UringStart)
        ensures
            if old(self).initialized || old(self).started_once {
                r == UringStart::Done(Ok(())) && *final(self) == *old(self)
            } else {
                r == UringStart::Spawn(default_config()) && *final(self) == (UringBackend {
                    upstream_open: true,
                    ..*old(self)
                })
            },
    {
        if self.initialized {
            return UringStart::Done(Ok(()));
        }
        self.initialize_uring_backend(UringConfig::default())
    }

    /// The way to ask the worker for something.
    pub fn get_global_uring_worker_op_tx(&self) -> (r: Result<usize, ZmqError>)
        ensures
            match self.op_tx {
                Some(tx) => r == Ok::<usize, ZmqError>(tx),
                None => r matches Err(ZmqError::Internal(m)) && m@
                    == "UringWorker OP_TX unavailable"@,
            },
    {
        match self.op_tx {
            Some(tx) => Ok(tx),
            None => Err(ZmqError::Internal("UringWorker OP_TX unavailable".to_owned())),
        }
    }

    /// Enters the mailbox of the core that a descriptor belongs to.
    pub fn register_uring_fd_socket_core_mailbox(&mut self, fd: usize, core_mailbox: usize)
        ensures
            *final(self) == (UringBackend {
                fd_mailboxes: final(self).fd_mailboxes,
                ..*old(self)
            }),
            final(self).fd_mailboxes@ == old(self).fd_mailboxes@.insert(fd, core_mailbox),
    {
        let _ = self.fd_mailboxes.insert(fd, core_mailbox);
    }

    /// Forgets a descriptor; also when its core's mailbox takes nothing any more.
    pub fn unregister_uring_fd_socket_core_mailbox(&mut self, fd: usize)
        ensures
            *final(self) == (UringBackend {
                fd_mailboxes: final(self).fd_mailboxes,
                ..*old(self)
            }),
            final(self).fd_mailboxes@ == old(self).fd_mailboxes@.remove(fd),
    {
        let _ = self.fd_mailboxes.remove(fd);
    }

    /// The mailbox that a report goes to and what it says there. A report of a descriptor that
    /// nobody has entered is discarded.
    pub fn route_upstream_event(&self, fd: usize, event: HandlerUpstreamEvent) -> (r: Option<
        (usize, UringCommand),
    >)
        ensures
            r == if self.fd_mailboxes@.dom().contains(fd) {
                Some((self.fd_mailboxes@[fd], command_of(fd, event)))
            } else {
                None
            },
    {
        match self.fd_mailboxes.get(fd) {
            Some(mailbox) => {
                let command = match event {
                    HandlerUpstreamEvent::Data(msg) => UringCommand::FdMessage { fd, msg },
                    HandlerUpstreamEvent::HandshakeComplete { peer_identity } => {
                        UringCommand::FdHandshakeComplete { fd, peer_identity }
                    },
                    HandlerUpstreamEvent::Error(error) => UringCommand::FdError { fd, error },
                };
                Some((*mailbox, command))
            },
            None => None,
        }
    }

    /// Begins to shut the backend down, where it is up: the worker is no longer asked for
    /// anything. Returns whether it does, and the worker's thread, which is to be joined; the
    /// outcome goes to `worker_joined`.
    pub fn shutdown_uring_backend(&mut self) -> (r: (bool, Option<usize>))
        ensures
            if old(self).started_once && old(self).initialized {
                &&& r == (true, old(self).worker)
                &&& *final(self) == (UringBackend {
                    initialized: false,
                    op_tx: None,
                    worker: None,
                    ..*old(self)
                })
            } else {
                r == (false, None::<usize>) && *final(self) == *old(self)
            },
    {
        if !self.started_once || !self.initialized {
            return (false, None);
        }
        self.initialized = false;
        self.op_tx = None;
        let worker = self.worker;
        self.worker = None;
        (true, worker)
    }

    /// Goes on with the shutdown once the worker's thread has been joined, or could not be, as
    /// the words say. Returns the task that is to be awaited before `shutdown_finished`.
    pub fn worker_joined(&mut self, join: Result<(), String>) -> (r: Result<
        Option<usize>,
        ZmqError,
    >)
        ensures
            match join {
                Ok(()) => r == Ok::<Option<usize>, ZmqError>(old(self).processor) && *final(self)
                    == (UringBackend { processor: None, ..*old(self) }),
                Err(words) => *final(self) == *old(self) && (r matches Err(ZmqError::Internal(m))
                    && m@ == "spawn_blocking for worker join failed: "@ + words@),
            },
    {
        match join {
            Ok(()) => {
                let processor = self.processor;
                self.processor = None;
                Ok(processor)
            },
            Err(words) => Err(
                ZmqError::Internal(
                    joined("spawn_blocking for worker join failed: ", words.as_str()),
                ),
            ),
        }
    }

    /// Ends the shutdown: no descriptor is known any more.
    pub fn shutdown_finished(&mut self)
        ensures
            *final(self) == (UringBackend {
                fd_mailboxes: final(self).fd_mailboxes,
                upstream_open: false,
                ..*old(self)
            }),
            final(self).fd_mailboxes@ == Map::<usize, usize>::empty(),
    {
        self.fd_mailboxes = IdMap::new();
        self.upstream_open = false;
    }
}

// ---------------------------------------------------------------------------
// Laws
// ---------------------------------------------------------------------------
/// The backend is started once in the life of the process, with the setup given, and by default
/// with the default one; a start that failed can be tried again.
pub proof fn backend_starts_once(
    fresh: UringBackend,
    a: &mut UringBackend,
    config: UringConfig,
    r: UringStart,
    b: &mut UringBackend,
    s: UringStart,
    c: &mut UringBackend,
    result: Result<StartedUring, ZmqError>,
    t: Result<(), ZmqError>,
    d: UringConfig,
)
    requires
        call_ensures(UringBackend::new, (), fresh),
        call_ensures(UringBackend::initialize_uring_backend, (a, config), r),
        call_ensures(UringBackend::ensure_global_uring_systems_started, (b,), s),
        call_ensures(UringBackend::backend_spawned, (c, result), t),
        call_ensures(UringConfig::default, (), d),
    ensures
        !fresh.started_once && !fresh.initialized && fresh.op_tx is None,
        old(a).started_once ==> r == UringStart::Done(Ok(())) && *final(a) == *old(a),
        !old(a).started_once ==> r == UringStart::Spawn(config) && final(a).upstream_open
            && !final(a).started_once,
        old(b).started_once || old(b).initialized ==> s == UringStart::Done(Ok(())) && *final(b)
            == *old(b),
        !old(b).started_once && !old(b).initialized ==> s == UringStart::Spawn(d) && final(b).upstream_open,
        t is Ok <==> result is Ok,
        result matches Ok(x) ==> final(c).started_once && final(c).initialized && final(c).op_tx
            == Some(x.op_tx) && final(c).worker == Some(x.worker) && final(c).processor == Some(
            x.processor,
        ),
        result matches Err(e) ==> t == Err::<(), ZmqError>(e) && final(c).started_once == old(c).started_once && final(c).initialized == old(c).initialized && !final(c).upstream_open,
{
}

/// The default setup.
pub proof fn default_setup_is_known(d: UringConfig)
    requires
        call_ensures(UringConfig::default, (), d),
    ensures
        d.ring_entries == 256,
        !d.default_send_zerocopy,
        d.default_recv_multishot,
        d.default_recv_buffer_count == 16 && d.default_recv_buffer_size == 65536,
        d.default_send_buffer_count == 16 && d.default_send_buffer_size == 65536,
{
}

/// What the worker reports of a descriptor goes to the mailbox of the core that entered it, and
/// says what was reported; a report of any other descriptor goes nowhere.
pub proof fn reports_go_to_the_descriptors_core(
    b: &UringBackend,
    fd: usize,
    event: HandlerUpstreamEvent,
    r: Option<(usize, UringCommand)>,
)
    requires
        call_ensures(UringBackend::route_upstream_event, (b, fd, event), r),
    ensures
        r is Some <==> b.fd_mailboxes@.dom().contains(fd),
        r matches Some((mailbox, command)) ==> mailbox == b.fd_mailboxes@[fd] && (
        event matches HandlerUpstreamEvent::Data(m) ==> command == (UringCommand::FdMessage {
            fd,
            msg: m,
        })) && (event matches HandlerUpstreamEvent::HandshakeComplete { peer_identity: p }
            ==> command == (UringCommand::FdHandshakeComplete { fd, peer_identity: p })) && (
        event matches HandlerUpstreamEvent::Error(e) ==> command == (UringCommand::FdError {
            fd,
            error: e,
        })),
{
}

/// A descriptor is known from when it is entered until it is forgotten, and others are not
/// touched.
pub proof fn descriptors_come_and_go(
    a: &mut UringBackend,
    b: &mut UringBackend,
    fd: usize,
    mailbox: usize,
    other: usize,
)
    requires
        call_ensures(UringBackend::register_uring_fd_socket_core_mailbox, (a, fd, mailbox), ()),
        call_ensures(UringBackend::unregister_uring_fd_socket_core_mailbox, (b, fd), ()),
        other != fd,
    ensures
        final(a).fd_mailboxes@.dom().contains(fd) && final(a).fd_mailboxes@[fd] == mailbox,
        final(a).fd_mailboxes@.dom().contains(other) <==> old(a).fd_mailboxes@.dom().contains(
            other,
        ),
        !final(b).fd_mailboxes@.dom().contains(fd),
        final(b).fd_mailboxes@.dom().contains(other) <==> old(b).fd_mailboxes@.dom().contains(
            other,
        ),
        final(a).initialized == old(a).initialized && final(b).initialized == old(b).initialized,
{
}

/// A shutdown stops what is up: the worker is joined, then the task behind it, and no descriptor
/// is known in the end. The backend is not started again.
pub proof fn shutdown_leaves_nothing_up(
    a: &mut UringBackend,
    r: (bool, Option<usize>),
    b: &mut UringBackend,
    join: Result<(), String>,
    s: Result<Option<usize>, ZmqError>,
    c: &mut UringBackend,
    fd: usize,
    d: &UringBackend,
    tx: Result<usize, ZmqError>,
)
    requires
        call_ensures(UringBackend::shutdown_uring_backend, (a,), r),
        call_ensures(UringBackend::worker_joined, (b, join), s),
        call_ensures(UringBackend::shutdown_finished, (c,), ()),
        call_ensures(UringBackend::get_global_uring_worker_op_tx, (d,), tx),
    ensures
        r.0 <==> old(a).started_once && old(a).initialized,
        r.0 ==> r.1 == old(a).worker && !final(a).initialized && final(a).op_tx is None && final(a).worker is None && final(a).started_once,
        !r.0 ==> r.1 is None && *final(a) == *old(a),
        join is Ok ==> s == Ok::<Option<usize>, ZmqError>(old(b).processor) && final(b).processor is None,
        join is Err ==> *final(b) == *old(b) && s->Err_0 is Internal,
        !final(c).fd_mailboxes@.dom().contains(fd) && !final(c).upstream_open,
        d.op_tx is Some ==> tx == Ok::<usize, ZmqError>(d.op_tx->0),
        d.op_tx is None ==> tx->Err_0 is Internal && tx is Err,
{
}

/// What is reported is named by its kind.
pub proof fn reports_are_named(event: &HandlerUpstreamEvent, s: &'static str)
    requires
        call_ensures(upstream_event_variant_name, (event,), s),
    ensures
        event is Data ==> s@ == "Data"@,
        event is HandshakeComplete ==> s@ == "HandshakeComplete"@,
        event is Error ==> s@ == "Error"@,
{
}

} // verus!
