use vstd::prelude::*;
use vstd::string::*;

use fibre::mpmc::AsyncSender;
use fibre::mpsc::{BoundedAsyncSender, BoundedSyncReceiver};
use std::sync::Arc;

use crate::error::ZmqError;
use crate::message::Msg;
use crate::socket::events::SocketEvent;
use crate::socket::socket_core::event_processor::SystemEvent;
use crate::socket::socket_core::pipe_manager;
use crate::socket::socket_core::pipe_manager::{send_tried, try_send_message, TrySent};
use crate::text;
use crate::text::{joined, strip_prefix};
use crate::time::Duration;

verus! {

// ---------------------------------------------------------------------------
// No connection
// ---------------------------------------------------------------------------
/// Stands where there is no connection yet.
#[derive(Debug, Clone, Copy)]
pub struct DummyConnection;

impl DummyConnection {
    pub fn send_message(&self, _msg: Msg) -> (r: Result<(), ZmqError>)
        ensures
            r matches Err(ZmqError::UnsupportedFeature(m)) && m@ == "DummyConnection cannot send"@,
    {
        Err(ZmqError::UnsupportedFeature("DummyConnection cannot send".to_owned()))
    }

    pub fn send_multipart(&self, _msgs: Vec<Msg>) -> (r: Result<(), ZmqError>)
        ensures
            r matches Err(ZmqError::UnsupportedFeature(m)) && m@
                == "DummyConnection cannot send multipart"@,
    {
        Err(ZmqError::UnsupportedFeature("DummyConnection cannot send multipart".to_owned()))
    }

    pub fn close_connection(&self) -> (r: Result<(), ZmqError>)
        ensures
            r is Ok,
    {
        Ok(())
    }

    pub fn get_connection_id(&self) -> (id: usize)
        ensures
            id == 0,
    {
        0
    }
}

// ---------------------------------------------------------------------------
// io_uring
// ---------------------------------------------------------------------------
/// The sending end of a bounded channel with one receiver, of the `fibre` crate.
#[verifier::external_type_specification]
#[verifier::external_body]
#[verifier::reject_recursive_types(T)]
pub struct ExBoundedAsyncSender<T: Send>(BoundedAsyncSender<T>);

/// The channel was asked to take the message, without waiting, and gave this answer.
pub uninterp spec fn worker_answered(
    tx: BoundedAsyncSender<Arc<Vec<Msg>>>,
    msgs: Arc<Vec<Msg>>,
    answer: TrySent<Arc<Vec<Msg>>>,
) -> bool;

/// `fibre::mpsc::BoundedAsyncSender::try_send`: the message is offered to the channel, and
/// one that could not be sent comes back. Whether it could rests with the receiver.
#[verifier::external_body]
fn try_send_to_worker(tx: &BoundedAsyncSender<Arc<Vec<Msg>>>, msgs: Arc<Vec<Msg>>) -> (r: TrySent<
    Arc<Vec<Msg>>,
>)
    ensures
        worker_answered(*tx, msgs, r),
        r matches TrySent::Full(i) ==> i == msgs,
        r matches TrySent::Closed(i) ==> i == msgs,
{
    match tx.try_send(msgs) {
        Ok(()) => TrySent::Sent,
        Err(fibre::TrySendError::Full(i)) => TrySent::Full(i),
        Err(fibre::TrySendError::Closed(i)) => TrySent::Closed(i),
        Err(fibre::TrySendError::Sent(i)) => TrySent::Closed(i),
    }
}

/// The receiving end of such a channel, for a thread that may block.
#[verifier::external_type_specification]
#[verifier::external_body]
#[verifier::reject_recursive_types(T)]
pub struct ExBoundedSyncReceiver<T: Send>(BoundedSyncReceiver<T>);

/// How many messages the channel to a worker was made to hold.
pub uninterp spec fn worker_room(tx: BoundedAsyncSender<Arc<Vec<Msg>>>) -> nat;

/// What is sent on one can be received on the other: they are ends of one channel.
pub uninterp spec fn worker_joins(
    tx: BoundedAsyncSender<Arc<Vec<Msg>>>,
    rx: BoundedSyncReceiver<Arc<Vec<Msg>>>,
) -> bool;

/// `fibre::mpsc::bounded`, with the sending end turned into one that does not block: the two
/// ends of a channel with the capacity asked for. It panics for a capacity of 0, and for one
/// whose buffer the machine cannot hold.
#[verifier::external_body]
fn open_worker_channel(capacity: usize) -> (ends: (
    BoundedAsyncSender<Arc<Vec<Msg>>>,
    BoundedSyncReceiver<Arc<Vec<Msg>>>,
))
    requires
        capacity > 0,
    ensures
        worker_room(ends.0) == capacity,
        worker_joins(ends.0, ends.1),
{
    let (tx, rx) = fibre::mpsc::bounded(capacity);
    (tx.to_async(), rx)
}

/// A connection whose descriptor an io_uring worker serves.
#[derive(Debug)]
pub struct UringFdConnection {
    pub fd: usize,
    /// The messages for the worker.
    pub mpsc_tx: BoundedAsyncSender<Arc<Vec<Msg>>>,
}

/// How the request to close a connection ended.
#[derive(Debug)]
pub enum CloseReply {
    Closed,
    Refused(ZmqError),
    /// The worker dropped the request.
    NoReply,
    TimedOut,
    /// The worker could not be asked, and why, in words.
    NotSent(String),
}

/// How long the worker may take to close a connection, in seconds.
pub const CLOSE_TIMEOUT_SECS: u64 = 5;

impl UringFdConnection {
    pub fn new(fd: usize, mpsc_tx: BoundedAsyncSender<Arc<Vec<Msg>>>) -> (c: UringFdConnection)
        ensures
            c.fd == fd,
            c.mpsc_tx == mpsc_tx,
    {
        UringFdConnection { fd, mpsc_tx }
    }

    /// A connection for a descriptor, and what its worker reads. As many messages wait for the
    /// worker as the socket lets wait on one connection, and at least one.
    pub fn open(fd: usize, sndhwm: usize) -> (r: (
        UringFdConnection,
        BoundedSyncReceiver<Arc<Vec<Msg>>>,
    ))
        ensures
            r.0.fd == fd,
            worker_room(r.0.mpsc_tx) == if sndhwm == 0 {
                1
            } else {
                sndhwm as int
            },
            worker_joins(r.0.mpsc_tx, r.1),
    {
        let room: usize = if sndhwm == 0 {
            1
        } else {
            sndhwm
        };
        let (tx, rx) = open_worker_channel(room);
        (UringFdConnection::new(fd, tx), rx)
    }

    /// Hands a message to the worker, without waiting: the message is offered to the worker's
    /// channel, and the outcome is what the channel answers. Which answer that is rests with
    /// the worker.
    pub fn send_multipart_sync(&self, msgs: Vec<Msg>) -> (r: Result<(), ZmqError>)
        ensures
            exists|shared: Arc<Vec<Msg>>, answer: TrySent<Arc<Vec<Msg>>>|
                *shared == msgs && #[trigger] worker_answered(self.mpsc_tx, shared, answer) && r
                    == pipe_manager::tried_result(answer),
    {
        send_tried(try_send_to_worker(&self.mpsc_tx, Arc::new(msgs)))
    }

    /// What a request to close the connection comes to.
    pub fn close_connection(reply: CloseReply) -> (r: Result<(), ZmqError>)
        ensures
            match reply {
                CloseReply::Closed => r is Ok,
                CloseReply::Refused(e) => r == Err::<(), ZmqError>(e),
                CloseReply::NoReply => r matches Err(ZmqError::Internal(m)) && m@
                    == "UringWorker reply channel error for close"@,
                CloseReply::TimedOut => r == Err::<(), ZmqError>(ZmqError::Timeout),
                CloseReply::NotSent(words) => r matches Err(ZmqError::Internal(m)) && m@
                    == "UringWorker op channel error for close: "@ + words@,
            },
    {
        match reply {
            CloseReply::Closed => Ok(()),
            CloseReply::Refused(e) => Err(e),
            CloseReply::NoReply => Err(
                ZmqError::Internal("UringWorker reply channel error for close".to_owned()),
            ),
            CloseReply::TimedOut => Err(ZmqError::Timeout),
            CloseReply::NotSent(words) => Err(
                ZmqError::Internal(
                    joined("UringWorker op channel error for close: ", words.as_str()),
                ),
            ),
        }
    }

    pub fn get_connection_id(&self) -> (id: usize)
        ensures
            id == self.fd,
    {
        self.fd
    }
}

// ---------------------------------------------------------------------------
// Within the process
// ---------------------------------------------------------------------------
/// A connection to a socket of the same process.
#[derive(Debug)]
pub struct InprocConnection {
    pub connection_id: usize,
    pub local_pipe_write_id_to_peer: usize,
    pub local_pipe_read_id_from_peer: usize,
    pub peer_inproc_name_or_uri: String,
    pub data_tx_to_peer: AsyncSender<Vec<Msg>>,
    pub monitored: bool,
    pub sndtimeo: Option<Duration>,
}

/// The outcome of a send that may have to wait for room.
#[derive(Debug)]
pub enum InprocSendStep {
    Done(Result<(), ZmqError>),
    /// Send the message to the peer, waiting for room no longer than the time given, and hand
    /// the outcome to `pipe_manager::send_waited`.
    Wait { msgs: Vec<Msg>, timeout: Option<Duration> },
}

/// What is told of a connection that is closed.
#[derive(Debug)]
pub struct InprocClosing {
    /// What a monitor hears.
    pub monitor: Option<SocketEvent>,
    /// What the sockets of the process hear.
    pub publish: SystemEvent,
}

/// The name in an in-process URI; a text without the scheme is the name.
pub open spec fn inproc_name(uri: Seq<char>) -> Seq<char> {
    if text::has_prefix(uri, "inproc://"@) {
        uri.skip("inproc://"@.len() as int)
    } else {
        uri
    }
}

impl InprocConnection {
    pub fn new(
        connection_id: usize,
        local_pipe_write_id_to_peer: usize,
        local_pipe_read_id_from_peer: usize,
        peer_inproc_name_or_uri: String,
        data_tx_to_peer: AsyncSender<Vec<Msg>>,
        monitored: bool,
        sndtimeo: Option<Duration>,
    ) -> (c: InprocConnection)
        ensures
            c == (InprocConnection {
                connection_id,
                local_pipe_write_id_to_peer,
                local_pipe_read_id_from_peer,
                peer_inproc_name_or_uri,
                data_tx_to_peer,
                monitored,
                sndtimeo,
            }),
    {
        InprocConnection {
            connection_id,
            local_pipe_write_id_to_peer,
            local_pipe_read_id_from_peer,
            peer_inproc_name_or_uri,
            data_tx_to_peer,
            monitored,
            sndtimeo,
        }
    }

    /// Sends a message to the peer: at once where the time limit is zero, and otherwise by a
    /// wait that the caller performs. A send at once offers the message to the peer's pipe, and
    /// comes to what the pipe answers; which answer that is rests with the peer.
    pub fn send_multipart(&self, msgs: Vec<Msg>) -> (r: InprocSendStep)
        ensures
            match self.sndtimeo {
                Some(d) if d.spec_nanos() == 0 => exists|answer: TrySent<Vec<Msg>>| #[trigger]
                    pipe_manager::message_answered(self.data_tx_to_peer, msgs, answer) && r
                        == InprocSendStep::Done(pipe_manager::tried_result(answer)),
                _ => r == (InprocSendStep::Wait { msgs, timeout: self.sndtimeo }),
            },
    {
        if let Some(d) = self.sndtimeo {
            if d.is_zero() {
                return InprocSendStep::Done(
                    send_tried(try_send_message(&self.data_tx_to_peer, msgs)),
                );
            }
        }
        InprocSendStep::Wait { msgs, timeout: self.sndtimeo }
    }

    /// Closes the connection: its monitor and the peer's socket are told.
    pub fn close_connection(&self) -> (r: InprocClosing)
        ensures
            r.monitor is Some == self.monitored,
            r.monitor matches Some(e) ==> e == (SocketEvent::Disconnected {
                endpoint: self.peer_inproc_name_or_uri,
            }),
            r.publish matches SystemEvent::InprocPipePeerClosed {
                target_inproc_name,
                closed_by_connector_pipe_read_id,
            } && target_inproc_name@ == inproc_name(self.peer_inproc_name_or_uri@)
                && closed_by_connector_pipe_read_id == self.local_pipe_read_id_from_peer,
    {
        let monitor = if self.monitored {
            Some(SocketEvent::Disconnected { endpoint: self.peer_inproc_name_or_uri.clone() })
        } else {
            None
        };
        let target_inproc_name = match strip_prefix(
            self.peer_inproc_name_or_uri.as_str(),
            "inproc://",
        ) {
            Some(name) => name.to_owned(),
            None => self.peer_inproc_name_or_uri.clone(),
        };
        InprocClosing {
            monitor,
            publish: SystemEvent::InprocPipePeerClosed {
                target_inproc_name,
                closed_by_connector_pipe_read_id: self.local_pipe_read_id_from_peer,
            },
        }
    }

    pub fn get_connection_id(&self) -> (id: usize)
        ensures
            id == self.connection_id,
    {
        self.connection_id
    }
}

// ---------------------------------------------------------------------------
// Laws
// ---------------------------------------------------------------------------
/// Where there is no connection nothing is sent, and closing does no harm.
pub proof fn no_connection_sends_nothing(
    d: &DummyConnection,
    msg: Msg,
    msgs: Vec<Msg>,
    a: Result<(), ZmqError>,
    b: Result<(), ZmqError>,
    c: Result<(), ZmqError>,
    id: usize,
)
    requires
        call_ensures(DummyConnection::send_message, (d, msg), a),
        call_ensures(DummyConnection::send_multipart, (d, msgs), b),
        call_ensures(DummyConnection::close_connection, (d,), c),
        call_ensures(DummyConnection::get_connection_id, (d,), id),
    ensures
        a is Err && a->Err_0 is UnsupportedFeature,
        b is Err && b->Err_0 is UnsupportedFeature,
        c is Ok,
        id == 0,
{
}

/// A connection is closed exactly where its worker says so; in every other case the caller is
/// told why not.
pub proof fn closing_succeeds_only_when_confirmed(reply: CloseReply, r: Result<(), ZmqError>)
    requires
        call_ensures(UringFdConnection::close_connection, (reply,), r),
    ensures
        r is Ok <==> reply is Closed,
        reply matches CloseReply::Refused(e) ==> r == Err::<(), ZmqError>(e),
        reply is TimedOut ==> (r matches Err(e) && e is Timeout),
        reply is NoReply || reply is NotSent ==> (r matches Err(e) && e is Internal),
{
}

/// As many messages wait for a worker as the mark says, and at least one; the connection is
/// known by its descriptor.
pub proof fn worker_has_the_room_asked_for(
    fd: usize,
    sndhwm: usize,
    r: (UringFdConnection, BoundedSyncReceiver<Arc<Vec<Msg>>>),
    id: usize,
)
    requires
        call_ensures(UringFdConnection::open, (fd, sndhwm), r),
        call_ensures(UringFdConnection::get_connection_id, (&r.0,), id),
    ensures
        sndhwm > 0 ==> worker_room(r.0.mpsc_tx) == sndhwm,
        sndhwm == 0 ==> worker_room(r.0.mpsc_tx) == 1,
        worker_joins(r.0.mpsc_tx, r.1),
        id == fd,
{
}

/// A message handed to a worker was sent exactly where the worker's channel took it.
pub proof fn worker_answers_for_the_message(
    c: &UringFdConnection,
    msgs: Vec<Msg>,
    r: Result<(), ZmqError>,
)
    requires
        call_ensures(UringFdConnection::send_multipart_sync, (c, msgs), r),
    ensures
        exists|shared: Arc<Vec<Msg>>, answer: TrySent<Arc<Vec<Msg>>>|
            *shared == msgs && #[trigger] worker_answered(c.mpsc_tx, shared, answer) && (r is Ok
                <==> answer is Sent) && (answer is Full ==> r == Err::<(), ZmqError>(
                ZmqError::ResourceLimitReached,
            )) && (answer is Closed ==> r == Err::<(), ZmqError>(ZmqError::ConnectionClosed)),
{
    let (shared, answer) = choose|shared: Arc<Vec<Msg>>, answer: TrySent<Arc<Vec<Msg>>>|
        *shared == msgs && #[trigger] worker_answered(c.mpsc_tx, shared, answer) && r
            == pipe_manager::tried_result(answer);
    assert(worker_answered(c.mpsc_tx, shared, answer));
}

/// A message to a socket of the process waits for room as long as the option says, and is
/// offered at once only where that is zero.
pub proof fn inproc_send_waits_as_set(c: &InprocConnection, msgs: Vec<Msg>, r: InprocSendStep)
    requires
        call_ensures(InprocConnection::send_multipart, (c, msgs), r),
    ensures
        c.sndtimeo is None || c.sndtimeo->0.spec_nanos() > 0 ==> r == (InprocSendStep::Wait {
            msgs,
            timeout: c.sndtimeo,
        }),
        c.sndtimeo is Some && c.sndtimeo->0.spec_nanos() == 0 ==> exists|answer: TrySent<Vec<Msg>>|
            #[trigger] pipe_manager::message_answered(c.data_tx_to_peer, msgs, answer) && (r
                == InprocSendStep::Done(Ok(())) <==> answer is Sent),
{
    if c.sndtimeo is Some && c.sndtimeo->0.spec_nanos() == 0 {
        let answer = choose|answer: TrySent<Vec<Msg>>| #[trigger]
            pipe_manager::message_answered(c.data_tx_to_peer, msgs, answer) && r
                == InprocSendStep::Done(pipe_manager::tried_result(answer));
        assert(pipe_manager::message_answered(c.data_tx_to_peer, msgs, answer));
    }
}

/// A connection within the process that is closed is told of to the socket of its peer's name,
/// with the pipe that its own socket reads, and to a monitor where there is one.
pub proof fn closing_tells_the_peer(c: &InprocConnection, r: InprocClosing, name: Seq<char>, id: usize)
    requires
        call_ensures(InprocConnection::close_connection, (c,), r),
        call_ensures(InprocConnection::get_connection_id, (c,), id),
    ensures
        c.peer_inproc_name_or_uri@ == "inproc://"@ + name ==> (
        r.publish matches SystemEvent::InprocPipePeerClosed {
            target_inproc_name,
            closed_by_connector_pipe_read_id,
        } && target_inproc_name@ == name && closed_by_connector_pipe_read_id
            == c.local_pipe_read_id_from_peer),
        !c.monitored ==> r.monitor is None,
        c.monitored ==> (r.monitor matches Some(SocketEvent::Disconnected { endpoint })
            && endpoint == c.peer_inproc_name_or_uri),
        id == c.connection_id,
{
    let n = "inproc://"@.len() as int;
    if c.peer_inproc_name_or_uri@ == "inproc://"@ + name {
        assert(c.peer_inproc_name_or_uri@.take(n) =~= "inproc://"@);
        assert(c.peer_inproc_name_or_uri@.skip(n) =~= name);
    }
}

} // verus!
