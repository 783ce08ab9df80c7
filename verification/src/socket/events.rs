use vstd::prelude::*;

use fibre::mpmc::{AsyncReceiver, AsyncSender};

use crate::socket::socket_core::pipe_manager::TrySent;
use crate::time::Duration;

verus! {

/// How many monitor events wait by default.
pub const DEFAULT_MONITOR_CAPACITY: usize = 100;

/// What happens to a socket and its connections, as a monitor sees it.
#[derive(Debug)]
#[non_exhaustive]
pub enum SocketEvent {
    /// The socket listens on the endpoint.
    Listening { endpoint: String },
    /// The endpoint could not be bound.
    BindFailed { endpoint: String, error_msg: String },
    /// A connection was accepted.
    Accepted { endpoint: String, peer_addr: String },
    /// A connection could not be accepted.
    AcceptFailed { endpoint: String, error_msg: String },
    /// The transport is connected; the handshake may follow.
    Connected { endpoint: String, peer_addr: String },
    /// A first attempt to connect failed, and others follow.
    ConnectDelayed { endpoint: String, error_msg: String },
    /// Another attempt to connect follows after the interval.
    ConnectRetried { endpoint: String, interval: Duration },
    /// The attempt to connect failed for good.
    ConnectFailed { endpoint: String, error_msg: String },
    /// A listener is closed.
    Closed { endpoint: String },
    /// A connection ended.
    Disconnected { endpoint: String },
    /// A handshake failed.
    HandshakeFailed { endpoint: String, error_msg: String },
    /// A handshake succeeded.
    HandshakeSucceeded { endpoint: String },
}

/// How many events the channel to a monitor was made to hold.
pub uninterp spec fn monitor_room(tx: AsyncSender<SocketEvent>) -> nat;

/// What is sent on one can be received on the other: they are ends of one channel.
pub uninterp spec fn monitor_joins(
    tx: AsyncSender<SocketEvent>,
    rx: AsyncReceiver<SocketEvent>,
) -> bool;

/// `fibre::mpmc::bounded_async`, for a monitor: the two ends of its channel. The capacity is
/// the one asked for. It panics for a capacity of 0, and for one whose buffer the machine
/// cannot hold.
#[verifier::external_body]
fn open_monitor_channel(capacity: usize) -> (ends: (
    AsyncSender<SocketEvent>,
    AsyncReceiver<SocketEvent>,
))
    requires
        capacity > 0,
    ensures
        monitor_room(ends.0) == capacity,
        monitor_joins(ends.0, ends.1),
{
    fibre::mpmc::bounded_async(capacity)
}

/// The channel to a monitor was asked to take the event, without waiting, and gave this answer.
pub uninterp spec fn event_answered(
    tx: AsyncSender<SocketEvent>,
    event: SocketEvent,
    answer: TrySent<SocketEvent>,
) -> bool;

/// `fibre::mpmc::AsyncSender::try_send`, on the channel to a monitor: the event is offered to
/// the channel, and one that could not be sent comes back. Whether it could rests with the
/// monitor.
#[verifier::external_body]
fn try_send_event(tx: &AsyncSender<SocketEvent>, event: SocketEvent) -> (r: TrySent<SocketEvent>)
    ensures
        event_answered(*tx, event, r),
        r matches TrySent::Full(e) ==> e == event,
        r matches TrySent::Closed(e) ==> e == event,
{
    match tx.try_send(event) {
        Ok(()) => TrySent::Sent,
        Err(fibre::TrySendError::Full(e)) => TrySent::Full(e),
        Err(fibre::TrySendError::Closed(e)) => TrySent::Closed(e),
        Err(fibre::TrySendError::Sent(e)) => TrySent::Closed(e),
    }
}

/// Tells a monitor of an event, without waiting. An event for which its channel has no room, or
/// which nobody receives any more, is dropped, and is what is returned.
pub fn tell_monitor(monitor: &AsyncSender<SocketEvent>, event: SocketEvent) -> (dropped: Option<
    SocketEvent,
>)
    ensures
        exists|answer: TrySent<SocketEvent>| #[trigger]
            event_answered(*monitor, event, answer) && dropped == match answer {
                TrySent::Sent => None,
                _ => Some(event),
            },
{
    event_dropped(try_send_event(monitor, event))
}

/// The event that is dropped, after the answer of a monitor's channel.
pub fn event_dropped(answer: TrySent<SocketEvent>) -> (dropped: Option<SocketEvent>)
    ensures
        dropped == match answer {
            TrySent::Sent => None,
            TrySent::Full(e) => Some(e),
            TrySent::Closed(e) => Some(e),
        },
{
    match answer {
        TrySent::Sent => None,
        TrySent::Full(e) => Some(e),
        TrySent::Closed(e) => Some(e),
    }
}

/// The channel to a monitor, with room for so many events, and for one where that is 0.
pub fn monitor(capacity: usize) -> (ends: (AsyncSender<SocketEvent>, AsyncReceiver<SocketEvent>))
    ensures
        monitor_room(ends.0) == if capacity == 0 {
            1
        } else {
            capacity as int
        },
        monitor_joins(ends.0, ends.1),
{
    open_monitor_channel(
        if capacity == 0 {
            1
        } else {
            capacity
        },
    )
}

/// The channel to a monitor, with the default room.
pub fn monitor_default() -> (ends: (AsyncSender<SocketEvent>, AsyncReceiver<SocketEvent>))
    ensures
        monitor_room(ends.0) == DEFAULT_MONITOR_CAPACITY,
        monitor_joins(ends.0, ends.1),
{
    monitor(DEFAULT_MONITOR_CAPACITY)
}

/// An event reaches the monitor exactly where its channel takes it; otherwise that event is
/// what is dropped.
pub proof fn untaken_event_is_dropped(
    tx: &AsyncSender<SocketEvent>,
    event: SocketEvent,
    dropped: Option<SocketEvent>,
    answer: TrySent<SocketEvent>,
    left: Option<SocketEvent>,
)
    requires
        call_ensures(tell_monitor, (tx, event), dropped),
        call_ensures(event_dropped, (answer,), left),
    ensures
        exists|a: TrySent<SocketEvent>| #[trigger]
            event_answered(*tx, event, a) && (dropped is None <==> a is Sent),
        dropped is Some ==> dropped == Some(event),
        left is None <==> answer is Sent,
        answer matches TrySent::Full(e) ==> left == Some(e),
        answer matches TrySent::Closed(e) ==> left == Some(e),
{
    let a = choose|a: TrySent<SocketEvent>| #[trigger]
        event_answered(*tx, event, a) && dropped == match a {
            TrySent::Sent => None,
            _ => Some(event),
        };
    assert(event_answered(*tx, event, a));
}

/// A monitor's channel has the room asked for, one event at least, and a hundred by default.
pub proof fn monitor_has_the_room_asked_for(
    capacity: usize,
    ends: (AsyncSender<SocketEvent>, AsyncReceiver<SocketEvent>),
    by_default: (AsyncSender<SocketEvent>, AsyncReceiver<SocketEvent>),
)
    requires
        call_ensures(monitor, (capacity,), ends),
        call_ensures(monitor_default, (), by_default),
    ensures
        capacity > 0 ==> monitor_room(ends.0) == capacity,
        capacity == 0 ==> monitor_room(ends.0) == 1,
        monitor_room(by_default.0) == 100,
        monitor_joins(ends.0, ends.1),
        monitor_joins(by_default.0, by_default.1),
{
}

} // verus!
