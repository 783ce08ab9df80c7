use vstd::prelude::*;

use fibre::mpmc::{AsyncReceiver, AsyncSender};

use crate::socket::patterns::fair_queue::PushError;
use crate::socket::patterns::item::QueueItem;

verus! {

/// The sending end of a bounded channel of the `fibre` crate.
#[verifier::external_type_specification]
#[verifier::external_body]
#[verifier::reject_recursive_types(T)]
pub struct ExAsyncSender<T: Send>(AsyncSender<T>);

/// The receiving end of a bounded channel of the `fibre` crate.
#[verifier::external_type_specification]
#[verifier::external_body]
#[verifier::reject_recursive_types(T)]
pub struct ExAsyncReceiver<T: Send>(AsyncReceiver<T>);

/// The two are the ends of one channel, there are no others, and the receiving one is open.
pub uninterp spec fn channel_paired(
    ends: (AsyncSender<QueueItem>, AsyncReceiver<QueueItem>),
) -> bool;

/// What waits in the channel of a pair of ends, in the order in which it was sent.
pub uninterp spec fn channel_items(ends: (AsyncSender<QueueItem>, AsyncReceiver<QueueItem>)) -> Seq<
    QueueItem,
>;

/// How many items the channel was made to hold.
pub uninterp spec fn channel_capacity(
    ends: (AsyncSender<QueueItem>, AsyncReceiver<QueueItem>),
) -> nat;

/// Whether the sending end has been closed.
pub uninterp spec fn channel_closed(
    ends: (AsyncSender<QueueItem>, AsyncReceiver<QueueItem>),
) -> bool;

/// `fibre::mpmc::bounded_async`: an empty channel that holds `capacity` items, with
/// one sending and one receiving end, both open. It panics for a capacity of 0, and for one
/// whose buffer the machine cannot hold.
#[verifier::external_body]
pub(crate) fn open_channel(capacity: usize) -> (ends: (
    AsyncSender<QueueItem>,
    AsyncReceiver<QueueItem>,
))
    requires
        capacity > 0,
    ensures
        channel_paired(ends),
        channel_items(ends) == Seq::<QueueItem>::empty(),
        channel_capacity(ends) == capacity,
        !channel_closed(ends),
{
    fibre::mpmc::bounded_async(capacity)
}

/// `fibre::mpmc::AsyncSender::try_send`: puts the item behind those that wait. The
/// item comes back where the sending end is closed, or where the channel is full.
#[verifier::external_body]
pub(crate) fn send_now(
    ends: &mut (AsyncSender<QueueItem>, AsyncReceiver<QueueItem>),
    item: QueueItem,
) -> (r: Result<(), PushError>)
    requires
        channel_paired(*old(ends)),
    ensures
        channel_paired(*final(ends)),
        channel_capacity(*final(ends)) == channel_capacity(*old(ends)),
        channel_closed(*final(ends)) == channel_closed(*old(ends)),
        channel_items(*final(ends)) == if r is Ok {
            channel_items(*old(ends)).push(item)
        } else {
            channel_items(*old(ends))
        },
        match r {
            Ok(()) => !channel_closed(*old(ends)) && channel_items(*old(ends)).len()
                < channel_capacity(*old(ends)),
            Err(PushError::Full(i)) => i == item && !channel_closed(*old(ends)) && channel_items(
                *old(ends),
            ).len() >= channel_capacity(*old(ends)),
            Err(PushError::Closed(i)) => i == item && channel_closed(*old(ends)),
        },
{
    match ends.0.try_send(item) {
        Ok(()) => Ok(()),
        Err(fibre::TrySendError::Full(i)) => Err(PushError::Full(i)),
        Err(fibre::TrySendError::Closed(i)) => Err(PushError::Closed(i)),
        Err(fibre::TrySendError::Sent(i)) => Err(PushError::Closed(i)),
    }
}

/// What a receive that does not wait found.
pub enum Received {
    Item(QueueItem),
    Empty,
    Disconnected,
}

/// `fibre::mpmc::AsyncReceiver::try_recv`: takes the item that has waited longest.
/// Where none waits, the channel is disconnected if the sending end is closed, and
/// merely empty if not.
#[verifier::external_body]
pub(crate) fn receive_now(ends: &mut (AsyncSender<QueueItem>, AsyncReceiver<QueueItem>)) -> (r:
    Received)
    requires
        channel_paired(*old(ends)),
    ensures
        channel_paired(*final(ends)),
        channel_capacity(*final(ends)) == channel_capacity(*old(ends)),
        channel_closed(*final(ends)) == channel_closed(*old(ends)),
        match r {
            Received::Item(i) => channel_items(*old(ends)).len() > 0 && i == channel_items(
                *old(ends),
            )[0] && channel_items(*final(ends)) == channel_items(*old(ends)).skip(1),
            Received::Empty => channel_items(*old(ends)).len() == 0 && channel_items(*final(ends))
                == channel_items(*old(ends)) && !channel_closed(*old(ends)),
            Received::Disconnected => channel_items(*old(ends)).len() == 0 && channel_items(
                *final(ends),
            ) == channel_items(*old(ends)) && channel_closed(*old(ends)),
        },
{
    match ends.1.try_recv() {
        Ok(i) => Received::Item(i),
        Err(fibre::TryRecvError::Empty) => Received::Empty,
        Err(fibre::TryRecvError::Disconnected) => Received::Disconnected,
    }
}

/// `fibre::mpmc::AsyncReceiver::len`: how many items wait.
#[verifier::external_body]
pub(crate) fn waiting(ends: &(AsyncSender<QueueItem>, AsyncReceiver<QueueItem>)) -> (n: usize)
    requires
        channel_paired(*ends),
    ensures
        n == channel_items(*ends).len(),
{
    ends.1.len()
}

/// `fibre::mpmc::AsyncSender::close`: closes the sending end. What waits can still be
/// received. A second call changes nothing.
#[verifier::external_body]
pub(crate) fn close_sender(ends: &mut (AsyncSender<QueueItem>, AsyncReceiver<QueueItem>))
    requires
        channel_paired(*old(ends)),
    ensures
        channel_paired(*final(ends)),
        channel_closed(*final(ends)),
        channel_capacity(*final(ends)) == channel_capacity(*old(ends)),
        channel_items(*final(ends)) == channel_items(*old(ends)),
{
    let _ = ends.0.close();
}

} // verus!
