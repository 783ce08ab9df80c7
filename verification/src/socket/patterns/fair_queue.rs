use vstd::prelude::*;

use fibre::mpmc::{AsyncReceiver, AsyncSender};

use crate::error::ZmqError;
use crate::socket::patterns::channel;
use crate::socket::patterns::channel::{
    close_sender, open_channel, receive_now, send_now, waiting, Received,
};
use crate::socket::patterns::item::QueueItem;

verus! {

/// Why an item could not be pushed; the item comes back with the reason.
#[derive(Debug)]
pub enum PushError {
    Full(QueueItem),
    Closed(QueueItem),
}

/// The outcome of a push that may have to wait for room.
#[derive(Debug)]
pub enum PushStep {
    Done(Result<(), ZmqError>),
    /// No room yet: push the item again when one has been popped.
    Wait(QueueItem),
}

/// The outcome of a pop that may have to wait for an item.
#[derive(Debug)]
pub enum PopStep {
    /// An item, or `None` where the queue is closed and drained.
    Done(Option<QueueItem>),
    /// Nothing yet: pop again when an item has been pushed.
    Wait,
}

/// Buffers the items of many pipes in one queue, in the order in which they arrive.
#[derive(Debug)]
pub struct FairQueue {
    ends: (AsyncSender<QueueItem>, AsyncReceiver<QueueItem>),
    hwm: usize,
}

impl FairQueue {
    /// The items that wait, oldest first.
    pub closed spec fn items(self) -> Seq<QueueItem> {
        channel::channel_items(self.ends)
    }

    /// The most items that the queue holds.
    pub closed spec fn spec_capacity(self) -> nat {
        self.hwm as nat
    }

    pub closed spec fn is_closed(self) -> bool {
        channel::channel_closed(self.ends)
    }

    /// The queue holds the two ends of one channel, whose bound is the queue's.
    pub closed spec fn is_one_channel(self) -> bool {
        channel::channel_paired(self.ends) && channel::channel_capacity(self.ends) == self.hwm
    }

    /// The queue has room for at least one item, and holds no more than it has room for.
    pub open spec fn wf(self) -> bool {
        &&& self.is_one_channel()
        &&& self.spec_capacity() >= 1
        &&& self.items().len() <= self.spec_capacity()
    }

    /// A queue with room for `capacity` items, and for one where that is 0.
    pub fn new(capacity: usize) -> (q: FairQueue)
        ensures
            q.wf(),
            q.items() == Seq::<QueueItem>::empty(),
            q.spec_capacity() == if capacity == 0 {
                1
            } else {
                capacity as int
            },
            !q.is_closed(),
    {
        let hwm: usize = if capacity == 0 {
            1
        } else {
            capacity
        };
        FairQueue { ends: open_channel(hwm), hwm }
    }

    /// Pushes an item where there is room.
    pub fn try_push_item(&mut self, item: QueueItem) -> (r: Result<(), PushError>)
        requires
            old(self).wf(),
        ensures
            final(self).wf(),
            final(self).spec_capacity() == old(self).spec_capacity(),
            final(self).is_closed() == old(self).is_closed(),
            if old(self).is_closed() {
                r == Err::<(), PushError>(PushError::Closed(item)) && final(self).items() == old(self).items()
            } else if old(self).items().len() == old(self).spec_capacity() {
                r == Err::<(), PushError>(PushError::Full(item)) && final(self).items() == old(self).items()
            } else {
                r is Ok && final(self).items() == old(self).items().push(item)
            },
    {
        send_now(&mut self.ends, item)
    }

    /// Pushes an item, waiting for room where there is none.
    pub fn push_item(&mut self, item: QueueItem) -> (r: PushStep)
        requires
            old(self).wf(),
        ensures
            final(self).wf(),
            final(self).spec_capacity() == old(self).spec_capacity(),
            final(self).is_closed() == old(self).is_closed(),
            if old(self).is_closed() {
                (r matches PushStep::Done(Err(ZmqError::Internal(m))) && m@
                    == "FairQueue channel closed unexpectedly"@) && final(self).items() == old(self).items()
            } else if old(self).items().len() == old(self).spec_capacity() {
                r == PushStep::Wait(item) && final(self).items() == old(self).items()
            } else {
                r == PushStep::Done(Ok(())) && final(self).items() == old(self).items().push(item)
            },
    {
        match self.try_push_item(item) {
            Ok(()) => PushStep::Done(Ok(())),
            Err(PushError::Full(item)) => PushStep::Wait(item),
            Err(PushError::Closed(_)) => PushStep::Done(
                Err(ZmqError::Internal("FairQueue channel closed unexpectedly".to_owned())),
            ),
        }
    }

    /// Pops the oldest item; `None` says that none waits.
    pub fn try_pop_item(&mut self) -> (r: Result<Option<QueueItem>, ZmqError>)
        requires
            old(self).wf(),
        ensures
            final(self).wf(),
            final(self).spec_capacity() == old(self).spec_capacity(),
            final(self).is_closed() == old(self).is_closed(),
            if old(self).items().len() > 0 {
                r == Ok::<Option<QueueItem>, ZmqError>(Some(old(self).items()[0])) && final(self).items() == old(self).items().skip(1)
            } else {
                &&& final(self).items() == old(self).items()
                &&& if old(self).is_closed() {
                    r matches Err(ZmqError::Internal(m)) && m@
                        == "FairQueue channel closed unexpectedly"@
                } else {
                    r == Ok::<Option<QueueItem>, ZmqError>(None)
                }
            },
    {
        match receive_now(&mut self.ends) {
            Received::Item(item) => Ok(Some(item)),
            Received::Empty => Ok(None),
            Received::Disconnected => Err(
                ZmqError::Internal("FairQueue channel closed unexpectedly".to_owned()),
            ),
        }
    }

    /// Pops the oldest item, waiting for one where none is there.
    pub fn pop_item(&mut self) -> (r: PopStep)
        requires
            old(self).wf(),
        ensures
            final(self).wf(),
            final(self).spec_capacity() == old(self).spec_capacity(),
            final(self).is_closed() == old(self).is_closed(),
            if old(self).items().len() > 0 {
                r == PopStep::Done(Some(old(self).items()[0])) && final(self).items() == old(self).items().skip(1)
            } else {
                &&& final(self).items() == old(self).items()
                &&& r == if old(self).is_closed() {
                    PopStep::Done(None)
                } else {
                    PopStep::Wait
                }
            },
    {
        match receive_now(&mut self.ends) {
            Received::Item(item) => PopStep::Done(Some(item)),
            Received::Empty => PopStep::Wait,
            Received::Disconnected => PopStep::Done(None),
        }
    }

    /// The most items that the queue holds.
    pub fn capacity(&self) -> (n: usize)
        ensures
            n == self.spec_capacity(),
    {
        self.hwm
    }

    /// How many items wait.
    pub fn len(&self) -> (n: usize)
        requires
            self.wf(),
        ensures
            n == self.items().len(),
    {
        waiting(&self.ends)
    }

    pub fn is_empty(&self) -> (b: bool)
        requires
            self.wf(),
        ensures
            b == (self.items().len() == 0),
    {
        self.len() == 0
    }

    /// Closes the queue for pushing. What waits can still be popped.
    pub fn close(&mut self)
        requires
            old(self).wf(),
        ensures
            final(self).wf(),
            final(self).is_closed(),
            final(self).items() == old(self).items(),
            final(self).spec_capacity() == old(self).spec_capacity(),
    {
        close_sender(&mut self.ends);
    }
}

// ---------------------------------------------------------------------------
// Laws
// ---------------------------------------------------------------------------
/// An item is pushed behind the others exactly where the queue is open and has room; otherwise
/// it comes back, with the reason, and the queue is as it was.
pub proof fn pushed_item_is_last(q: &mut FairQueue, item: QueueItem, r: Result<(), PushError>)
    requires
        old(q).wf(),
        call_ensures(FairQueue::try_push_item, (q, item), r),
    ensures
        r is Ok <==> !old(q).is_closed() && old(q).items().len() < old(q).spec_capacity(),
        r is Ok ==> final(q).items().len() == old(q).items().len() + 1 && final(q).items().last()
            == item,
        forall|i: int|
            0 <= i < old(q).items().len() ==> #[trigger] final(q).items()[i] == old(q).items()[i],
        r is Err ==> final(q).items() == old(q).items(),
        old(q).is_closed() ==> r == Err::<(), PushError>(PushError::Closed(item)),
        !old(q).is_closed() && r is Err ==> r == Err::<(), PushError>(PushError::Full(item)),
{
}

/// A push that may wait does so exactly where the queue is open and full, and loses nothing.
pub proof fn full_queue_is_waited_on(q: &mut FairQueue, item: QueueItem, r: PushStep)
    requires
        old(q).wf(),
        call_ensures(FairQueue::push_item, (q, item), r),
    ensures
        !old(q).is_closed() && old(q).items().len() < old(q).spec_capacity() ==> r
            == PushStep::Done(Ok(())) && final(q).items() == old(q).items().push(item),
        !old(q).is_closed() && old(q).items().len() >= old(q).spec_capacity() ==> r
            == PushStep::Wait(item) && final(q).items() == old(q).items(),
        old(q).is_closed() ==> (r matches PushStep::Done(Err(_))) && final(q).items() == old(q).items(),
{
}

/// The oldest item is popped, also of a closed queue, and the others move up.
pub proof fn oldest_item_is_popped(
    q: &mut FairQueue,
    now: Result<Option<QueueItem>, ZmqError>,
    p: &mut FairQueue,
    waiting: PopStep,
)
    requires
        call_ensures(FairQueue::try_pop_item, (q,), now),
        call_ensures(FairQueue::pop_item, (p,), waiting),
    ensures
        old(q).items().len() > 0 ==> now == Ok::<Option<QueueItem>, ZmqError>(
            Some(old(q).items()[0]),
        ) && final(q).items() == old(q).items().skip(1),
        old(q).items().len() == 0 && !old(q).is_closed() ==> now == Ok::<
            Option<QueueItem>,
            ZmqError,
        >(None),
        old(q).items().len() == 0 && old(q).is_closed() ==> now is Err,
        old(q).items().len() == 0 ==> final(q).items().len() == 0,
        old(p).items().len() > 0 ==> waiting == PopStep::Done(Some(old(p).items()[0])) && final(p).items() == old(p).items().skip(1),
        old(p).items().len() == 0 && !old(p).is_closed() ==> waiting == PopStep::Wait,
        old(p).items().len() == 0 && old(p).is_closed() ==> waiting == PopStep::Done(None),
        old(p).items().len() == 0 ==> final(p).items().len() == 0,
{
}

/// Nothing overtakes: an item pushed into an open queue with room is what is popped once the
/// items in front of it have been.
pub proof fn items_leave_as_they_came(
    q: &mut FairQueue,
    item: QueueItem,
    r: Result<(), PushError>,
    n: int,
)
    requires
        call_ensures(FairQueue::try_push_item, (q, item), r),
        r is Ok,
        0 <= n <= old(q).items().len(),
    ensures
        final(q).items().skip(n)[0] == if n == old(q).items().len() {
            item
        } else {
            old(q).items()[n]
        },
{
}

/// A new queue is empty and open, with room for what is asked for and for one item at least.
pub proof fn queue_has_the_room_asked_for(capacity: usize, q: FairQueue, n: usize)
    requires
        call_ensures(FairQueue::new, (capacity,), q),
        call_ensures(FairQueue::capacity, (&q,), n),
    ensures
        q.items().len() == 0 && !q.is_closed(),
        n == q.spec_capacity(),
        capacity > 0 ==> n == capacity,
        capacity == 0 ==> n == 1,
{
}

/// The length is the number of items that wait.
pub proof fn length_counts_the_items(q: &FairQueue, n: usize, b: bool)
    requires
        call_ensures(FairQueue::len, (q,), n),
        call_ensures(FairQueue::is_empty, (q,), b),
    ensures
        n == q.items().len(),
        b <==> q.items().len() == 0,
{
}

/// Closing keeps what waits.
pub proof fn closed_queue_keeps_its_items(q: &mut FairQueue)
    requires
        call_ensures(FairQueue::close, (q,), ()),
    ensures
        final(q).is_closed(),
        final(q).items() == old(q).items(),
{
}

/// A queue keeps its room and stays open or closed, whatever is pushed or popped; what a closed
/// queue refuses changes nothing, and the error says why.
pub proof fn queue_keeps_its_room(
    a: &mut FairQueue,
    b: &mut FairQueue,
    c: &mut FairQueue,
    d: &mut FairQueue,
    item: QueueItem,
    pushed: PushStep,
    tried: Result<(), PushError>,
    popped: PopStep,
    taken: Result<Option<QueueItem>, ZmqError>,
)
    requires
        call_ensures(FairQueue::push_item, (a, item), pushed),
        call_ensures(FairQueue::try_push_item, (b, item), tried),
        call_ensures(FairQueue::pop_item, (c,), popped),
        call_ensures(FairQueue::try_pop_item, (d,), taken),
    ensures
        final(a).spec_capacity() == old(a).spec_capacity(),
        final(b).spec_capacity() == old(b).spec_capacity(),
        final(c).spec_capacity() == old(c).spec_capacity(),
        final(d).spec_capacity() == old(d).spec_capacity(),
        final(a).is_closed() == old(a).is_closed(),
        final(b).is_closed() == old(b).is_closed(),
        final(c).is_closed() == old(c).is_closed(),
        final(d).is_closed() == old(d).is_closed(),
        old(a).is_closed() ==> final(a).items() == old(a).items() && (pushed matches PushStep::Done(
            Err(ZmqError::Internal(m)),
        ) && m@ == "FairQueue channel closed unexpectedly"@),
        old(b).is_closed() ==> final(b).items() == old(b).items() && tried == Err::<(), PushError>(
            PushError::Closed(item),
        ),
        !old(b).is_closed() && old(b).items().len() == old(b).spec_capacity() ==> final(b).items()
            == old(b).items() && tried == Err::<(), PushError>(PushError::Full(item)),
        old(c).items().len() == 0 ==> final(c).items().len() == 0 && popped == (if old(c).is_closed() {
            PopStep::Done(None)
        } else {
            PopStep::Wait
        }),
        old(d).items().len() == 0 && old(d).is_closed() ==> (taken matches Err(
            ZmqError::Internal(m),
        ) && m@ == "FairQueue channel closed unexpectedly"@),
        old(d).items().len() == 0 && !old(d).is_closed() ==> taken == Ok::<
            Option<QueueItem>,
            ZmqError,
        >(None),
{
}

} // verus!
