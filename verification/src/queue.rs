//! The bounded queues of `crossbeam_queue`, as this library uses them: first
//! in, first out, with a push that makes room by dropping the oldest item.

use crossbeam_queue::ArrayQueue;
use vstd::prelude::*;

use crate::device_info::{DeviceEvent, DeviceEventView};
use crate::utils::Progress;

verus! {

/// `crossbeam_queue::ArrayQueue`, of which the verifier sees nothing but
/// what the functions below say of it.
#[verifier::external_type_specification]
#[verifier::external_body]
#[verifier::reject_recursive_types(T)]
pub struct ExArrayQueue<T>(ArrayQueue<T>);

/// A queue can be made for this many items and no more: the number behind
/// the capacity has to have a power of two at or above it among the 64-bit
/// numbers.
pub open spec fn max_queue_capacity() -> int {
    0x7fff_ffff_ffff_ffff
}

/// The reports that a queue holds, oldest first.
pub uninterp spec fn report_queue_items(queue: ArrayQueue<Vec<u8>>) -> Seq<Seq<u8>>;

/// The number of reports that a queue was made for.
pub uninterp spec fn report_queue_capacity(queue: ArrayQueue<Vec<u8>>) -> nat;

/// The events that a queue holds, oldest first.
pub uninterp spec fn event_queue_items(queue: ArrayQueue<DeviceEvent>) -> Seq<DeviceEventView>;

/// The number of events that a queue was made for.
pub uninterp spec fn event_queue_capacity(queue: ArrayQueue<DeviceEvent>) -> nat;

/// What a bounded queue of capacity `capacity` holds after `item` was pushed
/// with force: the item at the end, and the oldest item gone where the queue
/// was full.
pub open spec fn force_pushed<T>(items: Seq<T>, capacity: nat, item: T) -> Seq<T> {
    if items.len() < capacity {
        items.push(item)
    } else {
        items.drop_first().push(item)
    }
}

/// `ArrayQueue::new`: an empty queue that holds up to `capacity` items. The
/// outside function panics on a capacity of zero and on one whose successor
/// has no next power of two; both are left out.
#[verifier::external_body]
pub(crate) fn report_queue_new(capacity: usize) -> (queue: ArrayQueue<Vec<u8>>)
    requires
        0 < capacity <= max_queue_capacity(),
    ensures
        report_queue_items(queue) == Seq::<Seq<u8>>::empty(),
        report_queue_capacity(queue) == capacity,
{
    ArrayQueue::new(capacity)
}

/// `ArrayQueue::force_push`: puts `report` at the end; where the queue is
/// full, the oldest report leaves and is returned.
#[verifier::external_body]
pub(crate) fn report_queue_force_push(queue: &mut ArrayQueue<Vec<u8>>, report: Vec<u8>) -> (evicted:
    Option<Vec<u8>>)
    requires
        0 < report_queue_capacity(*old(queue)),
        report_queue_items(*old(queue)).len() <= report_queue_capacity(*old(queue)),
    ensures
        report_queue_capacity(*final(queue)) == report_queue_capacity(*old(queue)),
        report_queue_items(*final(queue)) == force_pushed(
            report_queue_items(*old(queue)),
            report_queue_capacity(*old(queue)),
            report@,
        ),
        match evicted {
            Some(oldest) => report_queue_items(*old(queue)).len() == report_queue_capacity(
                *old(queue),
            ) && oldest@ == report_queue_items(*old(queue))[0],
            None => report_queue_items(*old(queue)).len() < report_queue_capacity(*old(queue)),
        },
{
    queue.force_push(report)
}

/// `ArrayQueue::push`: puts `report` at the end where there is room, and
/// hands it back where the queue is full.
#[verifier::external_body]
pub(crate) fn report_queue_push(queue: &mut ArrayQueue<Vec<u8>>, report: Vec<u8>) -> (r: Result<
    (),
    Vec<u8>,
>)
    requires
        report_queue_items(*old(queue)).len() <= report_queue_capacity(*old(queue)),
    ensures
        report_queue_capacity(*final(queue)) == report_queue_capacity(*old(queue)),
        match r {
            Ok(_) => report_queue_items(*old(queue)).len() < report_queue_capacity(*old(queue))
                && report_queue_items(*final(queue)) == report_queue_items(*old(queue)).push(
                report@,
            ),
            Err(back) => report_queue_items(*old(queue)).len() == report_queue_capacity(
                *old(queue),
            ) && back@ == report@ && report_queue_items(*final(queue)) == report_queue_items(
                *old(queue),
            ),
        },
{
    queue.push(report)
}

/// `ArrayQueue::pop`: takes the oldest report out, where there is one.
#[verifier::external_body]
pub(crate) fn report_queue_pop(queue: &mut ArrayQueue<Vec<u8>>) -> (oldest: Option<Vec<u8>>)
    ensures
        report_queue_capacity(*final(queue)) == report_queue_capacity(*old(queue)),
        match oldest {
            Some(report) => report_queue_items(*old(queue)).len() > 0 && report@
                == report_queue_items(*old(queue))[0] && report_queue_items(*final(queue))
                == report_queue_items(*old(queue)).drop_first(),
            None => report_queue_items(*old(queue)).len() == 0 && report_queue_items(
                *final(queue),
            ) == report_queue_items(*old(queue)),
        },
{
    queue.pop()
}

/// `ArrayQueue::new`: an empty queue that holds up to `capacity` items. The
/// outside function panics on a capacity of zero and on one whose successor
/// has no next power of two; both are left out.
#[verifier::external_body]
pub(crate) fn event_queue_new(capacity: usize) -> (queue: ArrayQueue<DeviceEvent>)
    requires
        0 < capacity <= max_queue_capacity(),
    ensures
        event_queue_items(queue) == Seq::<DeviceEventView>::empty(),
        event_queue_capacity(queue) == capacity,
{
    ArrayQueue::new(capacity)
}

/// `ArrayQueue::force_push`: puts `event` at the end; where the queue is
/// full, the oldest event leaves and is returned.
#[verifier::external_body]
pub(crate) fn event_queue_force_push(queue: &mut ArrayQueue<DeviceEvent>, event: DeviceEvent) -> (evicted:
    Option<DeviceEvent>)
    requires
        0 < event_queue_capacity(*old(queue)),
        event_queue_items(*old(queue)).len() <= event_queue_capacity(*old(queue)),
    ensures
        event_queue_capacity(*final(queue)) == event_queue_capacity(*old(queue)),
        event_queue_items(*final(queue)) == force_pushed(
            event_queue_items(*old(queue)),
            event_queue_capacity(*old(queue)),
            event@,
        ),
        match evicted {
            Some(oldest) => event_queue_items(*old(queue)).len() == event_queue_capacity(
                *old(queue),
            ) && oldest@ == event_queue_items(*old(queue))[0],
            None => event_queue_items(*old(queue)).len() < event_queue_capacity(*old(queue)),
        },
{
    queue.force_push(event)
}

/// `ArrayQueue::pop`: takes the oldest event out, where there is one.
#[verifier::external_body]
pub(crate) fn event_queue_pop(queue: &mut ArrayQueue<DeviceEvent>) -> (oldest: Option<DeviceEvent>)
    ensures
        event_queue_capacity(*final(queue)) == event_queue_capacity(*old(queue)),
        match oldest {
            Some(event) => event_queue_items(*old(queue)).len() > 0 && event@
                == event_queue_items(*old(queue))[0] && event_queue_items(*final(queue))
                == event_queue_items(*old(queue)).drop_first(),
            None => event_queue_items(*old(queue)).len() == 0 && event_queue_items(*final(queue))
                == event_queue_items(*old(queue)),
        },
{
    queue.pop()
}

/// Number of events that wait for one subscriber at most.
pub const WATCHER_QUEUE_CAPACITY: usize = 64;

/// The events that wait for one subscriber. The queue is bounded: an event
/// that arrives at a full queue pushes the oldest one out, so that a slow
/// subscriber never holds up the source.
pub struct AsyncQueue {
    items: ArrayQueue<DeviceEvent>,
}

impl AsyncQueue {
    /// The queue holds no more than it was made for.
    pub closed spec fn well_formed(self) -> bool {
        &&& 0 < event_queue_capacity(self.items)
        &&& event_queue_items(self.items).len() <= event_queue_capacity(self.items)
    }

    /// The events that wait, oldest first.
    pub closed spec fn events(self) -> Seq<DeviceEventView> {
        event_queue_items(self.items)
    }

    /// The number of events that the queue was made for.
    pub closed spec fn capacity(self) -> nat {
        event_queue_capacity(self.items)
    }

    /// An empty queue for up to `cap` events.
    pub fn new(cap: usize) -> (queue: Self)
        requires
            0 < cap <= max_queue_capacity(),
        ensures
            queue.well_formed(),
            queue.capacity() == cap,
            queue.events() == Seq::<DeviceEventView>::empty(),
    {
        AsyncQueue { items: event_queue_new(cap) }
    }

    /// Puts `item` at the end; where the queue is full, the oldest event is
    /// dropped for it.
    pub fn force_push(&mut self, item: DeviceEvent)
        requires
            old(self).well_formed(),
        ensures
            final(self).well_formed(),
            final(self).capacity() == old(self).capacity(),
            final(self).events() == force_pushed(old(self).events(), old(self).capacity(), item@),
    {
        let _ = event_queue_force_push(&mut self.items, item);
    }

    /// Takes the oldest event out; pending where none waits.
    pub fn poll_next(&mut self) -> (r: Progress<Option<DeviceEvent>>)
        requires
            old(self).well_formed(),
        ensures
            final(self).well_formed(),
            final(self).capacity() == old(self).capacity(),
            match r {
                Progress::Ready(Some(event)) => old(self).events().len() > 0 && event@ == old(self).events()[0] && final(self).events() == old(self).events().drop_first(),
                Progress::Ready(None) => false,
                Progress::Pending => old(self).events().len() == 0 && final(self).events() == old(self).events(),
            },
    {
        match event_queue_pop(&mut self.items) {
            Some(event) => Progress::Ready(Some(event)),
            None => Progress::Pending,
        }
    }
}

/// A push with force puts the item last, never lets the queue grow beyond
/// its capacity, and keeps what was there in its order: all of it where
/// there was room, all but the oldest item where there was none.
pub proof fn lemma_force_pushed<T>(items: Seq<T>, capacity: nat, item: T)
    requires
        0 < capacity,
        items.len() <= capacity,
    ensures
        force_pushed(items, capacity, item).last() == item,
        force_pushed(items, capacity, item).len() == if items.len() < capacity {
            items.len() + 1
        } else {
            capacity
        },
        force_pushed(items, capacity, item).drop_last() == if items.len() < capacity {
            items
        } else {
            items.drop_first()
        },
{
    if items.len() < capacity {
        assert(items.push(item).drop_last() =~= items);
    } else {
        assert(items.drop_first().push(item).drop_last() =~= items.drop_first());
    }
}

} // verus!
