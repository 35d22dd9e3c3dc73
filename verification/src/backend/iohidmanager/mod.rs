//! The rules of the macOS backend: the subscribers of device events and the
//! queues that serve them.

pub mod device_info;
pub mod read_writer;

use std::collections::HashMap;

use vstd::prelude::*;

use crate::device_info::{DeviceEvent, DeviceEventView, DeviceId};
use crate::error::{HidError, HidResult};
use crate::queue::{force_pushed, lemma_force_pushed, AsyncQueue, WATCHER_QUEUE_CAPACITY};
use crate::utils::Progress;

verus! {

/// The id of an entry of the I/O registry, which names a device.
#[derive(Debug, Copy, Clone, Eq, PartialEq, Hash)]
pub struct RegistryEntryId(pub u64);

/// The subscribers `watchers` without those that `id` names.
pub open spec fn without_id(watchers: Seq<(u64, AsyncQueue)>, id: u64) -> Seq<(u64, AsyncQueue)>
    decreases watchers.len(),
{
    if watchers.len() == 0 {
        watchers
    } else if watchers[0].0 == id {
        without_id(watchers.drop_first(), id)
    } else {
        seq![watchers[0]] + without_id(watchers.drop_first(), id)
    }
}

/// Index of the first subscriber from `from` on that `id` names, or the
/// number of subscribers.
pub open spec fn position_of(watchers: Seq<(u64, AsyncQueue)>, from: int, id: u64) -> int
    decreases watchers.len() - from,
{
    if from < 0 || from >= watchers.len() {
        watchers.len() as int
    } else if watchers[from].0 == id {
        from
    } else {
        position_of(watchers, from + 1, id)
    }
}

/// Every subscriber of `before` is there in `after`, with `event` at the end
/// of its queue and without its oldest event where the queue was full.
pub open spec fn delivered_to_all(
    before: Seq<(u64, AsyncQueue)>,
    after: Seq<(u64, AsyncQueue)>,
    event: DeviceEventView,
) -> bool {
    &&& after.len() == before.len()
    &&& forall|i: int|
        0 <= i < before.len() ==> (#[trigger] after[i]).0 == before[i].0 && after[i].1.events()
            == force_pushed(before[i].1.events(), WATCHER_QUEUE_CAPACITY as nat, event)
}

/// What the callbacks of the device manager share: the subscribers with
/// their queues, and the identifier of every attached device by the address
/// of its handle.
pub struct ManagerCallbackContext {
    next_id: u64,
    watchers: Vec<(u64, AsyncQueue)>,
    devices: HashMap<u64, DeviceId>,
}

impl ManagerCallbackContext {
    /// Every queue is well formed and has the capacity of a subscriber.
    pub closed spec fn well_formed(self) -> bool {
        forall|i: int|
            0 <= i < self.watchers@.len() ==> (#[trigger] self.watchers@[i]).1.well_formed()
                && self.watchers@[i].1.capacity() == WATCHER_QUEUE_CAPACITY
    }

    /// The subscribers, in the order in which they registered, each with its
    /// id and its queue.
    pub closed spec fn watchers(self) -> Seq<(u64, AsyncQueue)> {
        self.watchers@
    }

    /// The id that the next subscriber gets.
    pub closed spec fn next_id(self) -> u64 {
        self.next_id
    }

    /// The identifiers of the attached devices, by handle.
    pub closed spec fn devices(self) -> Map<u64, DeviceId> {
        self.devices@
    }

    /// A context without subscribers and without devices.
    pub fn new() -> (context: Self)
        ensures
            context.well_formed(),
            context.watchers() == Seq::<(u64, AsyncQueue)>::empty(),
            context.next_id() == 0,
            context.devices() == Map::<u64, DeviceId>::empty(),
    {
        ManagerCallbackContext { next_id: 0, watchers: Vec::new(), devices: HashMap::new() }
    }

    /// Adds a subscriber with an empty queue and returns its id.
    pub fn register_watcher(&mut self) -> (id: u64)
        requires
            old(self).well_formed(),
        ensures
            final(self).well_formed(),
            id == old(self).next_id(),
            final(self).next_id() == if id == u64::MAX {
                0
            } else {
                (id + 1) as u64
            },
            final(self).devices() == old(self).devices(),
            final(self).watchers().len() == old(self).watchers().len() + 1,
            final(self).watchers().drop_last() == old(self).watchers(),
            final(self).watchers().last().0 == id,
            final(self).watchers().last().1.events() == Seq::<DeviceEventView>::empty(),
            final(self).watchers().last().1.capacity() == WATCHER_QUEUE_CAPACITY,
    {
        let id = self.next_id;
        self.next_id = if id == u64::MAX {
            0
        } else {
            id + 1
        };
        self.watchers.push((id, AsyncQueue::new(WATCHER_QUEUE_CAPACITY)));
        assert(self.watchers@.drop_last() =~= old(self).watchers@);
        id
    }

    /// Removes the subscribers that `id` names.
    pub fn unregister_watcher(&mut self, id: u64)
        requires
            old(self).well_formed(),
        ensures
            final(self).well_formed(),
            final(self).watchers() == without_id(old(self).watchers(), id),
            final(self).next_id() == old(self).next_id(),
            final(self).devices() == old(self).devices(),
    {
        let mut i: usize = 0;
        assert(self.watchers@.subrange(0, self.watchers@.len() as int) =~= self.watchers@);
        assert(self.watchers@.subrange(0, 0) + without_id(self.watchers@, id) =~= without_id(
            self.watchers@,
            id,
        ));
        while i < self.watchers.len()
            invariant
                i <= self.watchers@.len(),
                self.well_formed(),
                self.next_id == old(self).next_id,
                self.devices == old(self).devices,
                self.watchers@.subrange(0, i as int) + without_id(
                    self.watchers@.subrange(i as int, self.watchers@.len() as int),
                    id,
                ) == without_id(old(self).watchers@, id),
            decreases self.watchers@.len() - i,
        {
            let ghost before = self.watchers@;
            let ghost tail = before.subrange(i as int, before.len() as int);
            assert(tail.drop_first() =~= before.subrange(i + 1, before.len() as int));
            if self.watchers[i].0 == id {
                let _ = self.watchers.remove(i);
                assert(self.watchers@.subrange(0, i as int) =~= before.subrange(0, i as int));
                assert(self.watchers@.subrange(i as int, self.watchers@.len() as int)
                    =~= tail.drop_first());
            } else {
                assert(before.subrange(0, i + 1) + without_id(tail.drop_first(), id)
                    =~= before.subrange(0, i as int) + (seq![tail[0]] + without_id(
                    tail.drop_first(),
                    id,
                )));
                i = i + 1;
            }
        }
        assert(self.watchers@.subrange(0, i as int) =~= self.watchers@);
        assert(self.watchers@.subrange(i as int, self.watchers@.len() as int) =~= Seq::<
            (u64, AsyncQueue),
        >::empty());
    }

    /// Hands `event` to every subscriber: each queue gets it once, at its
    /// end, and drops its oldest event where it was full.
    pub fn notify_watchers(&mut self, event: &DeviceEvent)
        requires
            old(self).well_formed(),
        ensures
            final(self).well_formed(),
            final(self).next_id() == old(self).next_id(),
            final(self).devices() == old(self).devices(),
            delivered_to_all(old(self).watchers(), final(self).watchers(), event@),
    {
        let mut i: usize = 0;
        while i < self.watchers.len()
            invariant
                i <= self.watchers@.len(),
                self.well_formed(),
                self.next_id == old(self).next_id,
                self.devices == old(self).devices,
                self.watchers@.len() == old(self).watchers@.len(),
                forall|k: int|
                    0 <= k < self.watchers@.len() ==> (#[trigger] self.watchers@[k]).0 == old(self).watchers@[k].0,
                forall|k: int|
                    0 <= k < i ==> (#[trigger] self.watchers@[k]).1.events() == force_pushed(
                        old(self).watchers@[k].1.events(),
                        WATCHER_QUEUE_CAPACITY as nat,
                        event@,
                    ),
                forall|k: int|
                    i <= k < self.watchers@.len() ==> (#[trigger] self.watchers@[k]) == old(self).watchers@[k],
            decreases self.watchers@.len() - i,
        {
            let watcher = &mut self.watchers[i];
            watcher.1.force_push(event.clone());
            i = i + 1;
        }
    }

    /// Takes the oldest event out of the queue of the first subscriber that
    /// `id` names; pending where no event waits there.
    pub fn poll_watcher(&mut self, id: u64) -> (r: Progress<DeviceEvent>)
        requires
            old(self).well_formed(),
        ensures
            final(self).well_formed(),
            final(self).next_id() == old(self).next_id(),
            final(self).devices() == old(self).devices(),
            final(self).watchers().len() == old(self).watchers().len(),
            ({
                let before = old(self).watchers();
                let after = final(self).watchers();
                let at = position_of(before, 0, id);
                let waits = at < before.len() && before[at].1.events().len() > 0;
                &&& forall|i: int| 0 <= i < before.len() && i != at ==> after[i] == before[i]
                &&& at < before.len() ==> after[at].0 == id && after[at].1.events() == if waits {
                    before[at].1.events().drop_first()
                } else {
                    before[at].1.events()
                }
                &&& waits ==> r is Ready && r->Ready_0@ == before[at].1.events()[0]
                &&& !waits ==> r is Pending
            }),
    {
        let mut i: usize = 0;
        while i < self.watchers.len()
            invariant
                i <= self.watchers@.len(),
                self.well_formed(),
                *self == *old(self),
                position_of(self.watchers@, 0, id) == position_of(self.watchers@, i as int, id),
            decreases self.watchers@.len() - i,
        {
            if self.watchers[i].0 == id {
                let ghost before = self.watchers@;
                let watcher = &mut self.watchers[i];
                let polled = watcher.1.poll_next();
                return match polled {
                    Progress::Ready(Some(event)) => Progress::Ready(event),
                    _ => Progress::Pending,
                };
            }
            i = i + 1;
        }
        Progress::Pending
    }

    /// A device arrived. Where its identifier could be read, the identifier
    /// is kept under the handle `device`, and every subscriber is told that
    /// it is connected.
    pub fn added_callback(&mut self, device: u64, id: HidResult<DeviceId>)
        requires
            old(self).well_formed(),
        ensures
            final(self).well_formed(),
            final(self).next_id() == old(self).next_id(),
            match id {
                Ok(id) => {
                    &&& final(self).devices().dom() == old(self).devices().dom().insert(device)
                    &&& final(self).devices()[device]@ == id@
                    &&& forall|other: u64|
                        other != device && old(self).devices().dom().contains(other) ==> final(self).devices()[other] == old(self).devices()[other]
                    &&& delivered_to_all(
                        old(self).watchers(),
                        final(self).watchers(),
                        DeviceEventView::Connected(id@),
                    )
                },
                Err(_) => *final(self) == *old(self),
            },
    {
        if let Ok(id) = id {
            broadcast use vstd::std_specs::hash::group_hash_axioms;

            let _ = self.devices.insert(device, id.clone());
            self.notify_watchers(&DeviceEvent::Connected(id));
        }
    }

    /// A device left. Where its identifier is known, it is forgotten, and
    /// every subscriber is told that the device is disconnected.
    pub fn removed_callback(&mut self, device: u64)
        requires
            old(self).well_formed(),
        ensures
            final(self).well_formed(),
            final(self).next_id() == old(self).next_id(),
            final(self).devices() == old(self).devices().remove(device),
            if old(self).devices().dom().contains(device) {
                delivered_to_all(
                    old(self).watchers(),
                    final(self).watchers(),
                    DeviceEventView::Disconnected(old(self).devices()[device]@),
                )
            } else {
                final(self).watchers() == old(self).watchers()
            },
    {
        broadcast use vstd::std_specs::hash::group_hash_axioms;

        match self.devices.remove(&device) {
            Some(id) => {
                self.notify_watchers(&DeviceEvent::Disconnected(id));
            },
            None => {
                assert(self.devices@ =~= old(self).devices@.remove(device));
            },
        }
    }
}

/// A subscriber that was registered when an event was handed out finds
/// the event in its queue exactly once more than before: as the newest
/// entry, behind what waited there, of which the oldest entry made room
/// where the queue was full.
pub proof fn lemma_each_watcher_gets_the_event_once(
    before: Seq<(u64, AsyncQueue)>,
    after: Seq<(u64, AsyncQueue)>,
    event: DeviceEventView,
    i: int,
)
    requires
        delivered_to_all(before, after, event),
        0 <= i < before.len(),
        before[i].1.events().len() <= WATCHER_QUEUE_CAPACITY,
    ensures
        after[i].0 == before[i].0,
        after[i].1.events().last() == event,
        after[i].1.events().drop_last() == if before[i].1.events().len() < WATCHER_QUEUE_CAPACITY {
            before[i].1.events()
        } else {
            before[i].1.events().drop_first()
        },
{
    lemma_force_pushed(before[i].1.events(), WATCHER_QUEUE_CAPACITY as nat, event);
}

/// The service of a device that is to be opened: the id of a device that is
/// not attached matches no service.
pub fn get_device(service: u32) -> (r: HidResult<u32>)
    ensures
        r == if service != 0 {
            Ok::<u32, HidError>(service)
        } else {
            Err::<u32, HidError>(HidError::NotConnected)
        },
{
    if service != 0 {
        Ok(service)
    } else {
        Err(HidError::NotConnected)
    }
}

} // verus!
