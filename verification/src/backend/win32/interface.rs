//! Device interfaces on Windows: the list of the interfaces that are
//! present, and the notifications of their arrival and removal.

use vstd::prelude::*;

use crate::device_info::{DeviceEvent, DeviceEventView, DeviceId, DeviceIdView};
use crate::queue::{force_pushed, AsyncQueue, WATCHER_QUEUE_CAPACITY};
use crate::utils::Progress;

verus! {

/// Answer of the configuration manager: the call went well.
pub const CR_SUCCESS: u32 = 0;

/// Answer of the configuration manager: the buffer is too small.
pub const CR_BUFFER_SMALL: u32 = 0x1A;

/// Notification: a device interface arrived.
pub const DEVICE_INTERFACE_ARRIVAL: i32 = 0;

/// Notification: a device interface was removed.
pub const DEVICE_INTERFACE_REMOVAL: i32 = 1;

/// What to do after the list of interfaces was asked for.
#[derive(Debug, Clone, Copy, PartialEq, Eq, Structural)]
pub enum ListStep {
    /// The buffer holds the list.
    Done,
    /// The list has grown meanwhile: ask for its length again, make the
    /// buffer that long and ask for the list again.
    Grow,
    /// The call failed with the answer that was given.
    Fail,
}

/// The device interfaces of the HID class.
#[derive(Debug)]
pub struct Interface;

impl Interface {
    /// What to do after the list of interfaces was asked for and the
    /// configuration manager answered `status`.
    pub fn get_interface_list(status: u32) -> (step: ListStep)
        ensures
            step == if status == CR_SUCCESS {
                ListStep::Done
            } else if status == CR_BUFFER_SMALL {
                ListStep::Grow
            } else {
                ListStep::Fail
            },
    {
        if status == CR_SUCCESS {
            ListStep::Done
        } else if status == CR_BUFFER_SMALL {
            ListStep::Grow
        } else {
            ListStep::Fail
        }
    }

    /// Makes the buffer for the list `len` code units long: what it holds
    /// stays as far as it fits, and what is added is zero.
    pub fn resize_list_buffer(buffer: &mut Vec<u16>, len: usize)
        ensures
            final(buffer)@.len() == len,
            forall|i: int|
                0 <= i < len ==> final(buffer)@[i] == if i < old(buffer)@.len() {
                    old(buffer)@[i]
                } else {
                    0u16
                },
    {
        buffer.truncate(len);
        while buffer.len() < len
            invariant
                buffer@.len() <= len,
                buffer@.len() < len ==> old(buffer)@.len() <= buffer@.len(),
                forall|i: int|
                    0 <= i < buffer@.len() ==> buffer@[i] == if i < old(buffer)@.len() {
                        old(buffer)@[i]
                    } else {
                        0u16
                    },
            decreases len - buffer@.len(),
        {
            buffer.push(0);
        }
    }
}

/// The event that a notification stands for: the arrival and the removal of
/// the interface at `path` count, nothing else does.
pub open spec fn notified_event(action: i32, path: Seq<u16>) -> Option<DeviceEventView> {
    if action == DEVICE_INTERFACE_ARRIVAL {
        Some(DeviceEventView::Connected(DeviceIdView::UncPath(path)))
    } else if action == DEVICE_INTERFACE_REMOVAL {
        Some(DeviceEventView::Disconnected(DeviceIdView::UncPath(path)))
    } else {
        None
    }
}

/// The events of one subscriber: the notification callback puts them in,
/// the subscriber takes them out. At most `WATCHER_QUEUE_CAPACITY` wait;
/// an event beyond that pushes the oldest one out.
pub struct DeviceNotificationStream {
    queue: AsyncQueue,
}

impl DeviceNotificationStream {
    /// The queue is well formed and has the capacity of a subscriber.
    pub closed spec fn well_formed(self) -> bool {
        self.queue.well_formed() && self.queue.capacity() == WATCHER_QUEUE_CAPACITY
    }

    /// The events that wait, oldest first.
    pub closed spec fn events(self) -> Seq<DeviceEventView> {
        self.queue.events()
    }

    /// A stream on which nothing waits.
    pub fn new() -> (stream: Self)
        ensures
            stream.well_formed(),
            stream.events() == Seq::<DeviceEventView>::empty(),
    {
        DeviceNotificationStream { queue: AsyncQueue::new(WATCHER_QUEUE_CAPACITY) }
    }

    /// Takes in a notification about the interface at `path`. Returns
    /// whether it stands for an event, of which the subscriber is to be
    /// woken.
    pub fn callback(&mut self, action: i32, path: Vec<u16>) -> (wake: bool)
        requires
            old(self).well_formed(),
        ensures
            final(self).well_formed(),
            match notified_event(action, path@) {
                Some(event) => wake && final(self).events() == force_pushed(
                    old(self).events(),
                    WATCHER_QUEUE_CAPACITY as nat,
                    event,
                ),
                None => !wake && final(self).events() == old(self).events(),
            },
    {
        let event = if action == DEVICE_INTERFACE_ARRIVAL {
            DeviceEvent::Connected(DeviceId::UncPath(path))
        } else if action == DEVICE_INTERFACE_REMOVAL {
            DeviceEvent::Disconnected(DeviceId::UncPath(path))
        } else {
            return false;
        };
        self.queue.force_push(event);
        true
    }

    /// Takes the oldest event out; pending where none waits. The stream
    /// never ends.
    pub fn poll_next(&mut self) -> (r: Progress<Option<DeviceEvent>>)
        requires
            old(self).well_formed(),
        ensures
            final(self).well_formed(),
            match r {
                Progress::Ready(Some(event)) => old(self).events().len() > 0 && event@ == old(
                    self,
                ).events()[0] && final(self).events() == old(self).events().drop_first(),
                Progress::Ready(None) => false,
                Progress::Pending => old(self).events().len() == 0 && final(self).events() == old(
                    self,
                ).events(),
            },
    {
        self.queue.poll_next()
    }
}

} // verus!
