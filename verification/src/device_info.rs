//! The platform-independent device model: identifiers, device records and
//! connection events.

use vstd::prelude::*;

verus! {

/// A platform-specific identifier of a device.
///
/// It is an opaque handle that can be compared and hashed; its text is no
/// stable identifier.
#[derive(Debug, PartialEq, Eq, Hash)]
pub enum DeviceId {
    /// Windows: the wide characters of a device-interface path.
    UncPath(Vec<u16>),
    /// Linux: an absolute path below `/sys`.
    DevPath(String),
    /// macOS: the id of an entry of the I/O registry.
    RegistryEntryId(u64),
}

/// The mathematical value of a [`DeviceId`].
pub enum DeviceIdView {
    UncPath(Seq<u16>),
    DevPath(Seq<char>),
    RegistryEntryId(u64),
}

impl View for DeviceId {
    type V = DeviceIdView;

    open spec fn view(&self) -> DeviceIdView {
        match self {
            DeviceId::UncPath(path) => DeviceIdView::UncPath(path@),
            DeviceId::DevPath(path) => DeviceIdView::DevPath(path@),
            DeviceId::RegistryEntryId(id) => DeviceIdView::RegistryEntryId(*id),
        }
    }
}

impl Clone for DeviceId {
    fn clone(&self) -> (copy: Self)
        ensures
            copy@ == self@,
    {
        match self {
            DeviceId::UncPath(path) => DeviceId::UncPath(path.clone()),
            DeviceId::DevPath(path) => DeviceId::DevPath(path.clone()),
            DeviceId::RegistryEntryId(id) => DeviceId::RegistryEntryId(*id),
        }
    }
}

/// Basic information about one top-level collection of a device.
#[derive(Debug, Hash, PartialEq, Eq)]
pub struct DeviceInfo {
    /// OS specific identifier.
    pub id: DeviceId,
    /// The human-readable name.
    pub name: String,
    /// The HID product id assigned to this device.
    pub product_id: u16,
    /// The HID vendor id of the device's manufacturer.
    pub vendor_id: u16,
    /// The HID usage id.
    pub usage_id: u16,
    /// The HID usage page.
    pub usage_page: u16,
    /// The serial number, where the device has one and the platform gives it.
    pub serial_number: Option<String>,
}

/// The mathematical value of a [`DeviceInfo`].
pub struct DeviceInfoView {
    pub id: DeviceIdView,
    pub name: Seq<char>,
    pub product_id: u16,
    pub vendor_id: u16,
    pub usage_id: u16,
    pub usage_page: u16,
    pub serial_number: Option<Seq<char>>,
}

impl DeviceInfoView {
    /// The same device seen through another of its collections.
    pub open spec fn with_usage(self, usage_page: u16, usage_id: u16) -> DeviceInfoView {
        DeviceInfoView { usage_page, usage_id, ..self }
    }

    /// The key that tells the collections of one device apart.
    pub open spec fn usage_pair(self) -> (u16, u16) {
        (self.usage_page, self.usage_id)
    }
}

impl View for DeviceInfo {
    type V = DeviceInfoView;

    open spec fn view(&self) -> DeviceInfoView {
        DeviceInfoView {
            id: self.id@,
            name: self.name@,
            product_id: self.product_id,
            vendor_id: self.vendor_id,
            usage_id: self.usage_id,
            usage_page: self.usage_page,
            serial_number: match self.serial_number {
                Some(serial) => Some(serial@),
                None => None,
            },
        }
    }
}

impl Clone for DeviceInfo {
    fn clone(&self) -> (copy: Self)
        ensures
            copy@ == self@,
    {
        DeviceInfo {
            id: self.id.clone(),
            name: self.name.clone(),
            product_id: self.product_id,
            vendor_id: self.vendor_id,
            usage_id: self.usage_id,
            usage_page: self.usage_page,
            serial_number: match &self.serial_number {
                Some(serial) => Some(serial.clone()),
                None => None,
            },
        }
    }
}

impl DeviceInfo {
    /// Whether this is the collection `(usage_page, usage_id)` of the device
    /// `(vendor_id, product_id)`.
    pub fn matches(&self, usage_page: u16, usage_id: u16, vendor_id: u16, product_id: u16) -> (same:
        bool)
        ensures
            same == (self.usage_page == usage_page && self.usage_id == usage_id && self.vendor_id
                == vendor_id && self.product_id == product_id),
    {
        self.usage_page == usage_page && self.usage_id == usage_id && self.vendor_id == vendor_id
            && self.product_id == product_id
    }

    /// The same record for another collection of the device.
    pub fn with_usage(&self, usage_page: u16, usage_id: u16) -> (info: DeviceInfo)
        ensures
            info@ == self@.with_usage(usage_page, usage_id),
    {
        let mut info = self.clone();
        info.usage_page = usage_page;
        info.usage_id = usage_id;
        info
    }
}

/// The values of the records of a list.
pub open spec fn views_of(infos: Seq<DeviceInfo>) -> Seq<DeviceInfoView> {
    Seq::new(infos.len(), |i: int| infos[i]@)
}

/// No two records of a list have the same `(usage_page, usage_id)`.
pub open spec fn usage_is_a_key(infos: Seq<DeviceInfoView>) -> bool {
    forall|i: int, j: int|
        0 <= i < j < infos.len() ==> (#[trigger] infos[i]).usage_pair() != (
        #[trigger] infos[j]).usage_pair()
}

/// A device arrived or left.
#[derive(Debug, Hash, PartialEq, Eq)]
pub enum DeviceEvent {
    Connected(DeviceId),
    Disconnected(DeviceId),
}

/// The mathematical value of a [`DeviceEvent`].
pub enum DeviceEventView {
    Connected(DeviceIdView),
    Disconnected(DeviceIdView),
}

impl View for DeviceEvent {
    type V = DeviceEventView;

    open spec fn view(&self) -> DeviceEventView {
        match self {
            DeviceEvent::Connected(id) => DeviceEventView::Connected(id@),
            DeviceEvent::Disconnected(id) => DeviceEventView::Disconnected(id@),
        }
    }
}

impl Clone for DeviceEvent {
    fn clone(&self) -> (copy: Self)
        ensures
            copy@ == self@,
    {
        match self {
            DeviceEvent::Connected(id) => DeviceEvent::Connected(id.clone()),
            DeviceEvent::Disconnected(id) => DeviceEvent::Disconnected(id.clone()),
        }
    }
}

} // verus!
