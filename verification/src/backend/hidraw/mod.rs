//! The rules of the Linux backend: how the text files of sysfs and the
//! notifications of the kernel become device records and events.

pub mod descriptor;
pub mod uevent;

use vstd::prelude::*;
use vstd::string::StringSliceAdditionalSpecFns;
use vstd::utf8::{decode_utf8, encode_utf8, encode_utf8_decode_utf8, valid_utf8, valid_utf8_concat};

use crate::backend::hidraw::descriptor::{usages_of, HidrawReportDescriptor};
use crate::backend::hidraw::uevent::{Action, ActionView, UEvent, UEventView};
use crate::device_info::{
    views_of, DeviceEvent, DeviceEventView, DeviceId, DeviceIdView, DeviceInfo, DeviceInfoView,
};
use crate::error::{HidError, HidResult};
use crate::text::{
    append_range, find_byte, hex_u16, index_of, keyed_value, lemma_find_byte,
    lemma_str_bytes_valid, lemma_valid_utf8_between_ascii, parse_hex_u16, range_eq,
    range_to_string, str_eq, utf8_to_string, value_of_key,
};

verus! {

/// Line feed.
pub const LF: u8 = 0x0a;

/// Carriage return.
pub const CR: u8 = 0x0d;

/// Separator of the parts of `HID_ID`, `:`.
pub const COLON: u8 = 0x3a;

/// End of the text of the line `s[start..nl)`: a line feed at `nl` takes a
/// carriage return before it along.
pub open spec fn line_end(s: Seq<u8>, start: int, nl: int) -> int {
    if start < nl < s.len() && s[nl - 1] == CR {
        nl - 1
    } else {
        nl
    }
}

/// Among the lines of `s` from `pos` on, the range of the value of the first
/// line that reads `key=value`.
pub open spec fn property_range(s: Seq<u8>, pos: int, key: Seq<u8>) -> Option<(int, int)>
    decreases s.len() - pos,
{
    if pos < 0 || pos >= s.len() {
        None
    } else {
        let nl = find_byte(s, pos, s.len() as int, LF);
        match keyed_value(s, pos, line_end(s, pos, nl), key) {
            Some(range) => Some(range),
            None => if pos <= nl < s.len() {
                property_range(s, nl + 1, key)
            } else {
                None
            },
        }
    }
}

/// The value that the first line `key=value` of `s` gives to `key`.
pub open spec fn property_value(s: Seq<u8>, key: Seq<u8>) -> Option<Seq<u8>> {
    match property_range(s, 0, key) {
        Some((from, end)) => Some(s.subrange(from, end)),
        None => None,
    }
}

/// `text` holds the bytes `expected`, where there are any.
pub open spec fn holds_bytes(text: Option<String>, expected: Option<Seq<u8>>) -> bool {
    match (text, expected) {
        (Some(t), Some(bytes)) => encode_utf8(t@) == bytes,
        (None, None) => true,
        _ => false,
    }
}

/// The value of the first line of `properties` that reads `key=value`.
pub fn read_property(properties: &str, key: &str) -> (value: Option<String>)
    ensures
        holds_bytes(value, property_value(properties.spec_bytes(), key.spec_bytes())),
{
    let bytes = properties.as_bytes();
    let len = bytes.len();
    let mut pos: usize = 0;
    while pos < len
        invariant
            len == bytes@.len(),
            bytes@ == properties.spec_bytes(),
            property_range(bytes@, 0, key.spec_bytes()) == property_range(
                bytes@,
                pos as int,
                key.spec_bytes(),
            ),
        decreases len - pos,
    {
        let nl = index_of(bytes, pos, len, LF);
        proof {
            lemma_find_byte(bytes@, pos as int, len as int, LF);
        }
        let end = if pos < nl && nl < len && bytes[nl - 1] == CR {
            nl - 1
        } else {
            nl
        };
        if let Some((from, to)) = value_of_key(bytes, pos, end, key.as_bytes()) {
            proof {
                lemma_str_bytes_valid(properties);
                lemma_valid_utf8_between_ascii(bytes@, from as int, to as int);
            }
            return range_to_string(bytes, from, to);
        }
        if nl >= len {
            return None;
        }
        pos = nl + 1;
    }
    None
}

/// The numbers that the `:`-separated parts of `s` from `pos` on write in
/// base sixteen, in order; a part that writes none is passed over.
pub open spec fn hex_parts(s: Seq<u8>, pos: int) -> Seq<u16>
    decreases s.len() - pos,
{
    if pos < 0 || pos > s.len() {
        Seq::empty()
    } else {
        let end = find_byte(s, pos, s.len() as int, COLON);
        let rest = if pos <= end < s.len() {
            hex_parts(s, end + 1)
        } else {
            Seq::empty()
        };
        match parse_hex_u16(s.subrange(pos, end)) {
            Some(number) => seq![number] + rest,
            None => rest,
        }
    }
}

/// Bus type, vendor id and product id of a `HID_ID`: its first three parts
/// that are numbers.
pub open spec fn hid_vid_pid(s: Seq<u8>) -> Option<(u16, u16, u16)> {
    let parts = hex_parts(s, 0);
    if parts.len() >= 3 {
        Some((parts[0], parts[1], parts[2]))
    } else {
        None
    }
}

/// Bus type, vendor id and product id of the value of `HID_ID`, such as
/// `0003:0000046D:0000C52B`.
pub fn parse_hid_vid_pid(s: &str) -> (ids: Option<(u16, u16, u16)>)
    ensures
        ids == hid_vid_pid(s.spec_bytes()),
{
    let bytes = s.as_bytes();
    let len = bytes.len();
    let mut found: Vec<u16> = Vec::new();
    let mut pos: usize = 0;
    loop
        invariant_except_break
            pos <= len,
            found@.len() < 3,
            found@ + hex_parts(bytes@, pos as int) == hex_parts(bytes@, 0),
        invariant
            len == bytes@.len(),
            bytes@ == s.spec_bytes(),
        ensures
            found@.len() <= 3,
            found@.len() == 3 ==> hex_parts(bytes@, 0).len() >= 3,
            forall|i: int| 0 <= i < found@.len() ==> found@[i] == hex_parts(bytes@, 0)[i],
            found@.len() < 3 ==> found@ == hex_parts(bytes@, 0),
        decreases len - pos,
    {
        let end = index_of(bytes, pos, len, COLON);
        let ghost before = found@;
        let ghost rest = if end < len {
            hex_parts(bytes@, end + 1)
        } else {
            Seq::empty()
        };
        if let Some(number) = hex_u16(bytes, pos, end) {
            found.push(number);
            assert(found@ + rest =~= before + (seq![number] + rest));
        }
        if found.len() == 3 {
            assert(forall|i: int| 0 <= i < 3 ==> found@[i] == (found@ + rest)[i]);
            break ;
        }
        if end >= len {
            assert(found@ + rest =~= found@);
            break ;
        }
        pos = end + 1;
    }
    if found.len() == 3 {
        Some((found[0], found[1], found[2]))
    } else {
        None
    }
}

/// Path separator, `/`.
pub const SLASH: u8 = 0x2f;

/// The name of the directory itself, `.`.
pub const DOT: u8 = 0x2e;

/// The device node that the value of `DEVNAME` names: a relative name lies
/// below `/dev/`; an absolute one must name a file there, and stands as it is.
pub open spec fn dev_node(name: Seq<u8>) -> Option<Seq<u8>> {
    let dev = "/dev/".spec_bytes();
    if name.len() > 0 && name[0] == SLASH {
        if name.len() > dev.len() && name.subrange(0, dev.len() as int) == dev {
            Some(name)
        } else {
            None
        }
    } else {
        Some(dev + name)
    }
}

/// The path of the device node that `dev_name` names.
pub fn mange_dev_name(dev_name: &str) -> (r: HidResult<String>)
    ensures
        match dev_node(dev_name.spec_bytes()) {
            Some(path) => r matches Ok(node) && encode_utf8(node@) == path,
            None => r matches Err(HidError::Message(reason)) && reason@
                == "Absolute device paths must start with /dev/"@,
        },
{
    let name = dev_name.as_bytes();
    let dev = "/dev/".as_bytes();
    if name.len() > 0 && name[0] == SLASH {
        if name.len() > dev.len() && range_eq(name, 0, dev.len(), dev) {
            Ok(dev_name.to_owned())
        } else {
            Err(HidError::message("Absolute device paths must start with /dev/"))
        }
    } else {
        let mut path: Vec<u8> = Vec::new();
        append_range(&mut path, dev, 0, dev.len());
        append_range(&mut path, name, 0, name.len());
        proof {
            lemma_str_bytes_valid("/dev/");
            lemma_str_bytes_valid(dev_name);
            assert(dev@.subrange(0, dev@.len() as int) =~= dev@);
            assert(name@.subrange(0, name@.len() as int) =~= name@);
            assert(path@ =~= dev@ + name@);
            valid_utf8_concat(dev@, name@);
        }
        Ok(utf8_to_string(path.as_slice()).unwrap())
    }
}

/// Whether the part `s[start..end)` of a path is one of its components.
/// Empty parts are none, and `.` is one only where a relative path starts
/// with it.
pub open spec fn is_component(s: Seq<u8>, start: int, end: int) -> bool {
    start < end && !(end - start == 1 && s[start] == DOT && start > 0)
}

/// What the components of `s` from `pos` on add to a path: each component,
/// with a `/` before every one but the first.
pub open spec fn joined_components(s: Seq<u8>, pos: int, first: bool) -> Seq<u8>
    decreases s.len() - pos,
{
    if pos < 0 || pos >= s.len() {
        Seq::empty()
    } else {
        let end = find_byte(s, pos, s.len() as int, SLASH);
        let kept = is_component(s, pos, end);
        let rest = if pos <= end < s.len() {
            joined_components(s, end + 1, first && !kept)
        } else {
            Seq::empty()
        };
        if !kept {
            rest
        } else if first {
            s.subrange(pos, end) + rest
        } else {
            seq![SLASH] + s.subrange(pos, end) + rest
        }
    }
}

/// The path below `/sys/` that the components of `dev_path` lead to.
pub open spec fn rebase_onto_sys(dev_path: Seq<u8>) -> Seq<u8> {
    "/sys/".spec_bytes() + joined_components(dev_path, 0, true)
}

proof fn lemma_slash_is_text()
    ensures
        valid_utf8(seq![SLASH]),
{
    let s = seq![SLASH];
    assert(s.subrange(1, s.len() as int) =~= Seq::<u8>::empty());
    reveal_with_fuel(valid_utf8, 2);
}

/// The path of a device below `/sys/`, from the `DEVPATH` of its event.
pub fn sys_path(dev_path: &str) -> (path: String)
    ensures
        encode_utf8(path@) == rebase_onto_sys(dev_path.spec_bytes()),
{
    let bytes = dev_path.as_bytes();
    let len = bytes.len();
    let sys = "/sys/".as_bytes();
    let mut out: Vec<u8> = Vec::new();
    append_range(&mut out, sys, 0, sys.len());
    proof {
        lemma_str_bytes_valid("/sys/");
        lemma_str_bytes_valid(dev_path);
        assert(sys@.subrange(0, sys@.len() as int) =~= sys@);
        assert(out@ =~= sys@);
    }
    let mut first = true;
    let mut pos: usize = 0;
    while pos < len
        invariant
            pos <= len + 1,
            len == bytes@.len(),
            bytes@ == dev_path.spec_bytes(),
            valid_utf8(bytes@),
            valid_utf8(out@),
            pos == 0 || pos == len || bytes@[pos - 1] == SLASH,
            out@ + joined_components(bytes@, pos as int, first) == rebase_onto_sys(bytes@),
        decreases len + 1 - pos,
    {
        let end = index_of(bytes, pos, len, SLASH);
        proof {
            lemma_find_byte(bytes@, pos as int, len as int, SLASH);
        }
        let ghost before = out@;
        let ghost rest = if end < len {
            joined_components(bytes@, end + 1, first && !is_component(bytes@, pos as int, end as int))
        } else {
            Seq::empty()
        };
        if pos < end && !(end - pos == 1 && bytes[pos] == DOT && pos > 0) {
            let ghost part = bytes@.subrange(pos as int, end as int);
            proof {
                lemma_valid_utf8_between_ascii(bytes@, pos as int, end as int);
            }
            if !first {
                out.push(SLASH);
                proof {
                    lemma_slash_is_text();
                    assert(out@ =~= before + seq![SLASH]);
                    valid_utf8_concat(before, seq![SLASH]);
                }
            }
            let ghost middle = out@;
            append_range(&mut out, bytes, pos, end);
            proof {
                valid_utf8_concat(middle, part);
                if first {
                    assert(out@ + rest =~= before + (part + rest));
                } else {
                    assert(out@ + rest =~= before + (seq![SLASH] + part + rest));
                }
            }
            first = false;
        }
        if end >= len {
            assert(out@ + Seq::<u8>::empty() =~= out@);
            pos = len;
            assert(joined_components(bytes@, pos as int, first) =~= Seq::<u8>::empty());
        } else {
            pos = end + 1;
        }
    }
    assert(out@ + Seq::<u8>::empty() =~= out@);
    utf8_to_string(out.as_slice()).unwrap()
}

/// The event that a notification stands for: only devices of the subsystem
/// `hidraw` count, and of the actions only `add` and `remove`.
pub open spec fn device_event_of(event: UEventView) -> Option<DeviceEventView> {
    let id = DeviceIdView::DevPath(decode_utf8(rebase_onto_sys(encode_utf8(event.dev_path))));
    if event.subsystem != "hidraw"@ {
        None
    } else {
        match event.action {
            ActionView::Add => Some(DeviceEventView::Connected(id)),
            ActionView::Remove => Some(DeviceEventView::Disconnected(id)),
            ActionView::Other(_) => None,
        }
    }
}

/// `event` is the event that `expected` describes, where there is one.
pub open spec fn is_event(event: Option<DeviceEvent>, expected: Option<DeviceEventView>) -> bool {
    match (event, expected) {
        (Some(e), Some(view)) => e@ == view,
        (None, None) => true,
        _ => false,
    }
}

/// Turns a parsed notification into the event that subscribers see.
pub fn device_event(event: &UEvent) -> (r: Option<DeviceEvent>)
    ensures
        is_event(r, device_event_of(event@)),
{
    if !str_eq(event.subsystem.as_str(), "hidraw") {
        return None;
    }
    match &event.action {
        Action::Add => {
            let path = sys_path(event.dev_path.as_str());
            proof {
                encode_utf8_decode_utf8(path@);
            }
            Some(DeviceEvent::Connected(DeviceId::DevPath(path)))
        },
        Action::Remove => {
            let path = sys_path(event.dev_path.as_str());
            proof {
                encode_utf8_decode_utf8(path@);
            }
            Some(DeviceEvent::Disconnected(DeviceId::DevPath(path)))
        },
        Action::Other(_) => None,
    }
}

/// The event that a datagram of the netlink socket stands for: a message
/// that does not parse stands for none.
pub open spec fn watch_event_of(datagram: Seq<u8>) -> Option<DeviceEventView> {
    match crate::backend::hidraw::uevent::parse_message(datagram) {
        Ok(event) => device_event_of(event),
        Err(_) => None,
    }
}

/// Multicast group of the notifications that the kernel sends.
pub const MONITOR_GROUP_KERNEL: u32 = 1;

/// Multicast group of the notifications that the udev daemon passes on.
pub const MONITOR_GROUP_UDEV: u32 = 2;

/// The group to listen on: that of the udev daemon where it runs, else that
/// of the kernel.
pub fn monitor_group(udev_is_running: bool) -> (group: u32)
    ensures
        group == if udev_is_running {
            MONITOR_GROUP_UDEV
        } else {
            MONITOR_GROUP_KERNEL
        },
{
    if udev_is_running {
        MONITOR_GROUP_UDEV
    } else {
        MONITOR_GROUP_KERNEL
    }
}

/// The text that bytes of a property encode.
pub open spec fn text_of(bytes: Seq<u8>) -> Seq<char> {
    decode_utf8(bytes)
}

/// The serial number that the value of `HID_UNIQ` gives: none where the
/// property is missing or empty.
pub open spec fn serial_of(value: Option<Seq<u8>>) -> Option<Seq<char>> {
    match value {
        Some(bytes) => if text_of(bytes).len() > 0 {
            Some(text_of(bytes))
        } else {
            None
        },
        None => None,
    }
}

/// The record of the device at `path` that the properties of its `uevent`
/// file describe, before its collections are known.
pub open spec fn device_record(path: Seq<char>, properties: Seq<u8>) -> Result<
    DeviceInfoView,
    Seq<char>,
> {
    let ids = match property_value(properties, "HID_ID".spec_bytes()) {
        Some(value) => hid_vid_pid(value),
        None => None,
    };
    match ids {
        None => Err("Can't find hid ids"@),
        Some((_, vendor_id, product_id)) => match property_value(
            properties,
            "HID_NAME".spec_bytes(),
        ) {
            None => Err("Can't find hid name"@),
            Some(name) => Ok(
                DeviceInfoView {
                    id: DeviceIdView::DevPath(path),
                    name: text_of(name),
                    product_id,
                    vendor_id,
                    usage_id: 0,
                    usage_page: 0,
                    serial_number: serial_of(
                        property_value(properties, "HID_UNIQ".spec_bytes()),
                    ),
                },
            ),
        },
    }
}

/// One record for each pair of `pairs`; where there is no pair, the record
/// `base` itself.
pub open spec fn expanded(base: DeviceInfoView, pairs: Seq<(u16, u16)>) -> Seq<DeviceInfoView> {
    if pairs.len() == 0 {
        seq![base]
    } else {
        Seq::new(pairs.len(), |i: int| base.with_usage(pairs[i].0, pairs[i].1))
    }
}

/// The pairs of a descriptor; none where the descriptor could not be read.
pub open spec fn pairs_of(descriptor: Option<HidrawReportDescriptor>) -> Seq<(u16, u16)> {
    match descriptor {
        Some(d) => usages_of(d@),
        None => Seq::empty(),
    }
}

/// `result` is the outcome that `expected` describes.
pub open spec fn lists_as(
    result: HidResult<Vec<DeviceInfo>>,
    expected: Result<Seq<DeviceInfoView>, Seq<char>>,
) -> bool {
    match (result, expected) {
        (Ok(infos), Ok(views)) => views_of(infos@) == views,
        (Err(HidError::Message(reason)), Err(text)) => reason@ == text,
        _ => false,
    }
}

/// One record for each pair of `pairs`, or `base` itself where there is none.
pub fn expand(base: DeviceInfo, pairs: &Vec<(u16, u16)>) -> (infos: Vec<DeviceInfo>)
    ensures
        views_of(infos@) == expanded(base@, pairs@),
{
    let mut infos: Vec<DeviceInfo> = Vec::new();
    if pairs.len() == 0 {
        infos.push(base);
        assert(views_of(infos@) =~= expanded(base@, pairs@));
        return infos;
    }
    let mut i: usize = 0;
    while i < pairs.len()
        invariant
            i <= pairs@.len(),
            infos@.len() == i,
            forall|k: int| 0 <= k < i ==> (#[trigger] infos@[k])@ == base@.with_usage(pairs@[k].0, pairs@[k].1),
        decreases pairs@.len() - i,
    {
        let (usage_page, usage_id) = pairs[i];
        infos.push(base.with_usage(usage_page, usage_id));
        i = i + 1;
    }
    assert(views_of(infos@) =~= expanded(base@, pairs@));
    infos
}

/// Why a file of a device could not be read or opened.
#[derive(Debug, PartialEq, Eq)]
pub struct ReadFailure {
    /// The file is not there.
    pub not_found: bool,
    /// The words of the system about the failure.
    pub description: String,
}

/// The error for a file of a device that could not be opened or read: a
/// file that is not there belongs to a device that is not connected, and
/// any other failure is kept as it is.
pub open spec fn open_error_of(failure: ReadFailure) -> HidError {
    if failure.not_found {
        HidError::NotConnected
    } else {
        HidError::Other(failure.description)
    }
}

/// The error for a file of a device that could not be opened or read.
pub fn open_error(failure: ReadFailure) -> (e: HidError)
    ensures
        e == open_error_of(failure),
{
    if failure.not_found {
        HidError::NotConnected
    } else {
        HidError::Other(failure.description)
    }
}

/// The records that the text of `device/uevent` and the report descriptor
/// of the device at `path` give.
pub open spec fn device_infos_of(
    path: Seq<char>,
    properties: Seq<u8>,
    descriptor: Option<HidrawReportDescriptor>,
) -> Result<Seq<DeviceInfoView>, Seq<char>> {
    match device_record(path, properties) {
        Ok(base) => Ok(expanded(base, pairs_of(descriptor))),
        Err(reason) => Err(reason),
    }
}

/// The records of the device at `path`: one for each top-level collection of
/// its report descriptor, and a single one with the usage `(0, 0)` where the
/// descriptor could not be read or names no collection.
///
/// `properties` is the outcome of reading the file `device/uevent` of the
/// device: its text, or the failure. A device whose file is not there is
/// not connected.
pub fn get_device_info_raw(
    path: &str,
    properties: Result<&str, ReadFailure>,
    descriptor: Option<HidrawReportDescriptor>,
) -> (r: HidResult<Vec<DeviceInfo>>)
    ensures
        match properties {
            Ok(text) => lists_as(r, device_infos_of(path@, text.spec_bytes(), descriptor)),
            Err(failure) => r == Err::<Vec<DeviceInfo>, HidError>(open_error_of(failure)),
        },
{
    let properties = match properties {
        Ok(text) => text,
        Err(failure) => {
            return Err(open_error(failure));
        },
    };
    let ids = match read_property(properties, "HID_ID") {
        Some(value) => {
            parse_hid_vid_pid(value.as_str())
        },
        None => None,
    };
    let (vendor_id, product_id) = match ids {
        Some((_, vendor_id, product_id)) => (vendor_id, product_id),
        None => {
            return Err(HidError::message("Can't find hid ids"));
        },
    };
    let name = match read_property(properties, "HID_NAME") {
        Some(name) => name,
        None => {
            return Err(HidError::message("Can't find hid name"));
        },
    };
    let serial_number = match read_property(properties, "HID_UNIQ") {
        Some(serial) => {
            proof {
                encode_utf8_decode_utf8(serial@);
            }
            if serial.as_str().is_empty() {
                None
            } else {
                Some(serial)
            }
        },
        None => None,
    };
    proof {
        encode_utf8_decode_utf8(name@);
    }
    let base = DeviceInfo {
        id: DeviceId::DevPath(path.to_owned()),
        name,
        product_id,
        vendor_id,
        usage_id: 0,
        usage_page: 0,
        serial_number,
    };
    let pairs = match descriptor {
        Some(descriptor) => descriptor.usages(),
        None => Vec::new(),
    };
    Ok(expand(base, &pairs))
}

/// The error number of the kernel for a failed transfer, which a device
/// that was unplugged answers with.
pub const EIO: i32 = 5;

/// The error for a read or a write that failed with the error number
/// `raw_os_error`: a failed transfer tells that the device is disconnected.
pub fn transfer_error(raw_os_error: Option<i32>, description: &str) -> (e: HidError)
    ensures
        raw_os_error == Some(EIO) ==> e == HidError::Disconnected,
        raw_os_error != Some(EIO) ==> (e matches HidError::Other(text) && text@ == description@),
{
    match raw_os_error {
        Some(code) if code == EIO => HidError::Disconnected,
        _ => HidError::from_backend(description),
    }
}

/// The backend over the `hidraw` devices of Linux.
#[derive(Debug)]
pub struct HidRawBackend;

impl HidRawBackend {
    /// One step of the watcher: the event to hand to the subscribers for a
    /// datagram that was received, or `None` where the datagram is passed
    /// over.
    pub fn watch(&self, datagram: &[u8]) -> (r: Option<DeviceEvent>)
        ensures
            is_event(r, watch_event_of(datagram@)),
    {
        match UEvent::parse(datagram) {
            Ok(event) => device_event(&event),
            Err(_) => None,
        }
    }

    /// The records of the device `id`, from the outcome of reading its file
    /// `device/uevent` and from its report descriptor, where that could be
    /// read. A device whose file is not there is not connected, and an
    /// identifier of another platform names no device here.
    pub fn query_info(
        &self,
        id: &DeviceId,
        properties: Result<&str, ReadFailure>,
        descriptor: Option<HidrawReportDescriptor>,
    ) -> (r: HidResult<Vec<DeviceInfo>>)
        ensures
            match (id, properties) {
                (DeviceId::DevPath(path), Ok(text)) => lists_as(
                    r,
                    device_infos_of(path@, text.spec_bytes(), descriptor),
                ),
                (DeviceId::DevPath(_), Err(failure)) => r == Err::<Vec<DeviceInfo>, HidError>(
                    open_error_of(failure),
                ),
                _ => r == Err::<Vec<DeviceInfo>, HidError>(HidError::NotConnected),
            },
    {
        match id {
            DeviceId::DevPath(path) => get_device_info_raw(path.as_str(), properties, descriptor),
            _ => Err(HidError::NotConnected),
        }
    }

    /// The path of the device node to open, from the outcome of reading the
    /// file `uevent` of the device. A device whose file is not there is not
    /// connected.
    pub fn open(&self, properties: Result<&str, ReadFailure>) -> (r: HidResult<String>)
        ensures
            match properties {
                Err(failure) => r == Err::<String, HidError>(open_error_of(failure)),
                Ok(text) => match property_value(text.spec_bytes(), "DEVNAME".spec_bytes()) {
                    None => r is Err && r->Err_0.says("Can't find dev name".spec_bytes()),
                    Some(name) => match dev_node(name) {
                        Some(path) => r is Ok && encode_utf8(r->Ok_0@) == path,
                        None => r is Err && r->Err_0.says(
                            "Absolute device paths must start with /dev/".spec_bytes(),
                        ),
                    },
                },
            },
    {
        let text = match properties {
            Ok(text) => text,
            Err(failure) => {
                return Err(open_error(failure));
            },
        };
        match read_property(text, "DEVNAME") {
            Some(name) => mange_dev_name(name.as_str()),
            None => Err(HidError::message("Can't find dev name")),
        }
    }
}

/// A device that was listed is found again by its identifier: as long as
/// its files read the same, the query for the identifier of any listed
/// record gives the same list, which is not empty and whose records all
/// have the identifier, the vendor id and the product id of that record.
pub proof fn lemma_listed_device_is_found_again(
    path: Seq<char>,
    properties: Seq<u8>,
    pairs: Seq<(u16, u16)>,
    i: int,
)
    requires
        device_record(path, properties) is Ok,
        0 <= i < expanded(device_record(path, properties)->Ok_0, pairs).len(),
    ensures
        ({
            let listed = expanded(device_record(path, properties)->Ok_0, pairs);
            &&& listed[i].id == DeviceIdView::DevPath(path)
            &&& listed.len() >= 1
            &&& forall|j: int|
                0 <= j < listed.len() ==> (#[trigger] listed[j]).id == listed[i].id
                    && listed[j].vendor_id == listed[i].vendor_id && listed[j].product_id
                    == listed[i].product_id
        }),
{
}

/// Every record of an expansion is the base record but for its usage, and
/// there is at least one.
pub proof fn lemma_expanded_keeps_identity(base: DeviceInfoView, pairs: Seq<(u16, u16)>)
    ensures
        expanded(base, pairs).len() >= 1,
        forall|i: int|
            0 <= i < expanded(base, pairs).len() ==> {
                let info = #[trigger] expanded(base, pairs)[i];
                &&& info.id == base.id
                &&& info.vendor_id == base.vendor_id
                &&& info.product_id == base.product_id
                &&& info.name == base.name
                &&& info.serial_number == base.serial_number
            },
{
}

/// Where no pair of a descriptor occurs twice, the records of the device
/// differ in their usage: `(usage_page, usage_id)` is a key among them.
pub proof fn lemma_usage_is_a_key(base: DeviceInfoView, pairs: Seq<(u16, u16)>)
    requires
        pairs.no_duplicates(),
    ensures
        forall|i: int, j: int|
            0 <= i < j < expanded(base, pairs).len() ==> (#[trigger] expanded(base, pairs)[i]).usage_pair()
                != (#[trigger] expanded(base, pairs)[j]).usage_pair(),
{
    assert forall|i: int, j: int| 0 <= i < j < expanded(base, pairs).len() implies (#[trigger] expanded(
        base,
        pairs,
    )[i]).usage_pair() != (#[trigger] expanded(base, pairs)[j]).usage_pair() by {
        assert(pairs[i] != pairs[j]);
    }
}

} // verus!
