use std::path::{Component, Path, PathBuf};

use async_hid::backend::hidraw::descriptor::HidrawReportDescriptor;
use async_hid::backend::hidraw::uevent::{Action, UEvent};
use async_hid::backend::hidraw::{
    device_event, expand, get_device_info_raw, mange_dev_name, monitor_group, open_error,
    parse_hid_vid_pid, read_property, sys_path, transfer_error, HidRawBackend, ReadFailure,
};
use async_hid::device_info::{DeviceEvent, DeviceId, DeviceInfo};
use async_hid::error::HidError;

const PROPERTIES: &str = "DRIVER=hid-generic\nHID_ID=0003:0000046D:0000C52B\nHID_NAME=Logitech USB Receiver\nHID_PHYS=usb-0000:00:14.0-1/input2\nHID_UNIQ=\nMODALIAS=hid:b0003g0001v0000046Dp0000C52B\n";

#[test]
fn read_property_finds_the_value() {
    assert_eq!(read_property(PROPERTIES, "HID_NAME"), Some("Logitech USB Receiver".to_string()));
    assert_eq!(read_property(PROPERTIES, "DRIVER"), Some("hid-generic".to_string()));
    assert_eq!(read_property(PROPERTIES, "HID_UNIQ"), Some(String::new()));
    assert_eq!(read_property(PROPERTIES, "HID"), None);
    assert_eq!(read_property(PROPERTIES, "MODALIAS"), Some("hid:b0003g0001v0000046Dp0000C52B".to_string()));
    assert_eq!(read_property("", "A"), None);
}

#[test]
fn read_property_takes_the_first_line_of_a_key() {
    assert_eq!(read_property("A=1\nA=2\n", "A"), Some("1".to_string()));
    assert_eq!(read_property("B=0\nA=x=y\n", "A"), Some("x=y".to_string()));
    assert_eq!(read_property("=v", ""), Some("v".to_string()));
    assert_eq!(read_property("AA=1\nA=2", "A"), Some("2".to_string()));
}

#[test]
fn read_property_reads_lines_as_std_does() {
    let texts = [
        "A=1\r\nB=2\r\n",
        "A=1\rB=2\r",
        "A=1\r",
        "A=1\r\n",
        "A=\r\nB=\n",
        "\r\nA=1",
        "A=1\n\nB=2",
        "A\nB=\u{e9}t\u{e9}\r\nC=\r\r\n",
        "B=2",
    ];
    for text in texts {
        for key in ["A", "B", "C", ""] {
            let expected = text
                .lines()
                .filter_map(|l| l.split_once('='))
                .find_map(|(k, v)| (k == key).then_some(v))
                .map(str::to_string);
            assert_eq!(read_property(text, key), expected, "{:?} {:?}", text, key);
        }
    }
}

#[test]
fn parse_hid_vid_pid_reads_three_numbers() {
    assert_eq!(parse_hid_vid_pid("0003:0000046D:0000C52B"), Some((3, 0x046D, 0xC52B)));
    assert_eq!(parse_hid_vid_pid("0005:0000054c:000009cc"), Some((5, 0x054C, 0x09CC)));
    assert_eq!(parse_hid_vid_pid("1:2:3:4"), Some((1, 2, 3)));
    assert_eq!(parse_hid_vid_pid("ffff:FFFF:+1"), Some((0xFFFF, 0xFFFF, 1)));
}

#[test]
fn parse_hid_vid_pid_passes_over_what_is_no_number() {
    assert_eq!(parse_hid_vid_pid("x:1::2:10000:3"), Some((1, 2, 3)));
    assert_eq!(parse_hid_vid_pid("1:2"), None);
    assert_eq!(parse_hid_vid_pid(""), None);
    assert_eq!(parse_hid_vid_pid("1:2:-3"), None);
    assert_eq!(parse_hid_vid_pid("1:2:+"), None);
    assert_eq!(parse_hid_vid_pid("1:2:0x3"), None);
    assert_eq!(parse_hid_vid_pid("1:2: 3"), None);
}

#[test]
fn parse_hid_vid_pid_agrees_with_std() {
    let parts = ["", "0", "+", "-", "+0", "-0", "++1", "1f", "1F", "g", "ffff", "10000", "0ffff", "00010000", "+ffff", "\u{e9}", "12 "];
    for a in parts {
        for b in parts {
            for c in parts {
                let text = format!("{}:{}:{}", a, b, c);
                let mut elems = text.split(':').filter_map(|s| u16::from_str_radix(s, 16).ok());
                let expected = (|| Some((elems.next()?, elems.next()?, elems.next()?)))();
                assert_eq!(parse_hid_vid_pid(&text), expected, "{:?}", text);
            }
        }
    }
}

#[test]
fn mange_dev_name_puts_relative_names_below_dev() {
    assert_eq!(mange_dev_name("hidraw0"), Ok("/dev/hidraw0".to_string()));
    assert_eq!(mange_dev_name("usb/hiddev0"), Ok("/dev/usb/hiddev0".to_string()));
    assert_eq!(mange_dev_name(""), Ok("/dev/".to_string()));
    assert_eq!(mange_dev_name("/dev/hidraw3"), Ok("/dev/hidraw3".to_string()));
}

#[test]
fn mange_dev_name_rejects_other_absolute_paths() {
    let error = HidError::Message("Absolute device paths must start with /dev/".to_string());
    assert_eq!(mange_dev_name("/tmp/hidraw0"), Err(error.clone()));
    assert_eq!(mange_dev_name("/dev/"), Err(error.clone()));
    assert_eq!(mange_dev_name("/dev"), Err(error.clone()));
    assert_eq!(mange_dev_name("/"), Err(error));
}

#[test]
fn mange_dev_name_agrees_with_std() {
    for name in ["hidraw0", "", "a/b", "./x", "/dev/hidraw0", "/dev/x/y", "d\u{e9}v"] {
        let path = Path::new(name);
        let expected = if path.is_absolute() { path.to_path_buf() } else { Path::new("/dev/").join(path) };
        assert_eq!(mange_dev_name(name).map(PathBuf::from), Ok(expected), "{:?}", name);
    }
}

#[test]
fn sys_path_rebases_onto_sys() {
    assert_eq!(sys_path("/devices/foo"), "/sys/devices/foo");
    assert_eq!(
        sys_path("/devices/pci0000:00/0000:00:14.0/usb1/1-1/1-1:1.2/0003:046D:C52B.0004/hidraw/hidraw3"),
        "/sys/devices/pci0000:00/0000:00:14.0/usb1/1-1/1-1:1.2/0003:046D:C52B.0004/hidraw/hidraw3"
    );
    assert_eq!(sys_path(""), "/sys/");
    assert_eq!(sys_path("/"), "/sys/");
    assert_eq!(sys_path("devices//foo/"), "/sys/devices/foo");
}

#[test]
fn sys_path_agrees_with_std() {
    let paths = [
        "", "/", "//", "a", "/a", "a/", "/a/b", "a//b", "/a/./b", "./a", "././a", "/./a", ".", "./", "/.",
        "..", "/../a", "a/../b", ".a", "a.", "/a/b/.", "/d\u{e9}v/\u{1F600}/x", "...", "/.../.",
    ];
    for path in paths {
        let expected = Path::new(path)
            .components()
            .filter(|c| *c != Component::RootDir)
            .fold(PathBuf::from("/sys/"), |a, b| a.join(b));
        assert_eq!(PathBuf::from(sys_path(path)), expected, "{:?}", path);
        assert_eq!(sys_path(path).as_str(), expected.to_str().unwrap(), "{:?}", path);
    }
}

fn event(action: Action, subsystem: &str) -> UEvent {
    UEvent { action, subsystem: subsystem.to_string(), dev_path: "/devices/foo".to_string() }
}

#[test]
fn device_event_maps_add_and_remove() {
    let id = DeviceId::DevPath("/sys/devices/foo".to_string());
    assert_eq!(device_event(&event(Action::Add, "hidraw")), Some(DeviceEvent::Connected(id.clone())));
    assert_eq!(device_event(&event(Action::Remove, "hidraw")), Some(DeviceEvent::Disconnected(id)));
}

#[test]
fn device_event_passes_over_the_rest() {
    assert_eq!(device_event(&event(Action::Other("bind".to_string()), "hidraw")), None);
    assert_eq!(device_event(&event(Action::Add, "usb")), None);
    assert_eq!(device_event(&event(Action::Add, "hidraw ")), None);
    assert_eq!(device_event(&event(Action::Remove, "")), None);
}

#[test]
fn watch_turns_datagrams_into_events() {
    let backend = HidRawBackend;
    let add = b"add@/devices/foo\0ACTION=add\0SUBSYSTEM=hidraw\0DEVPATH=/devices/foo\0";
    assert_eq!(
        backend.watch(add),
        Some(DeviceEvent::Connected(DeviceId::DevPath("/sys/devices/foo".to_string())))
    );
    let remove = b"remove@/devices/foo\0ACTION=remove\0SUBSYSTEM=hidraw\0DEVPATH=/devices/foo\0";
    assert_eq!(
        backend.watch(remove),
        Some(DeviceEvent::Disconnected(DeviceId::DevPath("/sys/devices/foo".to_string())))
    );
    let usb = b"add@/devices/foo\0ACTION=add\0SUBSYSTEM=usb\0DEVPATH=/devices/foo\0";
    assert_eq!(backend.watch(usb), None);
    assert_eq!(backend.watch(b"garbage"), None);
}

#[test]
fn monitor_group_prefers_udev() {
    assert_eq!(monitor_group(true), 2);
    assert_eq!(monitor_group(false), 1);
}

fn gone() -> ReadFailure {
    ReadFailure { not_found: true, description: "No such file or directory".to_string() }
}

fn denied() -> ReadFailure {
    ReadFailure { not_found: false, description: "Permission denied".to_string() }
}

#[test]
fn an_unplugged_device_is_not_connected() {
    let descriptor = || HidrawReportDescriptor::from_slice(&[0x05, 0x01, 0x09, 0x06, 0xA1, 0x01, 0xC0]).ok();
    assert_eq!(get_device_info_raw("/sys/x", Err(gone()), None), Err(HidError::NotConnected));
    assert_eq!(get_device_info_raw("/sys/x", Err(gone()), descriptor()), Err(HidError::NotConnected));
    assert_eq!(
        get_device_info_raw("/sys/x", Err(denied()), descriptor()),
        Err(HidError::Other("Permission denied".to_string()))
    );
    let backend = HidRawBackend;
    let id = DeviceId::DevPath("/sys/x".to_string());
    assert_eq!(backend.query_info(&id, Err(gone()), None), Err(HidError::NotConnected));
    assert_eq!(backend.query_info(&id, Err(denied()), None), Err(HidError::Other("Permission denied".to_string())));
    assert_eq!(backend.query_info(&DeviceId::UncPath(vec![]), Err(denied()), None), Err(HidError::NotConnected));
}

fn base_info() -> DeviceInfo {
    DeviceInfo {
        id: DeviceId::DevPath("/sys/class/hidraw/hidraw0".to_string()),
        name: "Logitech USB Receiver".to_string(),
        product_id: 0xC52B,
        vendor_id: 0x046D,
        usage_id: 0,
        usage_page: 0,
        serial_number: None,
    }
}

#[test]
fn get_device_info_raw_expands_by_collection() {
    let descriptor = HidrawReportDescriptor::from_slice(&[
        0x05, 0x01, 0x09, 0x06, 0xA1, 0x01, 0xC0, 0x05, 0x0C, 0x09, 0x01, 0xA1, 0x01, 0xC0,
    ])
    .unwrap();
    let infos = get_device_info_raw("/sys/class/hidraw/hidraw0", Ok(PROPERTIES), Some(descriptor)).unwrap();
    assert_eq!(
        infos,
        vec![
            DeviceInfo { usage_page: 1, usage_id: 6, ..base_info() },
            DeviceInfo { usage_page: 0x0C, usage_id: 1, ..base_info() }
        ]
    );
    assert!(infos.iter().all(|info| info.matches(info.usage_page, info.usage_id, 0x046D, 0xC52B)));
}

#[test]
fn get_device_info_raw_falls_back_to_one_record() {
    let infos = get_device_info_raw("/sys/class/hidraw/hidraw0", Ok(PROPERTIES), None).unwrap();
    assert_eq!(infos, vec![base_info()]);
    let empty = HidrawReportDescriptor::from_slice(&[]).unwrap();
    let infos = get_device_info_raw("/sys/class/hidraw/hidraw0", Ok(PROPERTIES), Some(empty)).unwrap();
    assert_eq!(infos, vec![base_info()]);
}

#[test]
fn get_device_info_raw_reads_the_serial_number() {
    let properties = "HID_ID=0005:0000054C:000009CC\nHID_NAME=Wireless Controller\nHID_UNIQ=a0:ab:51:aa:bb:cc\n";
    let infos = get_device_info_raw("/sys/x", Ok(properties), None).unwrap();
    assert_eq!(infos.len(), 1);
    assert_eq!(infos[0].serial_number, Some("a0:ab:51:aa:bb:cc".to_string()));
    assert_eq!(infos[0].vendor_id, 0x054C);
    assert_eq!(infos[0].product_id, 0x09CC);
    assert_eq!(infos[0].name, "Wireless Controller");
}

#[test]
fn get_device_info_raw_names_what_is_missing() {
    assert_eq!(
        get_device_info_raw("/sys/x", Ok("HID_NAME=a\n"), None),
        Err(HidError::Message("Can't find hid ids".to_string()))
    );
    assert_eq!(
        get_device_info_raw("/sys/x", Ok("HID_ID=0003:046D\nHID_NAME=a\n"), None),
        Err(HidError::Message("Can't find hid ids".to_string()))
    );
    assert_eq!(
        get_device_info_raw("/sys/x", Ok("HID_ID=0003:046D:C52B\n"), None),
        Err(HidError::Message("Can't find hid name".to_string()))
    );
}

#[test]
fn expand_keeps_the_order_of_the_pairs() {
    let infos = expand(base_info(), &vec![(1, 2), (3, 4), (1, 2)]);
    let pairs: Vec<(u16, u16)> = infos.iter().map(|i| (i.usage_page, i.usage_id)).collect();
    assert_eq!(pairs, vec![(1, 2), (3, 4), (1, 2)]);
    assert_eq!(expand(base_info(), &vec![]), vec![base_info()]);
}

#[test]
fn query_info_wants_a_path() {
    let backend = HidRawBackend;
    let id = DeviceId::DevPath("/sys/class/hidraw/hidraw0".to_string());
    assert_eq!(backend.query_info(&id, Ok(PROPERTIES), None), Ok(vec![base_info()]));
    assert_eq!(
        backend.query_info(&DeviceId::RegistryEntryId(7), Ok(PROPERTIES), None),
        Err(HidError::NotConnected)
    );
}

#[test]
fn open_finds_the_device_node() {
    let backend = HidRawBackend;
    assert_eq!(backend.open(Ok("MAJOR=241\nMINOR=3\nDEVNAME=hidraw3\n")), Ok("/dev/hidraw3".to_string()));
    assert_eq!(backend.open(Ok("MAJOR=241\n")), Err(HidError::Message("Can't find dev name".to_string())));
    assert_eq!(backend.open(Err(gone())), Err(HidError::NotConnected));
    assert_eq!(backend.open(Err(denied())), Err(HidError::Other("Permission denied".to_string())));
    assert_eq!(
        backend.open(Ok("DEVNAME=/etc/passwd\n")),
        Err(HidError::Message("Absolute device paths must start with /dev/".to_string()))
    );
}

#[test]
fn errors_of_the_system_are_mapped() {
    assert_eq!(open_error(gone()), HidError::NotConnected);
    assert_eq!(open_error(denied()), HidError::Other("Permission denied".to_string()));
    assert_eq!(transfer_error(Some(5), "Input/output error"), HidError::Disconnected);
    assert_eq!(transfer_error(Some(11), "again"), HidError::Other("again".to_string()));
    assert_eq!(transfer_error(None, "odd"), HidError::Other("odd".to_string()));
}

fn random_texts(alphabet: &[char], count: usize, max_len: usize) -> Vec<String> {
    let mut seed: u64 = 0x9E37_79B9_7F4A_7C15;
    let mut next = move || {
        seed ^= seed << 13;
        seed ^= seed >> 7;
        seed ^= seed << 17;
        seed
    };
    (0..count)
        .map(|_| {
            let len = (next() % (max_len as u64 + 1)) as usize;
            (0..len).map(|_| alphabet[(next() % alphabet.len() as u64) as usize]).collect()
        })
        .collect()
}

#[test]
fn sys_path_agrees_with_std_on_many_paths() {
    for path in random_texts(&['/', '.', 'a', 'b', '\u{e9}'], 3000, 9) {
        let expected = Path::new(&path)
            .components()
            .filter(|c| *c != Component::RootDir)
            .fold(PathBuf::from("/sys/"), |a, b| a.join(b));
        assert_eq!(sys_path(&path).as_str(), expected.to_str().unwrap(), "{:?}", path);
    }
}

#[test]
fn read_property_agrees_with_std_on_many_texts() {
    for text in random_texts(&['A', 'B', '=', '\n', '\r', 'x', '\u{e9}'], 3000, 12) {
        for key in ["A", "B", "AB", ""] {
            let expected = text
                .lines()
                .filter_map(|l| l.split_once('='))
                .find_map(|(k, v)| (k == key).then_some(v))
                .map(str::to_string);
            assert_eq!(read_property(&text, key), expected, "{:?} {:?}", text, key);
        }
    }
}

#[test]
fn parse_hid_vid_pid_agrees_with_std_on_many_texts() {
    for text in random_texts(&[':', '0', '1', 'f', 'F', 'g', '+', '-', ':'], 4000, 14) {
        let mut elems = text.split(':').filter_map(|s| u16::from_str_radix(s, 16).ok());
        let expected = (|| Some((elems.next()?, elems.next()?, elems.next()?)))();
        assert_eq!(parse_hid_vid_pid(&text), expected, "{:?}", text);
    }
}

#[test]
fn mange_dev_name_agrees_with_std_on_many_names() {
    for name in random_texts(&['/', 'd', 'e', 'v', '.', 'h'], 3000, 8) {
        let path = Path::new(&name);
        let expected = if path.is_absolute() {
            name.strip_prefix("/dev/")
                .is_some_and(|z| !z.is_empty())
                .then(|| path.to_path_buf())
        } else {
            Some(Path::new("/dev/").join(path))
        };
        assert_eq!(mange_dev_name(&name).ok().map(PathBuf::from), expected, "{:?}", name);
    }
}
