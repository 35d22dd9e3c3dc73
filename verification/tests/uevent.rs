use async_hid::backend::hidraw::uevent::{Action, UEvent};

fn kernel_message() -> Vec<u8> {
    b"add@/devices/foo\0ACTION=add\0SUBSYSTEM=hidraw\0DEVPATH=/devices/foo\0".to_vec()
}

fn udev_message(magic: u32, payload: &[u8]) -> Vec<u8> {
    let mut message = b"libudev\0".to_vec();
    message.extend_from_slice(&magic.to_be_bytes());
    message.extend_from_slice(&40u32.to_le_bytes());
    message.extend_from_slice(&40u32.to_le_bytes());
    message.extend_from_slice(&(payload.len() as u32).to_le_bytes());
    message.extend_from_slice(&[0u8; 16]);
    assert_eq!(message.len(), 40);
    message.extend_from_slice(payload);
    message
}

#[test]
fn kernel_message_parses() {
    let event = UEvent::parse(&kernel_message()).unwrap();
    assert_eq!(
        event,
        UEvent {
            action: Action::Add,
            subsystem: "hidraw".to_string(),
            dev_path: "/devices/foo".to_string()
        }
    );
}

#[test]
fn udev_message_parses() {
    let message = udev_message(0xFEED_CAFE, b"ACTION=remove\0DEVPATH=/devices/bar\0SUBSYSTEM=usb\0");
    let event = UEvent::parse(&message).unwrap();
    assert_eq!(event.action, Action::Remove);
    assert_eq!(event.subsystem, "usb");
    assert_eq!(event.dev_path, "/devices/bar");
}

#[test]
fn udev_message_with_wrong_magic_is_rejected() {
    let message = udev_message(0xFEED_CAFF, b"ACTION=remove\0DEVPATH=/devices/bar\0SUBSYSTEM=usb\0");
    assert_eq!(UEvent::parse(&message), Err("Invalid magic number"));
    let message = udev_message(0xFECA_EDFE, b"ACTION=remove\0DEVPATH=/devices/bar\0SUBSYSTEM=usb\0");
    assert_eq!(UEvent::parse(&message), Err("Invalid magic number"));
}

#[test]
fn udev_payload_offset_beyond_the_message_is_rejected() {
    let mut message = udev_message(0xFEED_CAFE, b"ACTION=add\0");
    let len = message.len() as u32;
    message[16..20].copy_from_slice(&(len + 1).to_le_bytes());
    assert_eq!(UEvent::parse(&message), Err("Message is too short"));
    message[16..20].copy_from_slice(&len.to_le_bytes());
    assert_eq!(UEvent::parse(&message), Err("Event action not found"));
}

#[test]
fn short_message_is_rejected() {
    assert_eq!(UEvent::parse(b""), Err("Message is too short"));
    assert_eq!(UEvent::parse(b"add@/a\0ACTION=add\0SUBSYSTEM=h\0"), Err("Message is too short"));
    assert_eq!(
        UEvent::parse(b"add@/a\0ACTION=add\0SUBSYSTEM=hid\0"),
        Err("Event device path not found")
    );
    assert_eq!(kernel_message().len(), 66);
    assert_eq!(UEvent::parse(&kernel_message()[..31]), Err("Message is too short"));
}

#[test]
fn kernel_message_needs_its_mark() {
    let message = b"add/devices/foo\0ACTION=add\0SUBSYSTEM=hidraw\0DEVPATH=/devices/foo\0";
    assert_eq!(UEvent::parse(message), Err("Invalid kernel event"));
    let message = b"add/devices/foo\0ACTION=add\0SUBSYSTEM=hidraw\0DEVPATH=/devices/f@o\0";
    assert_eq!(UEvent::parse(message), Err("Invalid kernel event"));
}

#[test]
fn kernel_message_needs_a_payload() {
    let message = b"add@/devices/foo/with/a/very/long/path/and/nothing/else";
    assert_eq!(UEvent::parse(message), Err("Failed to find the start of the message"));
}

#[test]
fn payload_has_to_be_text() {
    let message = b"add@/devices/foo\0ACTION=add\0SUBSYSTEM=hidraw\0DEVPATH=/devices/\xFFoo\0";
    assert_eq!(UEvent::parse(message), Err("Invalid utf-8"));
    assert_eq!(UEvent::parse_internal(b"ACTION=add\0JUNK=\xC3\0"), Err("Invalid utf-8"));
}

#[test]
fn missing_fields_are_named() {
    assert_eq!(UEvent::parse_internal(b""), Err("Event action not found"));
    assert_eq!(UEvent::parse_internal(b"SUBSYSTEM=a\0DEVPATH=b\0"), Err("Event action not found"));
    assert_eq!(UEvent::parse_internal(b"ACTION=add\0DEVPATH=b\0"), Err("Event subsystem not found"));
    assert_eq!(
        UEvent::parse_internal(b"ACTION=add\0SUBSYSTEM=a\0"),
        Err("Event device path not found")
    );
    assert_eq!(
        UEvent::parse_internal(b"ACTION\0SUBSYSTEM=a\0DEVPATH=b"),
        Err("Event action not found")
    );
}

#[test]
fn other_actions_keep_their_name() {
    let event = UEvent::parse_internal(b"ACTION=bind\0SUBSYSTEM=hidraw\0DEVPATH=/d").unwrap();
    assert_eq!(event.action, Action::Other("bind".to_string()));
    let event = UEvent::parse_internal(b"ACTION=\0SUBSYSTEM=hidraw\0DEVPATH=/d").unwrap();
    assert_eq!(event.action, Action::Other(String::new()));
    let event = UEvent::parse_internal(b"ACTION=adds\0SUBSYSTEM=hidraw\0DEVPATH=/d").unwrap();
    assert_eq!(event.action, Action::Other("adds".to_string()));
}

#[test]
fn later_lines_override_earlier_ones() {
    let event =
        UEvent::parse_internal(b"ACTION=add\0SUBSYSTEM=usb\0DEVPATH=/a\0ACTION=remove\0DEVPATH=/b\0")
            .unwrap();
    assert_eq!(event.action, Action::Remove);
    assert_eq!(event.subsystem, "usb");
    assert_eq!(event.dev_path, "/b");
}

#[test]
fn values_are_cut_at_the_first_equals_sign() {
    let event =
        UEvent::parse_internal("ACTION=add\0SUBSYSTEM=a=b\0DEVPATH=/d\u{e9}v/\u{1F600}\0X".as_bytes())
            .unwrap();
    assert_eq!(event.subsystem, "a=b");
    assert_eq!(event.dev_path, "/d\u{e9}v/\u{1F600}");
}

#[test]
fn payload_parses_as_the_lines_say() {
    let mut seed: u64 = 0x2545_F491_4F6C_DD1D;
    let mut next = move || {
        seed ^= seed << 13;
        seed ^= seed >> 7;
        seed ^= seed << 17;
        seed
    };
    let pieces = ["ACTION", "SUBSYSTEM", "DEVPATH", "=", "\0", "add", "remove", "hidraw", "/d", "X", "\u{e9}"];
    for _ in 0..4000 {
        let count = next() % 12;
        let text: String = (0..count).map(|_| pieces[(next() % pieces.len() as u64) as usize]).collect();
        let mut action = None;
        let mut subsystem = None;
        let mut dev_path = None;
        for line in text.split('\0') {
            if let Some((key, value)) = line.split_once('=') {
                match key {
                    "ACTION" => {
                        action = Some(match value {
                            "add" => Action::Add,
                            "remove" => Action::Remove,
                            other => Action::Other(other.to_string())
                        })
                    }
                    "SUBSYSTEM" => subsystem = Some(value.to_string()),
                    "DEVPATH" => dev_path = Some(value.to_string()),
                    _ => {}
                }
            }
        }
        let expected = (|| {
            Ok(UEvent {
                action: action.ok_or("Event action not found")?,
                subsystem: subsystem.ok_or("Event subsystem not found")?,
                dev_path: dev_path.ok_or("Event device path not found")?
            })
        })();
        assert_eq!(UEvent::parse_internal(text.as_bytes()), expected, "{:?}", text);
    }
}
