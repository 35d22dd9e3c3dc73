use async_hid::queue::AsyncQueue;
use async_hid::device::{opened_reader, opened_writer, OpenMode};
use async_hid::device_info::{DeviceEvent, DeviceId};
use async_hid::text::{
    append_range, hex_u16, index_of, is_utf8, push_upper_hex, range_eq, range_to_string, str_eq,
    utf8_to_string, value_of_key, with_hex_code,
};
use async_hid::utils::Progress;

#[test]
fn index_of_finds_the_first_match_in_the_range() {
    let bytes = b"a=b=c";
    assert_eq!(index_of(bytes, 0, 5, b'='), 1);
    assert_eq!(index_of(bytes, 2, 5, b'='), 3);
    assert_eq!(index_of(bytes, 4, 5, b'='), 5);
    assert_eq!(index_of(bytes, 0, 1, b'='), 1);
    assert_eq!(index_of(bytes, 3, 3, b'='), 3);
}

#[test]
fn range_eq_compares_the_whole_range() {
    assert!(range_eq(b"ACTION=add", 0, 6, b"ACTION"));
    assert!(!range_eq(b"ACTION=add", 0, 5, b"ACTION"));
    assert!(!range_eq(b"ACTION=add", 0, 6, b"ACTIOn"));
    assert!(range_eq(b"ACTION=add", 7, 10, b"add"));
    assert!(range_eq(b"x", 1, 1, b""));
    assert!(str_eq("hidraw", "hidraw"));
    assert!(!str_eq("hidraw", "hidra"));
    assert!(!str_eq("", "a"));
}

#[test]
fn value_of_key_splits_at_the_first_equals_sign() {
    assert_eq!(value_of_key(b"KEY=a=b", 0, 7, b"KEY"), Some((4, 7)));
    assert_eq!(value_of_key(b"KEY=a=b", 0, 7, b"KEY=a"), None);
    assert_eq!(value_of_key(b"KEY", 0, 3, b"KEY"), None);
    assert_eq!(value_of_key(b"KEY=", 0, 4, b"KEY"), Some((4, 4)));
    assert_eq!(value_of_key(b"xxKEY=v", 2, 7, b"KEY"), Some((6, 7)));
}

#[test]
fn text_is_checked_to_be_utf8() {
    assert!(is_utf8(b""));
    assert!(is_utf8("d\u{e9}j\u{e0} \u{1F600}".as_bytes()));
    assert!(!is_utf8(b"\xFF"));
    assert!(!is_utf8(b"\xC3"));
    assert!(!is_utf8(b"\xED\xA0\x80"));
    assert!(!is_utf8(b"\xC0\x80"));
    assert_eq!(utf8_to_string("d\u{e9}j\u{e0}".as_bytes()), Some("d\u{e9}j\u{e0}".to_string()));
    assert_eq!(utf8_to_string(b"a\x80"), None);
    assert_eq!(range_to_string(b"\xFFok\xFF", 1, 3), Some("ok".to_string()));
    assert_eq!(range_to_string(b"\xFFok\xFF", 0, 3), None);
}

#[test]
fn append_range_appends_the_range() {
    let mut out = vec![1u8];
    append_range(&mut out, &[2, 3, 4, 5], 1, 3);
    assert_eq!(out, vec![1, 3, 4]);
    append_range(&mut out, &[2, 3, 4, 5], 4, 4);
    assert_eq!(out, vec![1, 3, 4]);
}

#[test]
fn hex_u16_agrees_with_std() {
    for text in ["0", "f", "F", "10", "ffff", "FFFF", "10000", "0000ffff", "+1", "+", "", "-1", "g", "0x1", "1 ", "+-1", "fffff"] {
        let bytes = text.as_bytes();
        assert_eq!(hex_u16(bytes, 0, bytes.len()), u16::from_str_radix(text, 16).ok(), "{:?}", text);
    }
    assert_eq!(hex_u16(b"zz1fzz", 2, 4), Some(0x1F));
}

#[test]
fn hex_codes_agree_with_std() {
    for value in [0u32, 1, 9, 10, 15, 16, 255, 256, 0xABCDEF, 0xE00002C2, u32::MAX] {
        let mut digits = Vec::new();
        push_upper_hex(&mut digits, value);
        assert_eq!(String::from_utf8(digits).unwrap(), format!("{:X}", value));
        assert_eq!(with_hex_code("code: ", value), format!("code: {:#X}", value));
    }
    assert_eq!(with_hex_code("", 0x2A), "0x2A");
    assert_eq!(with_hex_code("\u{e9}: ", 0), "\u{e9}: 0x0");
}

fn event(id: u64) -> DeviceEvent {
    DeviceEvent::Connected(DeviceId::RegistryEntryId(id))
}

#[test]
fn async_queue_is_first_in_first_out() {
    let mut queue = AsyncQueue::new(3);
    assert_eq!(queue.poll_next(), Progress::Pending);
    queue.force_push(event(1));
    queue.force_push(event(2));
    assert_eq!(queue.poll_next(), Progress::Ready(Some(event(1))));
    queue.force_push(event(3));
    assert_eq!(queue.poll_next(), Progress::Ready(Some(event(2))));
    assert_eq!(queue.poll_next(), Progress::Ready(Some(event(3))));
    assert_eq!(queue.poll_next(), Progress::Pending);
}

#[test]
fn async_queue_drops_the_oldest_when_full() {
    let mut queue = AsyncQueue::new(2);
    for id in 1..=5 {
        queue.force_push(event(id));
    }
    assert_eq!(queue.poll_next(), Progress::Ready(Some(event(4))));
    assert_eq!(queue.poll_next(), Progress::Ready(Some(event(5))));
    assert_eq!(queue.poll_next(), Progress::Pending);
    let mut single = AsyncQueue::new(1);
    single.force_push(event(1));
    single.force_push(event(2));
    assert_eq!(single.poll_next(), Progress::Ready(Some(event(2))));
}

#[test]
fn open_modes_ask_for_their_halves() {
    assert_eq!(OpenMode::Readable.halves(), (true, false));
    assert_eq!(OpenMode::Writeable.halves(), (false, true));
    assert_eq!(OpenMode::ReadWrite.halves(), (true, true));
    assert_eq!(opened_reader(OpenMode::Readable, (Some(1), None::<u8>)), 1);
    assert_eq!(opened_writer(OpenMode::ReadWrite, (Some(1), Some(2))), 2);
}
