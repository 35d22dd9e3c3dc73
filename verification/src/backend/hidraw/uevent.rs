//! Parser for the device notifications that the kernel and the udev monitor
//! send over a netlink socket.

use vstd::prelude::*;
use vstd::slice::slice_subrange;
use vstd::string::StringSliceAdditionalSpecFns;
use vstd::utf8::{decode_utf8, valid_utf8};

use crate::text::{
    find_byte, index_of, is_utf8, keyed_value, lemma_find_byte, lemma_valid_utf8_between_ascii,
    range_eq, range_to_string, value_of_key, EQUALS,
};

verus! {

/// Separator of the lines of a payload.
pub const NUL: u8 = 0x00;

/// Mark of the first line of a kernel message, `@`.
pub const AT: u8 = 0x40;

/// The magic number behind the prefix of a message of the udev monitor.
pub const UDEV_MONITOR_MAGIC: u32 = 0xfeedcafe;

/// No message is shorter than this many bytes.
pub const MIN_MESSAGE_LEN: usize = 32;

/// What happened to the device.
#[derive(Debug, Clone, PartialEq, Eq)]
pub enum Action {
    Add,
    Remove,
    Other(String),
}

/// A device notification.
#[derive(Debug, Clone, PartialEq, Eq)]
pub struct UEvent {
    pub action: Action,
    pub subsystem: String,
    pub dev_path: String,
}

/// The mathematical value of an [`Action`].
pub enum ActionView {
    Add,
    Remove,
    Other(Seq<char>),
}

/// The mathematical value of a [`UEvent`].
pub struct UEventView {
    pub action: ActionView,
    pub subsystem: Seq<char>,
    pub dev_path: Seq<char>,
}

impl View for Action {
    type V = ActionView;

    open spec fn view(&self) -> ActionView {
        match self {
            Action::Add => ActionView::Add,
            Action::Remove => ActionView::Remove,
            Action::Other(name) => ActionView::Other(name@),
        }
    }
}

impl View for UEvent {
    type V = UEventView;

    open spec fn view(&self) -> UEventView {
        UEventView {
            action: self.action@,
            subsystem: self.subsystem@,
            dev_path: self.dev_path@,
        }
    }
}

/// The eight bytes `libudev` and NUL that open a message of the udev monitor.
pub open spec fn udev_prefix() -> Seq<u8> {
    "libudev\0".spec_bytes()
}

/// Big-endian value of the four bytes at `pos`.
pub open spec fn be_u32(s: Seq<u8>, pos: int) -> int {
    s[pos] * 0x100_0000 + s[pos + 1] * 0x1_0000 + s[pos + 2] * 0x100 + s[pos + 3]
}

/// Little-endian value of the four bytes at `pos`.
pub open spec fn le_u32(s: Seq<u8>, pos: int) -> int {
    s[pos] + s[pos + 1] * 0x100 + s[pos + 2] * 0x1_0000 + s[pos + 3] * 0x100_0000
}

/// Among the NUL-separated lines of `s` from `pos` on, the range of the value
/// of the last line that reads `key=value`.
pub open spec fn last_keyed_value(s: Seq<u8>, pos: int, key: Seq<u8>) -> Option<(int, int)>
    decreases s.len() - pos,
{
    if pos < 0 || pos > s.len() {
        None
    } else {
        let end = find_byte(s, pos, s.len() as int, NUL);
        let here = keyed_value(s, pos, end, key);
        if pos <= end < s.len() {
            match last_keyed_value(s, end + 1, key) {
                Some(range) => Some(range),
                None => here,
            }
        } else {
            here
        }
    }
}

/// The bytes of the value that the payload `s` gives to `key`.
pub open spec fn payload_value(s: Seq<u8>, key: Seq<u8>) -> Option<Seq<u8>> {
    match last_keyed_value(s, 0, key) {
        Some((from, end)) => Some(s.subrange(from, end)),
        None => None,
    }
}

/// The action that the value of `ACTION` names.
pub open spec fn action_of(value: Seq<u8>) -> ActionView {
    if value == "add".spec_bytes() {
        ActionView::Add
    } else if value == "remove".spec_bytes() {
        ActionView::Remove
    } else {
        ActionView::Other(decode_utf8(value))
    }
}

/// What a payload, the part of a message behind its header, parses to.
pub open spec fn parse_payload(s: Seq<u8>) -> Result<UEventView, Seq<char>> {
    if !valid_utf8(s) {
        Err("Invalid utf-8"@)
    } else {
        match payload_value(s, "ACTION".spec_bytes()) {
            None => Err("Event action not found"@),
            Some(action) => match payload_value(s, "SUBSYSTEM".spec_bytes()) {
                None => Err("Event subsystem not found"@),
                Some(subsystem) => match payload_value(s, "DEVPATH".spec_bytes()) {
                    None => Err("Event device path not found"@),
                    Some(dev_path) => Ok(
                        UEventView {
                            action: action_of(action),
                            subsystem: decode_utf8(subsystem),
                            dev_path: decode_utf8(dev_path),
                        },
                    ),
                },
            },
        }
    }
}

/// A message of the udev monitor opens with `libudev` and NUL.
pub open spec fn is_udev_framed(event: Seq<u8>) -> bool {
    event.len() >= 8 && event.subrange(0, 8) == udev_prefix()
}

/// What a whole message parses to.
///
/// A message of the udev monitor holds the magic number, big-endian, at byte
/// 8 and the offset of its payload, little-endian, at byte 16. A message of
/// the kernel has an `@` in its first line, and its payload starts behind the
/// first NUL.
pub open spec fn parse_message(event: Seq<u8>) -> Result<UEventView, Seq<char>> {
    if event.len() < MIN_MESSAGE_LEN {
        Err("Message is too short"@)
    } else if is_udev_framed(event) {
        if be_u32(event, 8) != UDEV_MONITOR_MAGIC {
            Err("Invalid magic number"@)
        } else if le_u32(event, 16) > event.len() {
            Err("Message is too short"@)
        } else {
            parse_payload(event.subrange(le_u32(event, 16), event.len() as int))
        }
    } else {
        let nul = find_byte(event, 0, event.len() as int, NUL);
        if find_byte(event, 0, nul, AT) == nul {
            Err("Invalid kernel event"@)
        } else if nul == event.len() {
            Err("Failed to find the start of the message"@)
        } else {
            parse_payload(event.subrange(nul + 1, event.len() as int))
        }
    }
}

/// `result` is the outcome that `expected` describes.
pub open spec fn parsed_as(
    result: Result<UEvent, &'static str>,
    expected: Result<UEventView, Seq<char>>,
) -> bool {
    match (result, expected) {
        (Ok(event), Ok(view)) => event@ == view,
        (Err(reason), Err(text)) => reason@ == text,
        _ => false,
    }
}

/// The later of two finds, where there is a later one.
pub open spec fn later_or(later: Option<(int, int)>, earlier: Option<(int, int)>) -> Option<
    (int, int),
> {
    match later {
        Some(range) => Some(range),
        None => earlier,
    }
}

/// The range that an executable pair of indices stands for.
pub open spec fn as_range(found: Option<(usize, usize)>) -> Option<(int, int)> {
    match found {
        Some((from, end)) => Some((from as int, end as int)),
        None => None,
    }
}

/// A found value starts behind an `=` and ends at a NUL or at the end.
spec fn cut_at_separators(s: Seq<u8>, found: Option<(usize, usize)>) -> bool {
    found matches Some((from, end)) ==> {
        &&& 1 <= from <= end <= s.len()
        &&& s[from - 1] == EQUALS
        &&& (end == s.len() || s[end as int] == NUL)
    }
}

/// What the walk over the lines has found of `key` when it stands at `pos`.
spec fn found_so_far(s: Seq<u8>, pos: int, key: Seq<u8>, found: Option<(usize, usize)>) -> bool {
    &&& last_keyed_value(s, 0, key) == later_or(last_keyed_value(s, pos, key), as_range(found))
    &&& cut_at_separators(s, found)
}

/// The range of the value where the line `bytes[start..end)` gives one to
/// `key`; else what was found before.
fn value_in_line(
    bytes: &[u8],
    start: usize,
    end: usize,
    key: &str,
    before: Option<(usize, usize)>,
) -> (found: Option<(usize, usize)>)
    requires
        start <= end <= bytes@.len(),
        end == find_byte(bytes@, start as int, bytes@.len() as int, NUL),
        cut_at_separators(bytes@, before),
    ensures
        as_range(found) == later_or(
            keyed_value(bytes@, start as int, end as int, key.spec_bytes()),
            as_range(before),
        ),
        cut_at_separators(bytes@, found),
{
    proof {
        lemma_find_byte(bytes@, start as int, bytes@.len() as int, NUL);
    }
    match value_of_key(bytes, start, end, key.as_bytes()) {
        Some(range) => Some(range),
        None => before,
    }
}

impl UEvent {
    /// Parses a message of the kernel or of the udev monitor.
    pub fn parse(event: &[u8]) -> (r: Result<UEvent, &'static str>)
        ensures
            parsed_as(r, parse_message(event@)),
    {
        let len = event.len();
        if len < MIN_MESSAGE_LEN {
            return Err("Message is too short");
        }
        if range_eq(event, 0, 8, "libudev\0".as_bytes()) {
            let magic: u32 = event[8] as u32 * 0x100_0000 + event[9] as u32 * 0x1_0000 + event[10] as u32
                * 0x100 + event[11] as u32;
            if magic != UDEV_MONITOR_MAGIC {
                return Err("Invalid magic number");
            }
            let offset: u32 = event[16] as u32 + event[17] as u32 * 0x100 + event[18] as u32 * 0x1_0000
                + event[19] as u32 * 0x100_0000;
            if offset as usize > len {
                return Err("Message is too short");
            }
            Self::parse_internal(slice_subrange(event, offset as usize, len))
        } else {
            let nul = index_of(event, 0, len, NUL);
            if index_of(event, 0, nul, AT) == nul {
                return Err("Invalid kernel event");
            }
            if nul == len {
                return Err("Failed to find the start of the message");
            }
            Self::parse_internal(slice_subrange(event, nul + 1, len))
        }
    }

    /// Parses a payload: NUL-separated lines, of which those that read
    /// `KEY=VALUE` count, a later line overriding an earlier one.
    pub fn parse_internal(event: &[u8]) -> (r: Result<UEvent, &'static str>)
        ensures
            parsed_as(r, parse_payload(event@)),
    {
        if !is_utf8(event) {
            return Err("Invalid utf-8");
        }
        let len = event.len();
        let mut action: Option<(usize, usize)> = None;
        let mut subsystem: Option<(usize, usize)> = None;
        let mut dev_path: Option<(usize, usize)> = None;
        let mut pos: usize = 0;
        loop
            invariant_except_break
                pos <= len,
                found_so_far(event@, pos as int, "ACTION".spec_bytes(), action),
                found_so_far(event@, pos as int, "SUBSYSTEM".spec_bytes(), subsystem),
                found_so_far(event@, pos as int, "DEVPATH".spec_bytes(), dev_path),
            invariant
                len == event@.len(),
            ensures
                as_range(action) == last_keyed_value(event@, 0, "ACTION".spec_bytes()),
                as_range(subsystem) == last_keyed_value(event@, 0, "SUBSYSTEM".spec_bytes()),
                as_range(dev_path) == last_keyed_value(event@, 0, "DEVPATH".spec_bytes()),
                cut_at_separators(event@, action),
                cut_at_separators(event@, subsystem),
                cut_at_separators(event@, dev_path),
            decreases len - pos,
        {
            let end = index_of(event, pos, len, NUL);
            action = value_in_line(event, pos, end, "ACTION", action);
            subsystem = value_in_line(event, pos, end, "SUBSYSTEM", subsystem);
            dev_path = value_in_line(event, pos, end, "DEVPATH", dev_path);
            if end >= len {
                break ;
            }
            pos = end + 1;
        }
        let (action_from, action_end) = match action {
            Some(range) => range,
            None => {
                return Err("Event action not found");
            },
        };
        let (subsystem_from, subsystem_end) = match subsystem {
            Some(range) => range,
            None => {
                return Err("Event subsystem not found");
            },
        };
        let (dev_path_from, dev_path_end) = match dev_path {
            Some(range) => range,
            None => {
                return Err("Event device path not found");
            },
        };
        proof {
            lemma_valid_utf8_between_ascii(event@, action_from as int, action_end as int);
            lemma_valid_utf8_between_ascii(event@, subsystem_from as int, subsystem_end as int);
            lemma_valid_utf8_between_ascii(event@, dev_path_from as int, dev_path_end as int);
        }
        let action = if range_eq(event, action_from, action_end, "add".as_bytes()) {
            Action::Add
        } else if range_eq(event, action_from, action_end, "remove".as_bytes()) {
            Action::Remove
        } else {
            Action::Other(range_to_string(event, action_from, action_end).unwrap())
        };
        Ok(
            UEvent {
                action,
                subsystem: range_to_string(event, subsystem_from, subsystem_end).unwrap(),
                dev_path: range_to_string(event, dev_path_from, dev_path_end).unwrap(),
            },
        )
    }
}

/// A message of the udev monitor whose magic number is not the expected one
/// is rejected.
pub proof fn lemma_wrong_magic_is_rejected(event: Seq<u8>)
    requires
        is_udev_framed(event),
        be_u32(event, 8) != UDEV_MONITOR_MAGIC,
    ensures
        parse_message(event) is Err,
{
}

} // verus!
