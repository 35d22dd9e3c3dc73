//! Byte strings: searching, comparing and the passage between bytes and
//! `String`.

use vstd::prelude::*;
use vstd::slice::slice_subrange;
use vstd::string::StringSliceAdditionalSpecFns;
use vstd::utf8::{
    decode_utf8, encode_utf8, encode_utf8_decode_utf8, encode_utf8_valid_utf8,
    is_char_boundary_iff_not_is_continuation_byte, is_continuation_byte, is_leading_byte_width_1,
    valid_utf8, valid_utf8_concat, valid_utf8_split,
};

verus! {

/// Separator of key and value, `=`.
pub const EQUALS: u8 = 0x3d;

/// Index of the first `byte` in `s[from..end)`, or `end` where there is none.
pub open spec fn find_byte(s: Seq<u8>, from: int, end: int, byte: u8) -> int
    decreases end - from,
{
    if from >= end {
        end
    } else if s[from] == byte {
        from
    } else {
        find_byte(s, from + 1, end, byte)
    }
}

/// `find_byte` returns the first match, and `end` only where nothing matches.
pub proof fn lemma_find_byte(s: Seq<u8>, from: int, end: int, byte: u8)
    requires
        from <= end,
    ensures
        from <= find_byte(s, from, end, byte) <= end,
        find_byte(s, from, end, byte) < end ==> s[find_byte(s, from, end, byte)] == byte,
        forall|k: int| from <= k < find_byte(s, from, end, byte) ==> s[k] != byte,
    decreases end - from,
{
    if from < end && s[from] != byte {
        lemma_find_byte(s, from + 1, end, byte);
    }
}

/// The search for `byte` from `from` goes on from any place before its result.
pub proof fn lemma_find_byte_resume(s: Seq<u8>, from: int, mid: int, end: int, byte: u8)
    requires
        from <= mid <= end,
        forall|k: int| from <= k < mid ==> s[k] != byte,
    ensures
        find_byte(s, from, end, byte) == find_byte(s, mid, end, byte),
    decreases mid - from,
{
    if from < mid {
        lemma_find_byte_resume(s, from + 1, mid, end, byte);
    }
}

/// Index of the first `byte` in `bytes[from..end)`, or `end`.
pub fn index_of(bytes: &[u8], from: usize, end: usize, byte: u8) -> (i: usize)
    requires
        from <= end <= bytes@.len(),
    ensures
        i == find_byte(bytes@, from as int, end as int, byte),
        from <= i <= end,
{
    let mut i: usize = from;
    while i < end
        invariant
            from <= i <= end <= bytes@.len(),
            forall|k: int| from <= k < i ==> bytes@[k] != byte,
        decreases end - i,
    {
        if bytes[i] == byte {
            proof {
                lemma_find_byte_resume(bytes@, from as int, i as int, end as int, byte);
            }
            return i;
        }
        i = i + 1;
    }
    proof {
        lemma_find_byte_resume(bytes@, from as int, end as int, end as int, byte);
    }
    end
}

/// Whether `bytes[from..end)` holds exactly the bytes of `word`.
pub fn range_eq(bytes: &[u8], from: usize, end: usize, word: &[u8]) -> (same: bool)
    requires
        from <= end <= bytes@.len(),
    ensures
        same == (bytes@.subrange(from as int, end as int) == word@),
{
    if end - from != word.len() {
        return false;
    }
    let n = word.len();
    let mut i: usize = 0;
    while i < n
        invariant
            i <= n,
            n == word@.len(),
            n == end - from,
            from <= end <= bytes@.len(),
            forall|k: int| 0 <= k < i ==> bytes@[from + k] == word@[k],
        decreases n - i,
    {
        if bytes[from + i] != word[i] {
            assert(bytes@.subrange(from as int, end as int)[i as int] != word@[i as int]);
            return false;
        }
        i = i + 1;
    }
    assert(bytes@.subrange(from as int, end as int) =~= word@);
    true
}

/// Where the line `s[start..end)` reads `key=value`, the range of the value.
/// The key ends at the first `=` of the line.
pub open spec fn keyed_value(s: Seq<u8>, start: int, end: int, key: Seq<u8>) -> Option<(int, int)> {
    let eq = find_byte(s, start, end, EQUALS);
    if eq < end && s.subrange(start, eq) == key {
        Some((eq + 1, end))
    } else {
        None
    }
}

/// The range of the value where the line `bytes[start..end)` reads
/// `key=value`.
pub fn value_of_key(bytes: &[u8], start: usize, end: usize, key: &[u8]) -> (found: Option<
    (usize, usize),
>)
    requires
        start <= end <= bytes@.len(),
    ensures
        match keyed_value(bytes@, start as int, end as int, key@) {
            Some((from, to)) => found == Some((from as usize, to as usize)) && start < from <= to
                && to == end && bytes@[from - 1] == EQUALS,
            None => found is None,
        },
{
    let eq = index_of(bytes, start, end, EQUALS);
    proof {
        lemma_find_byte(bytes@, start as int, end as int, EQUALS);
    }
    if eq < end && range_eq(bytes, start, eq, key) {
        Some((eq + 1, end))
    } else {
        None
    }
}

/// Whether two strings hold the same text.
pub fn str_eq(a: &str, b: &str) -> (same: bool)
    ensures
        same == (a@ == b@),
{
    proof {
        encode_utf8_decode_utf8(a@);
        encode_utf8_decode_utf8(b@);
    }
    let left = a.as_bytes();
    assert(left@.subrange(0, left@.len() as int) =~= left@);
    range_eq(left, 0, left.len(), b.as_bytes())
}

/// Appends `bytes[from..end)` to `out`.
pub fn append_range(out: &mut Vec<u8>, bytes: &[u8], from: usize, end: usize)
    requires
        from <= end <= bytes@.len(),
    ensures
        final(out)@ == old(out)@ + bytes@.subrange(from as int, end as int),
{
    let mut i: usize = from;
    while i < end
        invariant
            from <= i <= end <= bytes@.len(),
            out@ == old(out)@ + bytes@.subrange(from as int, i as int),
        decreases end - i,
    {
        out.push(bytes[i]);
        i = i + 1;
        assert(out@ =~= old(out)@ + bytes@.subrange(from as int, i as int));
    }
    assert(out@ =~= old(out)@ + bytes@.subrange(from as int, end as int));
}

/// The bytes of a string are valid UTF-8.
pub proof fn lemma_str_bytes_valid(s: &str)
    ensures
        valid_utf8(s.spec_bytes()),
{
    encode_utf8_valid_utf8(s@);
}

/// `std::str::from_utf8`: the string slice over `bytes` where they are valid
/// UTF-8, and `None` where they are not.
#[verifier::external_body]
fn str_from_utf8(bytes: &[u8]) -> (r: Option<&str>)
    ensures
        r is Some <==> valid_utf8(bytes@),
        r matches Some(s) ==> s.spec_bytes() == bytes@,
{
    std::str::from_utf8(bytes).ok()
}

/// Whether `bytes` are valid UTF-8.
pub fn is_utf8(bytes: &[u8]) -> (valid: bool)
    ensures
        valid == valid_utf8(bytes@),
{
    str_from_utf8(bytes).is_some()
}

/// The text that `bytes` encode, where they are valid UTF-8.
pub fn utf8_to_string(bytes: &[u8]) -> (r: Option<String>)
    ensures
        r is Some <==> valid_utf8(bytes@),
        r matches Some(s) ==> s@ == decode_utf8(bytes@) && encode_utf8(s@) == bytes@,
{
    match str_from_utf8(bytes) {
        Some(s) => {
            proof {
                encode_utf8_decode_utf8(s@);
            }
            Some(s.to_owned())
        },
        None => None,
    }
}

/// The text that `bytes[from..end)` encode, where that range is valid UTF-8.
pub fn range_to_string(bytes: &[u8], from: usize, end: usize) -> (r: Option<String>)
    requires
        from <= end <= bytes@.len(),
    ensures
        r is Some <==> valid_utf8(bytes@.subrange(from as int, end as int)),
        r matches Some(s) ==> s@ == decode_utf8(bytes@.subrange(from as int, end as int))
            && encode_utf8(s@) == bytes@.subrange(from as int, end as int),
{
    utf8_to_string(slice_subrange(bytes, from, end))
}

/// A byte below 0x80 stands for itself in UTF-8.
pub open spec fn is_ascii_byte(byte: u8) -> bool {
    byte < 0x80
}

/// A range of valid UTF-8 that is cut out next to ASCII bytes, or at the
/// ends, is valid UTF-8 again.
pub proof fn lemma_valid_utf8_between_ascii(bytes: Seq<u8>, from: int, end: int)
    requires
        valid_utf8(bytes),
        0 <= from <= end <= bytes.len(),
        from == 0 || is_ascii_byte(bytes[from - 1]),
        end == bytes.len() || is_ascii_byte(bytes[end]),
    ensures
        valid_utf8(bytes.subrange(from, end)),
{
    let tail = bytes.subrange(from, bytes.len() as int);
    assert(valid_utf8(tail)) by {
        if from == 0 {
            assert(tail =~= bytes);
        } else {
            let b = bytes[from - 1];
            assert(!is_continuation_byte(b) && is_leading_byte_width_1(b));
            is_char_boundary_iff_not_is_continuation_byte(bytes, from - 1);
            valid_utf8_split(bytes, from - 1);
            let longer = bytes.subrange(from - 1, bytes.len() as int);
            assert(longer[0] == b);
            assert(longer.subrange(1, longer.len() as int) =~= tail);
        }
    }
    if end == bytes.len() {
        assert(bytes.subrange(from, end) =~= tail);
    } else {
        let b = bytes[end];
        assert(tail[end - from] == b);
        assert(!is_continuation_byte(b));
        is_char_boundary_iff_not_is_continuation_byte(tail, end - from);
        valid_utf8_split(tail, end - from);
        assert(tail.subrange(0, end - from) =~= bytes.subrange(from, end));
    }
}

/// Sign that may stand before a number, `+`.
pub const PLUS: u8 = 0x2b;

/// The value of a hexadecimal digit in either case.
pub open spec fn hex_digit_value(byte: u8) -> Option<int> {
    if 0x30 <= byte <= 0x39 {
        Some(byte - 0x30)
    } else if 0x61 <= byte <= 0x66 {
        Some(byte - 0x61 + 10)
    } else if 0x41 <= byte <= 0x46 {
        Some(byte - 0x41 + 10)
    } else {
        None
    }
}

/// Every byte of `s` is a hexadecimal digit.
pub open spec fn all_hex_digits(s: Seq<u8>) -> bool {
    forall|i: int| 0 <= i < s.len() ==> (#[trigger] hex_digit_value(s[i])) is Some
}

/// The number that the hexadecimal digits `s` write; a byte that is no digit
/// counts as zero.
pub open spec fn hex_value(s: Seq<u8>) -> int
    decreases s.len(),
{
    if s.len() == 0 {
        0
    } else {
        16 * hex_value(s.drop_last()) + match hex_digit_value(s.last()) {
            Some(digit) => digit,
            None => 0,
        }
    }
}

/// The hexadecimal digits of `s`: all of it, but for one leading `+`.
pub open spec fn hex_digits_of(s: Seq<u8>) -> Seq<u8> {
    if s.len() > 0 && s[0] == PLUS {
        s.subrange(1, s.len() as int)
    } else {
        s
    }
}

/// The 16-bit number that `s` writes in base sixteen: an optional `+`, then
/// at least one digit and nothing else, and a value that fits.
pub open spec fn parse_hex_u16(s: Seq<u8>) -> Option<u16> {
    let digits = hex_digits_of(s);
    if digits.len() > 0 && all_hex_digits(digits) && hex_value(digits) <= 0xffff {
        Some(hex_value(digits) as u16)
    } else {
        None
    }
}

/// A number does not shrink when digits follow.
proof fn lemma_hex_value_grows(s: Seq<u8>, k: int)
    requires
        0 <= k <= s.len(),
    ensures
        0 <= hex_value(s.subrange(0, k)) <= hex_value(s),
    decreases s.len(),
{
    if k == s.len() {
        assert(s.subrange(0, k) =~= s);
        if s.len() > 0 {
            lemma_hex_value_grows(s.drop_last(), k - 1);
            assert(s.drop_last().subrange(0, k - 1) =~= s.drop_last());
        }
    } else {
        lemma_hex_value_grows(s.drop_last(), k);
        assert(s.drop_last().subrange(0, k) =~= s.subrange(0, k));
    }
}

/// The value of one hexadecimal digit.
fn hex_digit(byte: u8) -> (digit: Option<u32>)
    ensures
        match hex_digit_value(byte) {
            Some(value) => digit == Some(value as u32) && value < 16,
            None => digit is None,
        },
{
    if 0x30 <= byte && byte <= 0x39 {
        Some((byte - 0x30) as u32)
    } else if 0x61 <= byte && byte <= 0x66 {
        Some((byte - 0x61 + 10) as u32)
    } else if 0x41 <= byte && byte <= 0x46 {
        Some((byte - 0x41 + 10) as u32)
    } else {
        None
    }
}

/// The 16-bit number that `bytes[from..end)` write in base sixteen.
pub fn hex_u16(bytes: &[u8], from: usize, end: usize) -> (number: Option<u16>)
    requires
        from <= end <= bytes@.len(),
    ensures
        number == parse_hex_u16(bytes@.subrange(from as int, end as int)),
{
    let ghost whole = bytes@.subrange(from as int, end as int);
    let start: usize = if from < end && bytes[from] == PLUS {
        from + 1
    } else {
        from
    };
    let ghost digits = bytes@.subrange(start as int, end as int);
    assert(digits =~= hex_digits_of(whole));
    if start == end {
        return None;
    }
    let mut value: u32 = 0;
    let mut i: usize = start;
    while i < end
        invariant
            start <= i <= end <= bytes@.len(),
            digits == bytes@.subrange(start as int, end as int),
            digits == hex_digits_of(bytes@.subrange(from as int, end as int)),
            value == hex_value(digits.subrange(0, i - start)),
            value <= 0xffff,
            all_hex_digits(digits.subrange(0, i - start)),
        decreases end - i,
    {
        let ghost read = digits.subrange(0, i - start + 1);
        assert(read.drop_last() =~= digits.subrange(0, i - start));
        assert(read.last() == bytes@[i as int]);
        match hex_digit(bytes[i]) {
            Some(digit) => {
                value = 16 * value + digit;
                if value > 0xffff {
                    proof {
                        assert(value == hex_value(read));
                        lemma_hex_value_grows(digits, i - start + 1);
                    }
                    return None;
                }
            },
            None => {
                assert(digits[i - start] == bytes@[i as int]);
                assert(hex_digit_value(digits[i - start]) is None);
                return None;
            },
        }
        i = i + 1;
    }
    assert(digits.subrange(0, end - start) =~= digits);
    Some(value as u16)
}

/// Bytes below 0x80 are valid UTF-8.
pub proof fn lemma_ascii_is_utf8(s: Seq<u8>)
    requires
        forall|i: int| 0 <= i < s.len() ==> is_ascii_byte(#[trigger] s[i]),
    ensures
        valid_utf8(s),
    decreases s.len(),
{
    if s.len() > 0 {
        assert(is_ascii_byte(s[0]));
        let rest = s.subrange(1, s.len() as int);
        assert forall|i: int| 0 <= i < rest.len() implies is_ascii_byte(#[trigger] rest[i]) by {
            assert(rest[i] == s[i + 1]);
        }
        lemma_ascii_is_utf8(rest);
    }
}

/// The digit that writes `value` in base sixteen, in upper case.
pub open spec fn upper_hex_digit(value: int) -> u8 {
    if value < 10 {
        (0x30 + value) as u8
    } else {
        (0x41 + value - 10) as u8
    }
}

/// The digits that write `value` in base sixteen, in upper case and without
/// leading zeros.
pub open spec fn upper_hex(value: nat) -> Seq<u8>
    decreases value,
{
    if value < 16 {
        seq![upper_hex_digit(value as int)]
    } else {
        upper_hex(value / 16).push(upper_hex_digit((value % 16) as int))
    }
}

/// `value` in base sixteen, with `0x` before the digits.
pub open spec fn hex_code(value: nat) -> Seq<u8> {
    "0x".spec_bytes() + upper_hex(value)
}

proof fn lemma_upper_hex_is_ascii(value: nat)
    ensures
        forall|i: int| 0 <= i < upper_hex(value).len() ==> is_ascii_byte(#[trigger] upper_hex(value)[i]),
    decreases value,
{
    let digits = upper_hex(value);
    if value >= 16 {
        lemma_upper_hex_is_ascii(value / 16);
        let head = upper_hex(value / 16);
        assert forall|i: int| 0 <= i < digits.len() implies is_ascii_byte(#[trigger] digits[i]) by {
            if i < head.len() {
                assert(digits[i] == head[i]);
            } else {
                assert(digits[i] == upper_hex_digit((value % 16) as int));
            }
        }
    } else {
        assert(digits[0] == upper_hex_digit(value as int));
    }
}

/// Appends the digits of `value` in base sixteen to `out`.
pub fn push_upper_hex(out: &mut Vec<u8>, value: u32)
    ensures
        final(out)@ == old(out)@ + upper_hex(value as nat),
    decreases value,
{
    if value >= 16 {
        push_upper_hex(out, value / 16);
    }
    let digit: u8 = (value % 16) as u8;
    out.push(
        if digit < 10 {
            0x30 + digit
        } else {
            0x41 + digit - 10
        },
    );
    assert(out@ =~= old(out)@ + upper_hex(value as nat));
}

/// The text `prefix` followed by `value` in base sixteen: `0x` and the
/// digits in upper case.
pub fn with_hex_code(prefix: &str, value: u32) -> (text: String)
    ensures
        encode_utf8(text@) == prefix.spec_bytes() + hex_code(value as nat),
{
    let mut out: Vec<u8> = Vec::new();
    let head = prefix.as_bytes();
    let mark = "0x".as_bytes();
    append_range(&mut out, head, 0, head.len());
    append_range(&mut out, mark, 0, mark.len());
    let ghost before = out@;
    push_upper_hex(&mut out, value);
    proof {
        assert(head@.subrange(0, head@.len() as int) =~= head@);
        assert(mark@.subrange(0, mark@.len() as int) =~= mark@);
        lemma_str_bytes_valid(prefix);
        lemma_str_bytes_valid("0x");
        valid_utf8_concat(head@, mark@);
        lemma_upper_hex_is_ascii(value as nat);
        lemma_ascii_is_utf8(upper_hex(value as nat));
        valid_utf8_concat(before, upper_hex(value as nat));
        assert(out@ =~= prefix.spec_bytes() + hex_code(value as nat));
    }
    utf8_to_string(out.as_slice()).unwrap()
}

} // verus!
