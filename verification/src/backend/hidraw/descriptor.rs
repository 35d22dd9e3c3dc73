use vstd::prelude::*;
use vstd::slice::slice_to_vec;

use crate::error::HidResult;

verus! {

/// The role that an item of a report descriptor plays for the scanner.
pub enum ItemKind {
    /// Global item that sets the usage page.
    UsagePage,
    /// Local item that sets the pending usage.
    Usage,
    /// Main item that opens a collection.
    Collection,
    /// Main item that closes a collection.
    EndCollection,
    /// Input, Output or Feature.
    OtherMain,
    /// Any other short item, and every long item.
    Other,
}

/// The kind of the item whose prefix byte is `key`.
pub open spec fn item_kind(key: u8) -> ItemKind {
    let tag = key & 0xfc;
    if tag == 0x04 {
        ItemKind::UsagePage
    } else if tag == 0x08 {
        ItemKind::Usage
    } else if tag == 0xa0 {
        ItemKind::Collection
    } else if tag == 0xc0 {
        ItemKind::EndCollection
    } else if tag == 0x80 || tag == 0x90 || tag == 0xb0 {
        ItemKind::OtherMain
    } else {
        ItemKind::Other
    }
}

/// A long item has all four high bits of its prefix set.
pub open spec fn is_long_item(key: u8) -> bool {
    key & 0xf0 == 0xf0
}

/// Data length that the two low bits of a short item's prefix stand for.
pub open spec fn short_data_len(key: u8) -> int {
    let code = key & 0x03;
    if code == 3 {
        4
    } else {
        code as int
    }
}

/// Data length and header length of the item at `pos`, or `None` where a long
/// item has no length byte.
pub open spec fn item_size(bytes: Seq<u8>, pos: int) -> Option<(int, int)>
    recommends
        0 <= pos < bytes.len(),
{
    if is_long_item(bytes[pos]) {
        if pos + 1 < bytes.len() {
            Some((bytes[pos + 1] as int, 3))
        } else {
            None
        }
    } else {
        Some((short_data_len(bytes[pos]), 1))
    }
}

/// An item starts at `pos` and all of it lies inside `bytes`.
pub open spec fn item_complete(bytes: Seq<u8>, pos: int) -> bool {
    &&& 0 <= pos < bytes.len()
    &&& item_size(bytes, pos) matches Some((data_len, header_len))
    &&& pos + header_len + data_len <= bytes.len()
}

/// Position just behind the complete item at `pos`.
pub open spec fn item_end(bytes: Seq<u8>, pos: int) -> int
    recommends
        item_complete(bytes, pos),
{
    let (data_len, header_len) = item_size(bytes, pos).unwrap();
    pos + header_len + data_len
}

/// Little-endian value of the `n` bytes at `pos`.
pub open spec fn le_value(bytes: Seq<u8>, pos: int, n: int) -> int
    decreases n,
{
    if n <= 0 {
        0
    } else {
        bytes[pos] as int + 256 * le_value(bytes, pos + 1, n - 1)
    }
}

/// The low sixteen bits of the data of the short item at `pos`.
pub open spec fn item_value(bytes: Seq<u8>, pos: int) -> u16
    recommends
        item_complete(bytes, pos),
        !is_long_item(bytes[pos]),
{
    (le_value(bytes, pos + 1, short_data_len(bytes[pos])) % 0x1_0000) as u16
}

/// What the scanner remembers between two items: the rolling usage page,
/// the usage that waits for its collection, and the number of collections
/// that are open.
pub struct ScanState {
    pub usage_page: u16,
    pub usage: Option<u16>,
    pub depth: nat,
}

/// The state before the first item.
pub open spec fn initial_state() -> ScanState {
    ScanState { usage_page: 0, usage: None, depth: 0 }
}

/// The state after the complete item at `pos`. Every main item uses up the
/// waiting usage; a collection opens one level, and the end of a collection
/// closes one, where one is open.
pub open spec fn state_after(bytes: Seq<u8>, pos: int, state: ScanState) -> ScanState
    recommends
        item_complete(bytes, pos),
{
    match item_kind(bytes[pos]) {
        ItemKind::UsagePage => ScanState { usage_page: item_value(bytes, pos), ..state },
        ItemKind::Usage => ScanState { usage: Some(item_value(bytes, pos)), ..state },
        ItemKind::Collection => ScanState { usage: None, depth: state.depth + 1, ..state },
        ItemKind::EndCollection => ScanState {
            usage: None,
            depth: if state.depth > 0 {
                (state.depth - 1) as nat
            } else {
                0
            },
            ..state
        },
        ItemKind::OtherMain => ScanState { usage: None, ..state },
        ItemKind::Other => state,
    }
}

/// The pair that the complete item at `pos` emits: a collection that no
/// other collection holds emits the usage page with the waiting usage,
/// where there is one.
pub open spec fn emitted(bytes: Seq<u8>, pos: int, state: ScanState) -> Option<(u16, u16)>
    recommends
        item_complete(bytes, pos),
{
    match (item_kind(bytes[pos]), state.usage) {
        (ItemKind::Collection, Some(usage)) if state.depth == 0 => Some((state.usage_page, usage)),
        _ => None,
    }
}

/// The pairs that the top-level collections from `pos` on emit, in order.
/// The walk ends at the end of `bytes` or before the first item that is cut
/// short.
pub open spec fn collection_pairs(bytes: Seq<u8>, pos: int, state: ScanState) -> Seq<(u16, u16)>
    decreases bytes.len() - pos,
{
    if !item_complete(bytes, pos) {
        Seq::empty()
    } else {
        let rest = collection_pairs(bytes, item_end(bytes, pos), state_after(bytes, pos, state));
        match emitted(bytes, pos, state) {
            Some(pair) => seq![pair] + rest,
            None => rest,
        }
    }
}

/// The state in which the walk from `pos` ends.
pub open spec fn final_state(bytes: Seq<u8>, pos: int, state: ScanState) -> ScanState
    decreases bytes.len() - pos,
{
    if !item_complete(bytes, pos) {
        state
    } else {
        final_state(bytes, item_end(bytes, pos), state_after(bytes, pos, state))
    }
}

/// The walk from `pos` passes a collection item.
pub open spec fn holds_collection(bytes: Seq<u8>, pos: int) -> bool
    decreases bytes.len() - pos,
{
    item_complete(bytes, pos) && (item_kind(bytes[pos]) == ItemKind::Collection
        || holds_collection(bytes, item_end(bytes, pos)))
}

/// From `pos` on, the items tile `bytes` exactly: none is cut short.
pub open spec fn well_formed_from(bytes: Seq<u8>, pos: int) -> bool
    decreases bytes.len() - pos,
{
    pos == bytes.len() || (item_complete(bytes, pos) && well_formed_from(
        bytes,
        item_end(bytes, pos),
    ))
}

/// A descriptor whose last item ends with its last byte.
pub open spec fn well_formed(bytes: Seq<u8>) -> bool {
    well_formed_from(bytes, 0)
}

/// The pair of a descriptor without collections: the usage that waits at
/// its end. A descriptor that holds a collection has none, and neither has
/// one whose last item is cut short.
pub open spec fn waiting_usage(bytes: Seq<u8>) -> Option<(u16, u16)> {
    let last = final_state(bytes, 0, initial_state());
    match last.usage {
        Some(usage) if well_formed(bytes) && !holds_collection(bytes, 0) => Some(
            (last.usage_page, usage),
        ),
        _ => None,
    }
}

/// The `(usage_page, usage_id)` pairs of a report descriptor: one for each
/// top-level collection that follows a usage; for a descriptor without
/// collections, the usage that waits at its end. An item that is cut short
/// ends the walk, and nothing is yielded behind it.
pub open spec fn usages_of(bytes: Seq<u8>) -> Seq<(u16, u16)> {
    let pairs = collection_pairs(bytes, 0, initial_state());
    if pairs.len() > 0 {
        pairs
    } else {
        match waiting_usage(bytes) {
            Some(pair) => seq![pair],
            None => Seq::empty(),
        }
    }
}

/// The state of a walk as the scanner holds it.
#[derive(Clone, Copy, Debug)]
struct Walk {
    usage_page: u16,
    usage: Option<u16>,
    depth: usize,
}

impl View for Walk {
    type V = ScanState;

    closed spec fn view(&self) -> ScanState {
        ScanState { usage_page: self.usage_page, usage: self.usage, depth: self.depth as nat }
    }
}

/// Where a walk has come to.
struct Step {
    /// The pair of the collection at which the walk stopped; `None` where
    /// it stopped at a cut item or at the end.
    pair: Option<(u16, u16)>,
    /// The position at which the walk goes on, or at which it ended.
    pos: usize,
    /// The state there.
    state: Walk,
    /// Whether the walk passed a collection.
    collection_seen: bool,
}

/// The raw bytes of a HID report descriptor.
pub struct HidrawReportDescriptor(Vec<u8>);

impl View for HidrawReportDescriptor {
    type V = Seq<u8>;

    closed spec fn view(&self) -> Seq<u8> {
        self.0@
    }
}

impl HidrawReportDescriptor {
    /// Keeps a copy of `value` as a descriptor. Every byte string is accepted.
    pub fn from_slice(value: &[u8]) -> (r: HidResult<Self>)
        ensures
            r matches Ok(descriptor) && descriptor@ == value@,
    {
        Ok(HidrawReportDescriptor(slice_to_vec(value)))
    }

    /// The raw bytes.
    pub fn as_bytes(&self) -> (bytes: &[u8])
        ensures
            bytes@ == self@,
    {
        self.0.as_slice()
    }

    /// The `(usage_page, usage_id)` pairs of the descriptor, in the order of
    /// its top-level collections. Any bytes are taken: what is malformed
    /// yields fewer pairs.
    pub fn usages(&self) -> (pairs: Vec<(u16, u16)>)
        ensures
            pairs@ == usages_of(self@),
    {
        let bytes = self.0.as_slice();
        let mut pairs: Vec<(u16, u16)> = Vec::new();
        let mut pos: usize = 0;
        let mut state = Walk { usage_page: 0, usage: None, depth: 0 };
        let mut reached_end = false;
        let mut collection_seen = false;
        loop
            invariant_except_break
                pos <= bytes@.len(),
                state.depth <= pos,
                pairs@.len() == 0 ==> pos == 0 && state@ == initial_state(),
                pairs@ + collection_pairs(bytes@, pos as int, state@) == collection_pairs(
                    bytes@,
                    0,
                    initial_state(),
                ),
                final_state(bytes@, pos as int, state@) == final_state(bytes@, 0, initial_state()),
            invariant
                bytes@ == self@,
            ensures
                pairs@ == collection_pairs(bytes@, 0, initial_state()),
                state@ == final_state(bytes@, 0, initial_state()),
                pairs@.len() == 0 ==> reached_end == well_formed(bytes@) && collection_seen
                    == holds_collection(bytes@, 0),
            decreases bytes@.len() - pos,
        {
            let step = next_hid_usage(bytes, pos, state);
            match step.pair {
                Some(pair) => {
                    proof {
                        assert(pairs@.push(pair) + collection_pairs(
                            bytes@,
                            step.pos as int,
                            step.state@,
                        ) =~= pairs@ + (seq![pair] + collection_pairs(
                            bytes@,
                            step.pos as int,
                            step.state@,
                        )));
                    }
                    pairs.push(pair);
                    pos = step.pos;
                    state = step.state;
                },
                None => {
                    proof {
                        assert(pairs@ + Seq::<(u16, u16)>::empty() =~= pairs@);
                    }
                    state = step.state;
                    reached_end = step.pos == bytes.len();
                    collection_seen = step.collection_seen;
                    break ;
                },
            }
        }
        if pairs.len() == 0 && reached_end && !collection_seen {
            if let Some(usage) = state.usage {
                pairs.push((state.usage_page, usage));
            }
        }
        pairs
    }
}

/// Data length and header length of the item at `pos`; `None` where a long
/// item lacks the byte that holds its length.
fn hid_item_size(bytes: &[u8], pos: usize) -> (r: Option<(usize, usize)>)
    requires
        pos < bytes@.len(),
    ensures
        match item_size(bytes@, pos as int) {
            Some((data_len, header_len)) => r == Some((data_len as usize, header_len as usize))
                && 0 <= data_len <= 255 && 1 <= header_len <= 3 && (!is_long_item(
                bytes@[pos as int],
            ) ==> data_len <= 4),
            None => r is None,
        },
{
    let key = bytes[pos];
    if key & 0xf0 == 0xf0 {
        if bytes.len() - pos > 1 {
            return Some((bytes[pos + 1] as usize, 3));
        }
        return None;
    }
    let code: u8 = key & 0x03;
    assert(code <= 3) by (bit_vector)
        requires
            code == key & 0x03,
    ;
    if code == 3 {
        Some((4, 1))
    } else {
        Some((code as usize, 1))
    }
}

/// Little-endian value of the `num_bytes` bytes at `pos`; `None` where fewer
/// bytes are left.
fn hid_report_bytes(bytes: &[u8], pos: usize, num_bytes: usize) -> (r: Option<u32>)
    requires
        pos <= bytes@.len(),
        num_bytes <= 4,
    ensures
        r is Some <==> pos + num_bytes <= bytes@.len(),
        r matches Some(value) ==> value == le_value(bytes@, pos as int, num_bytes as int),
{
    let len = bytes.len();
    if num_bytes > len - pos {
        return None;
    }
    let mut value: u32 = 0;
    let mut i: usize = num_bytes;
    while i > 0
        invariant
            i <= num_bytes <= 4,
            len == bytes@.len(),
            pos + num_bytes <= len,
            value == le_value(bytes@, pos + i, num_bytes - i),
            num_bytes - i == 0 ==> value == 0,
            num_bytes - i == 1 ==> value < 0x100,
            num_bytes - i == 2 ==> value < 0x1_0000,
            num_bytes - i == 3 ==> value < 0x100_0000,
        decreases i,
    {
        i = i - 1;
        value = bytes[pos + i] as u32 + 256 * value;
    }
    Some(value)
}

/// Walks the items from `pos` up to the next top-level collection that
/// emits a pair. Returns the pair with the position and the state behind
/// that collection; or no pair, with the state in which the walk ended and
/// the position at which it did: that of an item that is cut short, or the
/// end of the bytes.
fn next_hid_usage(bytes: &[u8], pos: usize, state: Walk) -> (r: Step)
    requires
        pos <= bytes@.len(),
        state.depth <= pos,
    ensures
        r.pos <= bytes@.len(),
        r.state.depth <= r.pos,
        match r.pair {
            Some(pair) => {
                &&& pos < r.pos
                &&& collection_pairs(bytes@, pos as int, state@) == seq![pair] + collection_pairs(
                    bytes@,
                    r.pos as int,
                    r.state@,
                )
                &&& final_state(bytes@, pos as int, state@) == final_state(
                    bytes@,
                    r.pos as int,
                    r.state@,
                )
            },
            None => {
                &&& collection_pairs(bytes@, pos as int, state@) == Seq::<(u16, u16)>::empty()
                &&& final_state(bytes@, pos as int, state@) == r.state@
                &&& (r.pos == bytes@.len()) == well_formed_from(bytes@, pos as int)
                &&& r.collection_seen == holds_collection(bytes@, pos as int)
            },
        },
{
    let mut cur: usize = pos;
    let mut walk = state;
    let mut collection_seen = false;
    while cur < bytes.len()
        invariant
            pos <= cur <= bytes@.len(),
            walk.depth <= cur,
            collection_pairs(bytes@, pos as int, state@) == collection_pairs(
                bytes@,
                cur as int,
                walk@,
            ),
            final_state(bytes@, pos as int, state@) == final_state(bytes@, cur as int, walk@),
            well_formed_from(bytes@, pos as int) == well_formed_from(bytes@, cur as int),
            holds_collection(bytes@, pos as int) == (collection_seen || holds_collection(
                bytes@,
                cur as int,
            )),
        decreases bytes@.len() - cur,
    {
        let key = bytes[cur];
        let key_cmd: u8 = key & 0xfc;
        let (data_len, header_len) = match hid_item_size(bytes, cur) {
            Some(size) => size,
            None => {
                return Step { pair: None, pos: cur, state: walk, collection_seen };
            },
        };
        if data_len + header_len > bytes.len() - cur {
            return Step { pair: None, pos: cur, state: walk, collection_seen };
        }
        let next: usize = cur + header_len + data_len;
        let before = walk;
        let mut pair: Option<(u16, u16)> = None;
        if key_cmd == 0x04 || key_cmd == 0x08 {
            assert(key & 0xf0 != 0xf0) by (bit_vector)
                requires
                    key & 0xfc == 0x04 || key & 0xfc == 0x08,
            ;
            let value = match hid_report_bytes(bytes, cur + 1, data_len) {
                Some(v) => (v % 0x1_0000) as u16,
                None => {
                    return Step { pair: None, pos: cur, state: walk, collection_seen };
                },
            };
            if key_cmd == 0x04 {
                walk.usage_page = value;
            } else {
                walk.usage = Some(value);
            }
        } else if key_cmd == 0xa0 {
            if walk.depth == 0 {
                if let Some(usage) = walk.usage {
                    pair = Some((walk.usage_page, usage));
                }
            }
            walk.usage = None;
            walk.depth = walk.depth + 1;
            collection_seen = true;
        } else if key_cmd == 0xc0 {
            walk.usage = None;
            if walk.depth > 0 {
                walk.depth = walk.depth - 1;
            }
        } else if key_cmd == 0x80 || key_cmd == 0x90 || key_cmd == 0xb0 {
            walk.usage = None;
        }
        assert(walk@ == state_after(bytes@, cur as int, before@));
        assert(pair == emitted(bytes@, cur as int, before@));
        cur = next;
        if let Some(p) = pair {
            return Step { pair: Some(p), pos: cur, state: walk, collection_seen };
        }
    }
    Step { pair: None, pos: cur, state: walk, collection_seen }
}

/// A well-formed descriptor that stands on its own: it names its usage page
/// first, at least one of its collections emits a pair, every collection
/// that it opens is closed again, and no usage is left waiting behind its
/// last item.
pub open spec fn is_top_level_collection(bytes: Seq<u8>) -> bool {
    &&& well_formed(bytes)
    &&& bytes.len() > 0
    &&& item_kind(bytes[0]) == ItemKind::UsagePage
    &&& collection_pairs(bytes, 0, initial_state()).len() > 0
    &&& final_state(bytes, 0, initial_state()).usage is None
    &&& final_state(bytes, 0, initial_state()).depth == 0
}

proof fn lemma_le_value_prefix(a: Seq<u8>, b: Seq<u8>, pos: int, n: int)
    requires
        0 <= pos,
        0 <= n,
        pos + n <= a.len(),
    ensures
        le_value(a + b, pos, n) == le_value(a, pos, n),
    decreases n,
{
    if n > 0 {
        lemma_le_value_prefix(a, b, pos + 1, n - 1);
    }
}

proof fn lemma_le_value_suffix(a: Seq<u8>, b: Seq<u8>, pos: int, n: int)
    requires
        0 <= pos,
        0 <= n,
        pos + n <= b.len(),
    ensures
        le_value(a + b, a.len() + pos, n) == le_value(b, pos, n),
    decreases n,
{
    if n > 0 {
        lemma_le_value_suffix(a, b, pos + 1, n - 1);
    }
}

proof fn lemma_short_data_len_bound(key: u8)
    ensures
        0 <= short_data_len(key) <= 4,
{
    let code = key & 0x03;
    assert(code <= 3) by (bit_vector)
        requires
            code == key & 0x03,
    ;
}

proof fn lemma_kind_of_long_item(key: u8)
    requires
        is_long_item(key),
    ensures
        item_kind(key) == ItemKind::Other,
{
    let tag = key & 0xfc;
    assert(tag != 0x04 && tag != 0x08 && tag != 0xa0 && tag != 0x80 && tag != 0x90 && tag != 0xb0
        && tag != 0xc0) by (bit_vector)
        requires
            key & 0xf0 == 0xf0,
            tag == key & 0xfc,
    ;
}

/// A complete item of `a` reads the same inside `a + b`.
proof fn lemma_item_prefix(a: Seq<u8>, b: Seq<u8>, pos: int, state: ScanState)
    requires
        item_complete(a, pos),
    ensures
        item_complete(a + b, pos),
        item_end(a + b, pos) == item_end(a, pos),
        state_after(a + b, pos, state) == state_after(a, pos, state),
        emitted(a + b, pos, state) == emitted(a, pos, state),
{
    let key = a[pos];
    assert((a + b)[pos] == key);
    if is_long_item(key) {
        assert((a + b)[pos + 1] == a[pos + 1]);
        lemma_kind_of_long_item(key);
    } else {
        lemma_short_data_len_bound(key);
        lemma_le_value_prefix(a, b, pos + 1, short_data_len(key));
    }
}

/// The item at `pos` of `b` reads the same behind `a`.
proof fn lemma_item_suffix(a: Seq<u8>, b: Seq<u8>, pos: int, state: ScanState)
    requires
        0 <= pos,
    ensures
        item_complete(a + b, a.len() + pos) == item_complete(b, pos),
        item_complete(b, pos) ==> {
            &&& item_end(a + b, a.len() + pos) == a.len() + item_end(b, pos)
            &&& state_after(a + b, a.len() + pos, state) == state_after(b, pos, state)
            &&& emitted(a + b, a.len() + pos, state) == emitted(b, pos, state)
        },
{
    if pos < b.len() {
        let key = b[pos];
        assert((a + b)[a.len() + pos] == key);
        if is_long_item(key) {
            if pos + 1 < b.len() {
                assert((a + b)[a.len() + pos + 1] == b[pos + 1]);
            }
            lemma_kind_of_long_item(key);
        } else {
            lemma_short_data_len_bound(key);
            if item_complete(b, pos) {
                lemma_le_value_suffix(a, b, pos + 1, short_data_len(key));
            }
        }
    }
}

proof fn lemma_item_end_grows(bytes: Seq<u8>, pos: int)
    requires
        item_complete(bytes, pos),
    ensures
        pos < item_end(bytes, pos) <= bytes.len(),
{
    if !is_long_item(bytes[pos]) {
        lemma_short_data_len_bound(bytes[pos]);
    }
}

/// Behind `a`, the walk over `a + b` is the walk over `b`.
pub proof fn lemma_scan_suffix(a: Seq<u8>, b: Seq<u8>, pos: int, state: ScanState)
    requires
        0 <= pos,
    ensures
        collection_pairs(a + b, a.len() + pos, state) == collection_pairs(b, pos, state),
        final_state(a + b, a.len() + pos, state) == final_state(b, pos, state),
        well_formed_from(a + b, a.len() + pos) == well_formed_from(b, pos),
    decreases b.len() - pos,
{
    lemma_item_suffix(a, b, pos, state);
    if item_complete(b, pos) {
        lemma_item_end_grows(b, pos);
        lemma_scan_suffix(a, b, item_end(b, pos), state_after(b, pos, state));
    }
}

/// The walk over `a + b` is the walk over a well-formed `a`, followed by the
/// walk over `b` from the state in which `a` ends.
pub proof fn lemma_scan_concat(a: Seq<u8>, b: Seq<u8>, pos: int, state: ScanState)
    requires
        0 <= pos <= a.len(),
        well_formed_from(a, pos),
    ensures
        collection_pairs(a + b, pos, state) == collection_pairs(a, pos, state) + collection_pairs(
            b,
            0,
            final_state(a, pos, state),
        ),
        final_state(a + b, pos, state) == final_state(b, 0, final_state(a, pos, state)),
        well_formed_from(a + b, pos) == well_formed_from(b, 0),
    decreases a.len() - pos,
{
    if pos == a.len() {
        lemma_scan_suffix(a, b, 0, state);
        assert(collection_pairs(a, pos, state) =~= Seq::<(u16, u16)>::empty());
        assert(Seq::<(u16, u16)>::empty() + collection_pairs(b, 0, state) =~= collection_pairs(
            b,
            0,
            state,
        ));
    } else {
        lemma_item_prefix(a, b, pos, state);
        lemma_item_end_grows(a, pos);
        let next = item_end(a, pos);
        let after = state_after(a, pos, state);
        lemma_scan_concat(a, b, next, after);
        let tail = collection_pairs(b, 0, final_state(a, pos, state));
        match emitted(a, pos, state) {
            Some(pair) => {
                assert(seq![pair] + (collection_pairs(a, next, after) + tail) =~= (seq![pair]
                    + collection_pairs(a, next, after)) + tail);
            },
            None => {},
        }
    }
}

/// The pairs of a descriptor that names its usage page first, and into which
/// no usage and no open collection is carried, do not depend on the usage
/// page before it.
proof fn lemma_own_usage_page(bytes: Seq<u8>, usage_page: u16)
    requires
        bytes.len() > 0,
        item_kind(bytes[0]) == ItemKind::UsagePage,
    ensures
        collection_pairs(bytes, 0, ScanState { usage_page, usage: None, depth: 0 })
            == collection_pairs(bytes, 0, initial_state()),
{
}

/// Two well-formed top-level collections, one behind the other, yield the
/// pairs of the first and then the pairs of the second.
pub proof fn lemma_concatenation_yields_both(a: Seq<u8>, b: Seq<u8>)
    requires
        is_top_level_collection(a),
        is_top_level_collection(b),
    ensures
        usages_of(a + b) == usages_of(a) + usages_of(b),
{
    lemma_scan_concat(a, b, 0, initial_state());
    let end_of_a = final_state(a, 0, initial_state());
    assert(end_of_a == ScanState { usage_page: end_of_a.usage_page, usage: None, depth: 0 });
    lemma_own_usage_page(b, end_of_a.usage_page);
}

/// An item that is cut short ends the walk, and nothing is yielded for it
/// or behind it: behind a well-formed descriptor `a`, the bytes `t` of such
/// an item leave the pairs of the collections of `a`, and no more.
pub proof fn lemma_truncated_item_adds_nothing(a: Seq<u8>, t: Seq<u8>)
    requires
        well_formed(a),
        t.len() > 0,
        !item_complete(t, 0),
    ensures
        usages_of(a + t) == collection_pairs(a, 0, initial_state()),
{
    lemma_scan_concat(a, t, 0, initial_state());
    assert(collection_pairs(a, 0, initial_state()) + Seq::<(u16, u16)>::empty()
        =~= collection_pairs(a, 0, initial_state()));
    assert(!well_formed_from(t, 0));
}

/// A descriptor whose walk ends at an item that is cut short yields the
/// pairs of its collections and nothing else: no usage that waits is
/// yielded behind the cut.
pub proof fn lemma_nothing_follows_a_cut_item(bytes: Seq<u8>)
    requires
        !well_formed(bytes),
    ensures
        usages_of(bytes) == collection_pairs(bytes, 0, initial_state()),
{
    assert(waiting_usage(bytes) is None);
    let pairs = collection_pairs(bytes, 0, initial_state());
    if pairs.len() == 0 {
        assert(pairs =~= Seq::<(u16, u16)>::empty());
    }
}

/// A collection inside another one yields no pair of its own.
pub proof fn lemma_nested_collection_is_silent(bytes: Seq<u8>, pos: int, state: ScanState)
    requires
        item_complete(bytes, pos),
        state.depth > 0,
    ensures
        emitted(bytes, pos, state) is None,
{
}

} // verus!
