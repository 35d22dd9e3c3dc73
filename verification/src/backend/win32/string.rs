//! Strings of UTF-16 code units that end with a NUL, as the Windows API
//! hands them out, one by one or as a list.

use vstd::prelude::*;
use vstd::slice::{slice_subrange, slice_to_vec};

use crate::device_info::{DeviceId, DeviceIdView};

verus! {

/// The code unit that ends a string.
pub const NUL: u16 = 0;

/// Whether `c` is the NUL code unit.
pub fn is_null(c: &u16) -> (r: bool)
    ensures
        r == (*c == NUL),
{
    *c == 0
}

/// Index of the first NUL in `s[from..)`, or the length of `s`.
pub open spec fn find_nul(s: Seq<u16>, from: int) -> int
    decreases s.len() - from,
{
    if from < 0 || from >= s.len() {
        s.len() as int
    } else if s[from] == NUL {
        from
    } else {
        find_nul(s, from + 1)
    }
}

/// `s` has a last code unit, and that is a NUL.
pub open spec fn is_null_terminated(s: Seq<u16>) -> bool {
    s.len() > 0 && s.last() == NUL
}

/// A borrowed string of UTF-16 code units, with the NUL that ends it.
#[derive(Debug, PartialEq, Eq, Hash, Clone, Copy)]
pub struct U16Str<'a> {
    units: &'a [u16],
}

impl<'a> U16Str<'a> {
    #[verifier::type_invariant]
    spec fn terminated(self) -> bool {
        is_null_terminated(self.units@)
    }

    /// All code units, the terminator among them.
    pub closed spec fn units(self) -> Seq<u16> {
        self.units@
    }

    /// The code units before the terminator.
    pub open spec fn text(self) -> Seq<u16> {
        self.units().drop_last()
    }

    /// The string that `slice` holds. The slice has to end with a NUL.
    pub fn from_slice(slice: &'a [u16]) -> (s: Self)
        requires
            is_null_terminated(slice@),
        ensures
            s.units() == slice@,
    {
        U16Str { units: slice }
    }

    /// The code units before the terminator.
    pub fn as_slice(&self) -> (slice: &'a [u16])
        ensures
            slice@ == self.text(),
    {
        proof {
            use_type_invariant(self);
        }
        slice_subrange(self.units, 0, self.units.len() - 1)
    }

    /// The identifier of the device interface that this path names.
    pub fn to_device_id(&self) -> (id: DeviceId)
        ensures
            id@ == DeviceIdView::UncPath(self.text()),
    {
        DeviceId::UncPath(slice_to_vec(self.as_slice()))
    }

    /// An owned copy.
    pub fn to_owned(&self) -> (owned: U16String)
        ensures
            owned.units() == self.units(),
    {
        proof {
            use_type_invariant(self);
        }
        U16String { units: slice_to_vec(self.units) }
    }

    /// The text of the string, where its code units are well-formed UTF-16.
    pub fn to_string(&self) -> (text: Option<String>)
        ensures
            match utf16_text(self.text()) {
                Some(chars) => text is Some && text->0@ == chars,
                None => text is None,
            },
    {
        string_from_utf16(self.as_slice())
    }

    /// The strings that lie in `slice` one behind the other, each with its
    /// terminator. A slice that is not empty has to end with a NUL.
    pub fn from_slice_list(slice: &'a [u16]) -> (list: Vec<U16Str<'a>>)
        requires
            slice@.len() == 0 || is_null_terminated(slice@),
        ensures
            units_of(list@) == pieces(slice@, 0),
    {
        let len = slice.len();
        let mut list: Vec<U16Str<'a>> = Vec::new();
        let mut from: usize = 0;
        assert(units_of(list@) =~= Seq::<Seq<u16>>::empty());
        while from < len
            invariant
                from <= len,
                len == slice@.len(),
                len == 0 || is_null_terminated(slice@),
                units_of(list@) + pieces(slice@, from as int) == pieces(slice@, 0),
            decreases len - from,
        {
            let mut nul: usize = from;
            while slice[nul] != 0
                invariant
                    from <= nul < len,
                    len == slice@.len(),
                    is_null_terminated(slice@),
                    find_nul(slice@, from as int) == find_nul(slice@, nul as int),
                decreases len - nul,
            {
                nul = nul + 1;
            }
            let ghost before = units_of(list@);
            let ghost piece = slice@.subrange(from as int, nul + 1);
            let ghost rest = pieces(slice@, nul + 1);
            list.push(U16Str::from_slice(slice_subrange(slice, from, nul + 1)));
            assert(units_of(list@) =~= before.push(piece));
            assert(units_of(list@) + rest =~= before + (seq![piece] + rest));
            from = nul + 1;
        }
        assert(units_of(list@) + Seq::<Seq<u16>>::empty() =~= units_of(list@));
        list
    }
}

/// The code units of the strings of a list, terminators among them.
pub open spec fn units_of(list: Seq<U16Str<'_>>) -> Seq<Seq<u16>> {
    Seq::new(list.len(), |i: int| list[i].units())
}

/// The pieces of `s` from `from` on: each runs up to its NUL and holds it;
/// what stands behind the last NUL is a piece without one.
pub open spec fn pieces(s: Seq<u16>, from: int) -> Seq<Seq<u16>>
    decreases s.len() - from,
{
    if from < 0 || from >= s.len() {
        Seq::empty()
    } else {
        let nul = find_nul(s, from);
        if from <= nul < s.len() {
            seq![s.subrange(from, nul + 1)] + pieces(s, nul + 1)
        } else {
            seq![s.subrange(from, s.len() as int)]
        }
    }
}

/// The text that UTF-16 code units encode, where they are well-formed.
pub uninterp spec fn utf16_text(units: Seq<u16>) -> Option<Seq<char>>;

/// The text that UTF-16 code units encode, with the replacement character
/// in place of what is not well-formed.
pub uninterp spec fn utf16_lossy_text(units: Seq<u16>) -> Seq<char>;

/// `String::from_utf16`: the text of `units`, and `None` where they are not
/// well-formed UTF-16.
#[verifier::external_body]
fn string_from_utf16(units: &[u16]) -> (text: Option<String>)
    ensures
        match utf16_text(units@) {
            Some(chars) => text is Some && text->0@ == chars,
            None => text is None,
        },
{
    String::from_utf16(units).ok()
}

/// `String::from_utf16_lossy`: the text of `units`, with the replacement
/// character for every unit that belongs to no well-formed pair.
#[verifier::external_body]
fn string_from_utf16_lossy(units: &[u16]) -> (text: String)
    ensures
        text@ == utf16_lossy_text(units@),
{
    String::from_utf16_lossy(units)
}

/// The text in a buffer that the device filled with a string: the code
/// units before the first NUL, or all of them where there is none.
pub fn read_string(buffer: &[u16]) -> (text: String)
    ensures
        text@ == utf16_lossy_text(buffer@.subrange(0, find_nul(buffer@, 0))),
{
    let len = buffer.len();
    let mut nul: usize = 0;
    while nul < len && buffer[nul] != 0
        invariant
            nul <= len,
            len == buffer@.len(),
            find_nul(buffer@, 0) == find_nul(buffer@, nul as int),
        decreases len - nul,
    {
        nul = nul + 1;
    }
    string_from_utf16_lossy(slice_subrange(buffer, 0, nul))
}

/// An owned string of UTF-16 code units, with the NUL that ends it.
#[derive(Debug, PartialEq, Eq, Hash)]
pub struct U16String {
    units: Vec<u16>,
}

impl U16String {
    #[verifier::type_invariant]
    spec fn terminated(self) -> bool {
        is_null_terminated(self.units@)
    }

    /// All code units, the terminator among them.
    pub closed spec fn units(self) -> Seq<u16> {
        self.units@
    }

    /// The string, borrowed.
    pub fn as_u16_str(&self) -> (s: U16Str<'_>)
        ensures
            s.units() == self.units(),
    {
        proof {
            use_type_invariant(self);
        }
        U16Str::from_slice(self.units.as_slice())
    }
}

/// The list is not empty, and what stands before its last code unit is
/// empty or ends with a NUL.
pub open spec fn is_string_list(s: Seq<u16>) -> bool {
    s.len() > 0 && (s.len() == 1 || s[s.len() - 2] == NUL)
}

/// A list of strings as the system returns it: the strings one behind the
/// other, each with its terminator, and one more code unit that ends the
/// list.
#[derive(Debug)]
pub struct U16StringList {
    units: Vec<u16>,
}

impl U16StringList {
    #[verifier::type_invariant]
    spec fn listed(self) -> bool {
        is_string_list(self.units@)
    }

    /// All code units of the list.
    pub closed spec fn units(self) -> Seq<u16> {
        self.units@
    }

    /// The list that `vec` holds, which has to have the form of a list.
    pub fn from_vec_unchecked(vec: Vec<u16>) -> (list: Self)
        requires
            is_string_list(vec@),
        ensures
            list.units() == vec@,
    {
        U16StringList { units: vec }
    }

    /// The list that `vec` holds, where it has the form of a list.
    pub fn from_vec(vec: Vec<u16>) -> (list: Option<Self>)
        ensures
            list is Some <==> is_string_list(vec@),
            list is Some ==> list->0.units() == vec@,
    {
        let len = vec.len();
        if len > 0 && (len == 1 || vec[len - 2] == 0) {
            Some(U16StringList { units: vec })
        } else {
            None
        }
    }

    /// The strings of the list, in order.
    pub fn iter(&self) -> (list: Vec<U16Str<'_>>)
        ensures
            units_of(list@) == pieces(self.units().drop_last(), 0),
    {
        proof {
            use_type_invariant(self);
        }
        let len = self.units.len() - 1;
        assert(self.units@.subrange(0, len as int) =~= self.units@.drop_last());
        U16Str::from_slice_list(slice_subrange(self.units.as_slice(), 0, len))
    }
}

} // verus!
