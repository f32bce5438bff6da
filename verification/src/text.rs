//! Small byte-string routines: searching, comparing without regard to ASCII
//! case, and telling text from opaque bytes.

use vstd::prelude::*;
use vstd::string::StringSliceAdditionalSpecFns;
use vstd::utf8::{encode_utf8_decode_utf8, valid_utf8};

verus! {

/// `core::str::Utf8Error`, what `core::str::from_utf8` returns for bytes
/// that are no UTF-8.
#[verifier::external_type_specification]
#[verifier::external_body]
pub struct ExUtf8Error(core::str::Utf8Error);

/// `core::str::from_utf8`: reads bytes as text. It succeeds exactly on
/// well-formed UTF-8, and the text it returns is those same bytes.
#[verifier::external_body]
pub(crate) fn as_text(bytes: &[u8]) -> (r: Result<&str, core::str::Utf8Error>)
    ensures
        r is Ok <==> valid_utf8(bytes@),
        r is Ok ==> r->Ok_0.spec_bytes() == bytes@,
{
    core::str::from_utf8(bytes)
}

/// Whether `needle` stands in `hay` at offset `i`.
pub open spec fn occurs_at(hay: Seq<u8>, needle: Seq<u8>, i: int) -> bool {
    0 <= i && i + needle.len() <= hay.len() && hay.subrange(i, i + needle.len()) == needle
}

/// Whether `needle` stands somewhere in `hay`.
pub open spec fn contains_bytes(hay: Seq<u8>, needle: Seq<u8>) -> bool {
    exists|i: int| occurs_at(hay, needle, i)
}

/// A byte with an ASCII capital letter turned into its small letter.
pub open spec fn lower_byte(b: u8) -> u8 {
    if 65 <= b && b <= 90 {
        (b + 32) as u8
    } else {
        b
    }
}

/// A byte string with every ASCII capital letter turned into its small
/// letter.
pub open spec fn lower_bytes(s: Seq<u8>) -> Seq<u8> {
    s.map_values(|b: u8| lower_byte(b))
}

/// A byte that may stand in a header value that reads as text: printable
/// ASCII, space or tab.
pub open spec fn is_visible_ascii(b: u8) -> bool {
    (32 <= b && b < 127) || b == 9
}

/// Whether every byte of `s` is visible ASCII.
pub open spec fn all_visible_ascii(s: Seq<u8>) -> bool {
    forall|i: int| 0 <= i < s.len() ==> is_visible_ascii(#[trigger] s[i])
}

/// Tells whether `needle` stands in `hay` at offset `at`.
pub fn starts_at(hay: &[u8], needle: &[u8], at: usize) -> (found: bool)
    requires
        at + needle@.len() <= hay@.len(),
    ensures
        found == occurs_at(hay@, needle@, at as int),
{
    let h: usize = hay.len();
    let n: usize = needle.len();
    let mut k: usize = 0;
    while k < n
        invariant
            k <= n,
            n == needle@.len(),
            h == hay@.len(),
            at + n <= h,
            forall|j: int| 0 <= j < k ==> hay@[at + j] == needle@[j],
        decreases n - k,
    {
        if hay[at + k] != needle[k] {
            proof {
                let window = hay@.subrange(at as int, at + n);
                assert(window[k as int] == hay@[at + k]);
            }
            return false;
        }
        k = k + 1;
    }
    assert(hay@.subrange(at as int, at + n) =~= needle@);
    true
}

/// Tells whether `needle` stands somewhere in `hay`. The empty needle
/// stands in every text.
pub fn contains(hay: &[u8], needle: &[u8]) -> (found: bool)
    ensures
        found == contains_bytes(hay@, needle@),
{
    let h: usize = hay.len();
    let n: usize = needle.len();
    if n > h {
        assert(forall|i: int| !occurs_at(hay@, needle@, i));
        return false;
    }
    let last: usize = h - n;
    let mut i: usize = 0;
    while i < last
        invariant
            i <= last,
            last == h - n,
            h == hay@.len(),
            n == needle@.len(),
            n <= h,
            forall|j: int| 0 <= j < i ==> !occurs_at(hay@, needle@, j),
        decreases last - i,
    {
        if starts_at(hay, needle, i) {
            return true;
        }
        i = i + 1;
    }
    let found = starts_at(hay, needle, last);
    assert(!found ==> forall|j: int| !occurs_at(hay@, needle@, j));
    found
}

/// Turns an ASCII capital letter into its small letter and leaves every
/// other byte alone.
pub fn to_lower(b: u8) -> (l: u8)
    ensures
        l == lower_byte(b),
{
    if 65 <= b && b <= 90 {
        b + 32
    } else {
        b
    }
}

/// Tells whether two byte strings are equal once ASCII capitals are read
/// as small letters.
pub fn eq_ignore_ascii_case(a: &[u8], b: &[u8]) -> (same: bool)
    ensures
        same == (lower_bytes(a@) == lower_bytes(b@)),
{
    let n: usize = a.len();
    if n != b.len() {
        assert(lower_bytes(a@).len() != lower_bytes(b@).len());
        return false;
    }
    let mut k: usize = 0;
    while k < n
        invariant
            k <= n,
            n == a@.len(),
            n == b@.len(),
            forall|j: int| 0 <= j < k ==> lower_byte(a@[j]) == lower_byte(b@[j]),
        decreases n - k,
    {
        if to_lower(a[k]) != to_lower(b[k]) {
            assert(lower_bytes(a@)[k as int] != lower_bytes(b@)[k as int]);
            return false;
        }
        k = k + 1;
    }
    assert(lower_bytes(a@) =~= lower_bytes(b@));
    true
}

/// Tells whether every byte of `s` is printable ASCII, space or tab.
pub fn is_visible_text(s: &[u8]) -> (ok: bool)
    ensures
        ok == all_visible_ascii(s@),
{
    let n: usize = s.len();
    let mut k: usize = 0;
    while k < n
        invariant
            k <= n,
            n == s@.len(),
            forall|j: int| 0 <= j < k ==> is_visible_ascii(#[trigger] s@[j]),
        decreases n - k,
    {
        let b: u8 = s[k];
        if !((32 <= b && b < 127) || b == 9) {
            return false;
        }
        k = k + 1;
    }
    true
}

/// Tells whether two byte strings are the same.
pub fn same_bytes(a: &[u8], b: &[u8]) -> (same: bool)
    ensures
        same == (a@ == b@),
{
    if a.len() != b.len() {
        return false;
    }
    let same = starts_at(a, b, 0);
    assert(a@.subrange(0, a@.len() as int) =~= a@);
    same
}

/// Tells whether two texts are the same.
pub fn same_text(a: &str, b: &str) -> (same: bool)
    ensures
        same == (a@ == b@),
{
    proof {
        encode_utf8_decode_utf8(a@);
        encode_utf8_decode_utf8(b@);
    }
    same_bytes(a.as_bytes(), b.as_bytes())
}

} // verus!
