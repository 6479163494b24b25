//! Byte-level ASCII helpers: case folding for header-name comparison and the
//! visible-ASCII test that decides whether a header value decodes as text.

use vstd::prelude::*;

verus! {

/// ASCII lower-casing of one byte: `A`..`Z` map to `a`..`z`, all else is kept.
pub open spec fn spec_lower_byte(b: u8) -> u8 {
    if 65 <= b && b <= 90 {
        (b + 32) as u8
    } else {
        b
    }
}

/// Two byte sequences are equal up to ASCII case.
pub open spec fn eq_ignore_case(a: Seq<u8>, b: Seq<u8>) -> bool {
    a.len() == b.len() && forall|i: int| 0 <= i < a.len() ==> spec_lower_byte(a[i]) == spec_lower_byte(b[i])
}

/// A byte that may appear in a header value that decodes as text:
/// visible ASCII, space, or horizontal tab.
pub open spec fn is_visible_ascii(b: u8) -> bool {
    32 <= b && b < 127 || b == 9
}

/// Every byte of the sequence decodes as text.
pub open spec fn all_visible_ascii(s: Seq<u8>) -> bool {
    forall|i: int| 0 <= i < s.len() ==> is_visible_ascii(s[i])
}

pub fn lower_byte(b: u8) -> (r: u8)
    ensures
        r == spec_lower_byte(b),
{
    if 65 <= b && b <= 90 {
        b + 32
    } else {
        b
    }
}

pub fn bytes_eq_ignore_case(a: &[u8], b: &[u8]) -> (r: bool)
    ensures
        r == eq_ignore_case(a@, b@),
{
    if a.len() != b.len() {
        return false;
    }
    let n = a.len();
    let mut i: usize = 0;
    while i < n
        invariant
            n == a@.len() == b@.len(),
            i <= n,
            forall|j: int| 0 <= j < i ==> spec_lower_byte(a@[j]) == spec_lower_byte(b@[j]),
        decreases n - i,
    {
        if lower_byte(a[i]) != lower_byte(b[i]) {
            return false;
        }
        i = i + 1;
    }
    true
}

pub fn bytes_all_visible_ascii(s: &[u8]) -> (r: bool)
    ensures
        r == all_visible_ascii(s@),
{
    let n = s.len();
    let mut i: usize = 0;
    while i < n
        invariant
            n == s@.len(),
            i <= n,
            forall|j: int| 0 <= j < i ==> is_visible_ascii(s@[j]),
        decreases n - i,
    {
        let b = s[i];
        if !(32 <= b && b < 127 || b == 9) {
            return false;
        }
        i = i + 1;
    }
    true
}

} // verus!
