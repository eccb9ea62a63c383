//! Byte-level helpers shared by the registry and the classifier.
use vstd::prelude::*;
use vstd::string::StringSliceAdditionalSpecFns;

verus! {

/// ASCII whitespace: space, tab, line feed, vertical tab, form feed, carriage return.
pub open spec fn is_ws(b: u8) -> bool {
    b == 32u8 || (9u8 <= b && b <= 13u8)
}

pub open spec fn is_newline(b: u8) -> bool {
    b == 10u8
}

/// The bytes of a string, in UTF-8.
pub open spec fn bytes_of(s: &str) -> Seq<u8> {
    s.spec_bytes()
}

pub open spec fn starts_with(s: Seq<u8>, p: Seq<u8>) -> bool {
    p.len() <= s.len() && s.subrange(0, p.len() as int) == p
}

/// A delimiter that the classifier can act on: non-empty, not starting with
/// whitespace, and never spanning a line break.
pub open spec fn valid_delim(d: Seq<u8>) -> bool {
    d.len() > 0 && !is_ws(d[0]) && forall|k: int| 0 <= k < d.len() ==> !is_newline(#[trigger] d[k])
}

/// `d` is a usable delimiter that occurs in `t` at position `i`.
pub open spec fn opens_at(t: Seq<u8>, i: int, d: Seq<u8>) -> bool {
    valid_delim(d) && 0 <= i && i + d.len() <= t.len() && t.subrange(i, i + d.len()) == d
}

pub fn is_whitespace(b: u8) -> (r: bool)
    ensures
        r == is_ws(b),
{
    b == 32u8 || (9u8 <= b && b <= 13u8)
}

pub fn bytes_eq(a: &[u8], b: &[u8]) -> (r: bool)
    ensures
        r == (a@ == b@),
{
    if a.len() != b.len() {
        return false;
    }
    let mut k: usize = 0;
    while k < a.len()
        invariant
            a@.len() == b@.len(),
            k <= a@.len(),
            forall|j: int| 0 <= j < k ==> a@[j] == b@[j],
        decreases a@.len() - k,
    {
        if a[k] != b[k] {
            return false;
        }
        k += 1;
    }
    assert(a@ =~= b@);
    true
}

/// Byte-wise equality of two strings.
pub fn str_eq(a: &str, b: &str) -> (r: bool)
    ensures
        r == (bytes_of(a) == bytes_of(b)),
{
    bytes_eq(a.as_bytes(), b.as_bytes())
}

pub fn has_prefix(s: &[u8], p: &[u8]) -> (r: bool)
    ensures
        r == starts_with(s@, p@),
{
    if p.len() > s.len() {
        return false;
    }
    let mut k: usize = 0;
    while k < p.len()
        invariant
            p@.len() <= s@.len(),
            k <= p@.len(),
            forall|j: int| 0 <= j < k ==> s@[j] == p@[j],
        decreases p@.len() - k,
    {
        if s[k] != p[k] {
            assert(s@.subrange(0, p@.len() as int)[k as int] != p@[k as int]);
            return false;
        }
        k += 1;
    }
    assert(s@.subrange(0, p@.len() as int) =~= p@);
    true
}

pub fn is_valid_delim(d: &[u8]) -> (r: bool)
    ensures
        r == valid_delim(d@),
{
    if d.len() == 0 || is_whitespace(d[0]) {
        return false;
    }
    let mut k: usize = 0;
    while k < d.len()
        invariant
            k <= d@.len(),
            forall|j: int| 0 <= j < k ==> !is_newline(#[trigger] d@[j]),
        decreases d@.len() - k,
    {
        if d[k] == 10u8 {
            return false;
        }
        k += 1;
    }
    true
}

/// Whether the usable delimiter `d` occurs in `t` at position `i`.
pub fn opens(t: &[u8], i: usize, d: &[u8]) -> (r: bool)
    ensures
        r == opens_at(t@, i as int, d@),
{
    if !is_valid_delim(d) {
        return false;
    }
    if i > t.len() || d.len() > t.len() - i {
        return false;
    }
    let mut k: usize = 0;
    while k < d.len()
        invariant
            i + d@.len() <= t@.len(),
            t@.len() <= usize::MAX,
            k <= d@.len(),
            forall|j: int| 0 <= j < k ==> t@[i + j] == d@[j],
        decreases d@.len() - k,
    {
        if t[i + k] != d[k] {
            assert(t@.subrange(i as int, i + d@.len())[k as int] != d@[k as int]);
            return false;
        }
        k += 1;
    }
    assert(t@.subrange(i as int, i + d@.len()) =~= d@);
    true
}

} // verus!
