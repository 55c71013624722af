//! Conversions between strings and character vectors, and case folding.

use vstd::prelude::*;

verus! {

/// The characters of `s` after Unicode lower-case mapping.
pub uninterp spec fn lower_of(s: Seq<char>) -> Seq<char>;

/// Relies on `str::chars` collected into a `Vec`: the characters in order.
#[verifier::external_body]
pub(crate) fn chars_of(s: &str) -> (r: Vec<char>)
    ensures
        r@ == s@,
{
    s.chars().collect()
}

/// Relies on collecting a `char` iterator into a `String`: the same characters.
#[verifier::external_body]
pub(crate) fn text_of(v: &[char]) -> (r: String)
    ensures
        r@ == v@,
{
    v.iter().collect()
}

/// Relies on `str::to_lowercase`: the result depends on the characters alone.
#[verifier::external_body]
pub(crate) fn lowercase(s: &str) -> (r: String)
    ensures
        r@ == lower_of(s@),
{
    s.to_lowercase()
}

/// Whether `t` holds `lit` at position `at`.
pub fn has_at(t: &[char], at: usize, lit: &[char]) -> (r: bool)
    ensures
        r == (at + lit@.len() <= t@.len() && t@.subrange(at as int, at + lit@.len()) == lit@),
{
    if at > t.len() || lit.len() > t.len() - at {
        return false;
    }
    let mut i: usize = 0;
    while i < lit.len()
        invariant
            at + lit@.len() <= t@.len(),
            t@.len() == t.len(),
            i <= lit@.len(),
            t@.subrange(at as int, at + i) == lit@.subrange(0, i as int),
        decreases lit@.len() - i,
    {
        assert(at + i < t@.len());
        if t[at + i] != lit[i] {
            assert(t@.subrange(at as int, at + lit@.len())[i as int] != lit@[i as int]);
            return false;
        }
        assert(t@.subrange(at as int, at + i + 1) =~= t@.subrange(at as int, at + i).push(t@[at + i]));
        assert(lit@.subrange(0, i + 1) =~= lit@.subrange(0, i as int).push(lit@[i as int]));
        i += 1;
    }
    assert(lit@ =~= lit@.subrange(0, lit@.len() as int));
    true
}

} // verus!
