//! What the resolver needs of string slices.

use vstd::prelude::*;
use vstd::utf8::{encode_utf8, encode_utf8_decode_utf8};

verus! {

/// Whether `pat` stands in `s` at position `at`.
pub open spec fn occurs_at(pat: Seq<char>, s: Seq<char>, at: int) -> bool {
    &&& 0 <= at
    &&& at + pat.len() <= s.len()
    &&& s.subrange(at, at + pat.len()) == pat
}

/// Whether `pat` stands somewhere in `s`.
pub open spec fn occurs_in(pat: Seq<char>, s: Seq<char>) -> bool {
    exists|at: int| occurs_at(pat, s, at)
}

/// `str::strip_prefix` with a string pattern: the rest of `s` behind
/// `prefix` where `s` opens with it, and `None` where it does not.
#[verifier::external_body]
pub(crate) fn strip_prefix<'a>(s: &'a str, prefix: &str) -> (rest: Option<&'a str>)
    ensures
        rest is Some <==> prefix@.is_prefix_of(s@),
        rest matches Some(tail) ==> tail@ == s@.skip(prefix@.len() as int),
{
    s.strip_prefix(prefix)
}

/// `str::contains` with a string pattern: whether `pat` is a substring of `s`.
#[verifier::external_body]
pub(crate) fn contains(s: &str, pat: &str) -> (found: bool)
    ensures
        found == occurs_in(pat@, s@),
{
    s.contains(pat)
}

/// Tests whether two string slices hold the same characters, byte by byte.
pub fn same_text(a: &str, b: &str) -> (same: bool)
    ensures
        same == (a@ == b@),
{
    let left = a.as_bytes();
    let right = b.as_bytes();
    proof {
        encode_utf8_decode_utf8(a@);
        encode_utf8_decode_utf8(b@);
    }
    if left.len() != right.len() {
        return false;
    }
    let mut i: usize = 0;
    while i < left.len()
        invariant
            i <= left@.len(),
            left@.len() == right@.len(),
            left@ == encode_utf8(a@),
            right@ == encode_utf8(b@),
            forall|j: int| 0 <= j < i ==> left@[j] == right@[j],
        decreases left@.len() - i,
    {
        if left[i] != right[i] {
            return false;
        }
        i += 1;
    }
    assert(left@ =~= right@);
    true
}

} // verus!
