//! Verified character-level string and byte-string comparisons.

use vstd::prelude::*;

verus! {

/// Character-for-character equality of two string slices.
pub fn str_eq(a: &str, b: &str) -> (r: bool)
    ensures
        r == (a@ == b@),
{
    let a_len = a.unicode_len();
    let b_len = b.unicode_len();
    if a_len != b_len {
        assert(a@ != b@);
        return false;
    }
    let mut i: usize = 0;
    while i < a_len
        invariant
            i <= a_len,
            a_len == a@.len(),
            a_len == b@.len(),
            forall|j: int| 0 <= j < i ==> a@[j] == b@[j],
        decreases a_len - i,
    {
        if a.get_char(i) != b.get_char(i) {
            assert(a@ != b@);
            return false;
        }
        i = i + 1;
    }
    proof {
        assert(a@ =~= b@);
    }
    true
}

/// True when `term` is a prefix of `a`.
pub fn str_starts_with(a: &str, term: &str) -> (r: bool)
    ensures
        r == term@.is_prefix_of(a@),
{
    let a_len = a.unicode_len();
    let t_len = term.unicode_len();
    if t_len > a_len {
        assert(!term@.is_prefix_of(a@));
        return false;
    }
    let mut i: usize = 0;
    while i < t_len
        invariant
            i <= t_len,
            t_len <= a_len,
            a_len == a@.len(),
            t_len == term@.len(),
            forall|j: int| 0 <= j < i ==> a@[j] == term@[j],
        decreases t_len - i,
    {
        if a.get_char(i) != term.get_char(i) {
            assert(!term@.is_prefix_of(a@)) by {
                assert(a@.subrange(0, t_len as int)[i as int] == a@[i as int]);
            }
            return false;
        }
        i = i + 1;
    }
    proof {
        assert(term@ =~= a@.subrange(0, t_len as int));
    }
    true
}

/// Element-wise equality of two byte strings.
pub fn bytes_eq(a: &[u8], b: &[u8]) -> (r: bool)
    ensures
        r == (a@ == b@),
{
    if a.len() != b.len() {
        assert(a@ != b@);
        return false;
    }
    let mut i: usize = 0;
    while i < a.len()
        invariant
            i <= a@.len(),
            a@.len() == b@.len(),
            forall|j: int| 0 <= j < i ==> a@[j] == b@[j],
        decreases a@.len() - i,
    {
        if a[i] != b[i] {
            assert(a@ != b@);
            return false;
        }
        i = i + 1;
    }
    proof {
        assert(a@ =~= b@);
    }
    true
}

} // verus!
