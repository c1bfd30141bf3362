//! Verified text comparisons used by device discovery: exact equality for
//! driver names and substring containment for port addresses.

use vstd::prelude::*;

verus! {

/// `needle` occurs in `haystack` starting at position `at`.
pub open spec fn is_substring_at(haystack: Seq<char>, needle: Seq<char>, at: int) -> bool {
    &&& 0 <= at
    &&& at + needle.len() <= haystack.len()
    &&& haystack.subrange(at, at + needle.len()) == needle
}

/// `needle` occurs somewhere in `haystack`.
pub open spec fn is_substring(haystack: Seq<char>, needle: Seq<char>) -> bool {
    exists|at: int| is_substring_at(haystack, needle, at)
}

/// Character-for-character equality of two string slices.
pub fn str_eq(a: &str, b: &str) -> (r: bool)
    ensures
        r == (a@ == b@),
{
    let a_len = a.unicode_len();
    let b_len = b.unicode_len();
    if a_len != b_len {
        assert(a@ != b@) by {
            assert(a@.len() != b@.len());
        }
        return false;
    }
    let mut i: usize = 0;
    while i < a_len
        invariant
            a_len == a@.len(),
            b_len == b@.len(),
            a_len == b_len,
            i <= a_len,
            forall|j: int| 0 <= j < i ==> a@[j] == b@[j],
        decreases a_len - i,
    {
        if a.get_char(i) != b.get_char(i) {
            return false;
        }
        i = i + 1;
    }
    proof {
        assert(a@ =~= b@);
    }
    true
}

/// `needle` occurs in `haystack` starting at position `at`.
fn matches_at(haystack: &str, needle: &str, at: usize) -> (r: bool)
    requires
        at + needle@.len() <= haystack@.len(),
    ensures
        r == is_substring_at(haystack@, needle@, at as int),
{
    let h_len = haystack.unicode_len();
    let n_len = needle.unicode_len();
    let mut i: usize = 0;
    while i < n_len
        invariant
            h_len == haystack@.len(),
            n_len == needle@.len(),
            at + n_len <= h_len,
            i <= n_len,
            forall|j: int| 0 <= j < i ==> haystack@[at + j] == needle@[j],
        decreases n_len - i,
    {
        if haystack.get_char(at + i) != needle.get_char(i) {
            assert(!is_substring_at(haystack@, needle@, at as int)) by {
                assert(haystack@.subrange(at as int, at + needle@.len())[i as int]
                    != needle@[i as int]);
            }
            return false;
        }
        i = i + 1;
    }
    proof {
        assert(haystack@.subrange(at as int, at + needle@.len()) =~= needle@);
    }
    true
}

/// `needle` occurs somewhere in `haystack`, by scanning every start position.
pub fn contains_sub(haystack: &str, needle: &str) -> (r: bool)
    ensures
        r == is_substring(haystack@, needle@),
{
    let h_len = haystack.unicode_len();
    let n_len = needle.unicode_len();
    if n_len > h_len {
        assert(!is_substring(haystack@, needle@));
        return false;
    }
    if n_len == 0 {
        assert(is_substring_at(haystack@, needle@, 0)) by {
            assert(haystack@.subrange(0, 0) =~= needle@);
        }
        return true;
    }
    let mut at: usize = 0;
    while at <= h_len - n_len
        invariant
            h_len == haystack@.len(),
            n_len == needle@.len(),
            1 <= n_len <= h_len,
            at <= h_len - n_len + 1,
            forall|k: int| 0 <= k < at ==> !is_substring_at(haystack@, needle@, k),
        decreases h_len - n_len - at + 1,
    {
        if matches_at(haystack, needle, at) {
            return true;
        }
        at = at + 1;
    }
    assert(!is_substring(haystack@, needle@)) by {
        assert(forall|k: int| is_substring_at(haystack@, needle@, k)
            ==> 0 <= k <= haystack@.len() - needle@.len());
    }
    false
}

} // verus!
