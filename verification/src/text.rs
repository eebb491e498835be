//! Character-level helpers for the boundary formats: exact substring
//! tests and first-occurrence search, stated over character sequences.
use vstd::prelude::*;

verus! {

/// Whether `pat` occurs in `s` starting exactly at `at`.
pub open spec fn spec_has_at(s: Seq<char>, pat: Seq<char>, at: int) -> bool {
    0 <= at && at + pat.len() <= s.len() && s.subrange(at, at + pat.len()) == pat
}

/// Whether no character of `s` is `<`.
pub open spec fn no_lt(s: Seq<char>) -> bool {
    forall|i: int| 0 <= i < s.len() ==> s[i] != '<'
}

/// Tests whether `pat` occurs in `s` starting exactly at `at`.
pub fn has_at(s: &str, pat: &str, at: usize) -> (r: bool)
    ensures
        r == spec_has_at(s@, pat@, at as int),
{
    let n = s.unicode_len();
    let m = pat.unicode_len();
    if at > n || m > n - at {
        proof {
            assert(!spec_has_at(s@, pat@, at as int));
        }
        return false;
    }
    let mut i: usize = 0;
    while i < m
        invariant
            0 <= i <= m,
            m == pat@.len(),
            n == s@.len(),
            at + m <= n,
            forall|j: int| 0 <= j < i ==> s@[at + j] == pat@[j],
        decreases m - i,
    {
        if s.get_char(at + i) != pat.get_char(i) {
            proof {
                assert(s@.subrange(at as int, at + pat@.len())[i as int] != pat@[i as int]);
            }
            return false;
        }
        i += 1;
    }
    proof {
        assert(s@.subrange(at as int, at + pat@.len()) =~= pat@);
    }
    true
}

/// Finds the first `<` at or after `from`.
pub fn find_lt(s: &str, from: usize) -> (r: Option<usize>)
    ensures
        match r {
            Some(j) => from <= j < s@.len() && s@[j as int] == '<' && (forall|k: int|
                from <= k < j ==> s@[k] != '<'),
            None => forall|k: int| from <= k < s@.len() ==> s@[k] != '<',
        },
{
    let n = s.unicode_len();
    let mut i: usize = from;
    while i < n
        invariant
            from <= i,
            n == s@.len(),
            forall|k: int| from <= k < i ==> s@[k] != '<',
        decreases n - i,
    {
        if s.get_char(i) == '<' {
            return Some(i);
        }
        i += 1;
    }
    None
}

} // verus!
