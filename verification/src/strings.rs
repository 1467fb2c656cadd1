//! Verified text helpers: locating the last occurrence of a character and
//! comparing two string slices for equality.

use vstd::prelude::*;

verus! {

/// The index of the last occurrence of `c` in `s`, or `-1` when `s` does not
/// contain `c`.
pub open spec fn last_index_of(s: Seq<char>, c: char) -> int
    decreases s.len(),
{
    if s.len() == 0 {
        -1
    } else if s[s.len() - 1] == c {
        s.len() - 1
    } else {
        last_index_of(s.drop_last(), c)
    }
}

/// `last_index_of` is in bounds, points at `c`, and nothing after it is `c`.
pub proof fn lemma_last_index_of_props(s: Seq<char>, c: char)
    ensures
        -1 <= last_index_of(s, c) < s.len(),
        last_index_of(s, c) >= 0 ==> s[last_index_of(s, c)] == c,
        forall|j: int| last_index_of(s, c) < j < s.len() ==> s[j] != c,
    decreases s.len(),
{
    if s.len() > 0 && s[s.len() - 1] != c {
        lemma_last_index_of_props(s.drop_last(), c);
        assert forall|j: int| last_index_of(s, c) < j < s.len() implies s[j] != c by {
            if j < s.len() - 1 {
                assert(s.drop_last()[j] == s[j]);
            }
        }
    }
}

/// An index that holds `c`, with no `c` after it, is the last occurrence.
pub proof fn lemma_last_index_of_unique(s: Seq<char>, c: char, k: int)
    requires
        0 <= k < s.len(),
        s[k] == c,
        forall|j: int| k < j < s.len() ==> s[j] != c,
    ensures
        last_index_of(s, c) == k,
{
    lemma_last_index_of_props(s, c);
}

/// A sequence without any occurrence of `c` has no last occurrence.
pub proof fn lemma_last_index_of_none(s: Seq<char>, c: char)
    requires
        forall|j: int| 0 <= j < s.len() ==> s[j] != c,
    ensures
        last_index_of(s, c) == -1,
{
    lemma_last_index_of_props(s, c);
}

/// The last occurrence within a suffix of `s`, relative to that suffix.
pub proof fn lemma_last_index_of_suffix(s: Seq<char>, c: char, from: int)
    requires
        0 <= from <= s.len(),
    ensures
        last_index_of(s, c) >= from ==> last_index_of(
            s.subrange(from, s.len() as int),
            c,
        ) == last_index_of(s, c) - from,
        last_index_of(s, c) < from ==> last_index_of(s.subrange(from, s.len() as int), c) == -1,
{
    lemma_last_index_of_props(s, c);
    let f = s.subrange(from, s.len() as int);
    let r = last_index_of(s, c);
    if r >= from {
        assert(f[r - from] == c);
        lemma_last_index_of_unique(f, c, r - from);
    } else {
        assert forall|j: int| 0 <= j < f.len() implies f[j] != c by {
            assert(f[j] == s[j + from]);
        }
        lemma_last_index_of_none(f, c);
    }
}

/// The index of the last occurrence of `c` in `s`, or `None` when `s` does
/// not contain `c`.
pub fn find_last(s: &str, c: char) -> (r: Option<usize>)
    ensures
        match r {
            Some(i) => i == last_index_of(s@, c),
            None => last_index_of(s@, c) == -1,
        },
{
    let n = s.unicode_len();
    let mut i: usize = n;
    while i > 0
        invariant
            i <= n,
            n == s@.len(),
            forall|j: int| i <= j < n ==> s@[j] != c,
        decreases i,
    {
        i = i - 1;
        if s.get_char(i) == c {
            proof {
                lemma_last_index_of_unique(s@, c, i as int);
            }
            return Some(i);
        }
    }
    proof {
        lemma_last_index_of_none(s@, c);
    }
    None
}

/// Whether two string slices hold the same characters.
pub fn str_eq(a: &str, b: &str) -> (r: bool)
    ensures
        r == (a@ == b@),
{
    let n = a.unicode_len();
    if n != b.unicode_len() {
        return false;
    }
    let mut i: usize = 0;
    while i < n
        invariant
            i <= n,
            n == a@.len(),
            n == b@.len(),
            forall|j: int| 0 <= j < i ==> a@[j] == b@[j],
        decreases n - i,
    {
        if a.get_char(i) != b.get_char(i) {
            return false;
        }
        i = i + 1;
    }
    proof {
        assert(a@ =~= b@);
    }
    true
}

} // verus!
