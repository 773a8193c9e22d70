//! The site's data-bearing script hides its token blob as a quoted,
//! comma-free literal immediately followed by a fixed obfuscated
//! "split" invocation. This module finds that pattern the way a
//! leftmost-greedy matcher would: the match starts at the earliest
//! possible quote, and its capture extends as far as possible.

use vstd::prelude::*;
use crate::text::{seq_at, str_matches_at};

verus! {

/// A candidate match: a quote at `i`, a non-empty run of non-comma
/// characters, and the fixed tail `t` starting at `j` (the capture is
/// `s[i+1 .. j]`, so the tail's leading quote closes it).
pub open spec fn cap_match_at(s: Seq<char>, t: Seq<char>, i: int, j: int) -> bool {
    &&& 0 <= i
    &&& i + 2 <= j
    &&& s[i] == '\''
    &&& (forall|k: int| i < k < j ==> s[k] != ',')
    &&& seq_at(s, j, t)
}

/// The match a leftmost-greedy search selects: no candidate starts earlier,
/// and no candidate at the same start reaches further.
pub open spec fn is_splice_match(s: Seq<char>, t: Seq<char>, i: int, j: int) -> bool {
    &&& cap_match_at(s, t, i, j)
    &&& (forall|i2: int, j2: int| 0 <= i2 < i ==> !cap_match_at(s, t, i2, j2))
    &&& (forall|j2: int| j2 > j ==> !cap_match_at(s, t, i, j2))
}

/// The selected match is unique.
pub proof fn lemma_splice_match_unique(s: Seq<char>, t: Seq<char>, i1: int, j1: int, i2: int, j2: int)
    requires
        is_splice_match(s, t, i1, j1),
        is_splice_match(s, t, i2, j2),
    ensures
        i1 == i2,
        j1 == j2,
{
    if i1 < i2 {
        assert(!cap_match_at(s, t, i1, j1));
    }
    if i2 < i1 {
        assert(!cap_match_at(s, t, i2, j2));
    }
    if j1 < j2 {
        assert(!cap_match_at(s, t, i1, j2));
    }
    if j2 < j1 {
        assert(!cap_match_at(s, t, i2, j1));
    }
}

/// Finds the leftmost-greedy occurrence of the pattern `'<capture>'`
/// followed by the tail `t`, returning the quote position and the
/// capture's end (where the tail begins).
pub fn find_splice_match(s: &str, t: &str) -> (r: Option<(usize, usize)>)
    ensures
        match r {
            Some(m) => is_splice_match(s@, t@, m.0 as int, m.1 as int),
            None => forall|i: int, j: int| !cap_match_at(s@, t@, i, j),
        },
{
    let n = s.unicode_len();
    let mut i: usize = 0;
    while i < n
        invariant
            i <= n,
            n == s@.len(),
            forall|i2: int, j2: int| 0 <= i2 < i ==> !cap_match_at(s@, t@, i2, j2),
        decreases n - i,
    {
        if s.get_char(i) == '\'' {
            // the maximal comma-free run after the quote ends at `e`
            let mut e: usize = i + 1;
            while e < n && s.get_char(e) != ','
                invariant
                    i + 1 <= e <= n,
                    n == s@.len(),
                    forall|k: int| i < k < e ==> s@[k] != ',',
                decreases n - e,
            {
                e += 1;
            }
            // greedy: try the latest capture end first
            let mut j: usize = e;
            proof {
                assert forall|j2: int| j2 > e implies !cap_match_at(s@, t@, i as int, j2) by {
                    if cap_match_at(s@, t@, i as int, j2) {
                        if e < n {
                            assert(s@[e as int] != ',');
                        } else {
                            assert(j2 + t@.len() <= n);
                        }
                    }
                }
            }
            while j - i >= 2
                invariant
                    i + 1 <= j,
                    j <= e <= n,
                    i < n,
                    n == s@.len(),
                    s@[i as int] == '\'',
                    forall|k: int| i < k < e ==> s@[k] != ',',
                    forall|i2: int, j2: int| 0 <= i2 < i ==> !cap_match_at(s@, t@, i2, j2),
                    forall|j2: int| j < j2 ==> !cap_match_at(s@, t@, i as int, j2),
                decreases j,
            {
                if str_matches_at(s, j, t) {
                    return Some((i, j));
                }
                proof {
                    // no candidate ends exactly at `j` either
                    assert(!cap_match_at(s@, t@, i as int, j as int));
                }
                j -= 1;
            }
            proof {
                assert forall|j2: int| !cap_match_at(s@, t@, i as int, j2) by {
                    if i + 2 <= j2 <= e {
                        assert(!cap_match_at(s@, t@, i as int, j2));
                    }
                    if j2 > e {
                        // a capture past `e` would cross the comma at `e`,
                        // or run past the end of `s`
                        if e < n && cap_match_at(s@, t@, i as int, j2) {
                            assert(s@[e as int] != ',');
                        }
                    }
                }
            }
        }
        proof {
            assert forall|j2: int| !cap_match_at(s@, t@, i as int, j2) by {
                if cap_match_at(s@, t@, i as int, j2) {
                    assert(s@[i as int] == '\'');
                }
            }
        }
        i += 1;
    }
    proof {
        assert forall|i2: int, j2: int| !cap_match_at(s@, t@, i2, j2) by {
            if cap_match_at(s@, t@, i2, j2) {
                assert(0 <= i2);
                assert(i2 + 2 <= j2);
                assert(j2 + t@.len() <= n);
            }
        }
    }
    None
}

} // verus!
