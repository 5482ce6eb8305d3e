//! Contiguous-substring containment over character sequences.

use vstd::prelude::*;

verus! {

/// `pat` occurs in `text` starting at position `i`.
pub open spec fn match_at(text: Seq<char>, pat: Seq<char>, i: int) -> bool {
    &&& 0 <= i
    &&& i + pat.len() <= text.len()
    &&& text.subrange(i, i + pat.len() as int) == pat
}

/// `text` contains `pat` as a contiguous substring. The empty pattern is
/// contained in every text.
pub open spec fn contains_sub(text: Seq<char>, pat: Seq<char>) -> bool {
    exists|i: int| match_at(text, pat, i)
}

/// The empty pattern is contained in every text.
pub proof fn lemma_contains_empty(text: Seq<char>)
    ensures
        contains_sub(text, Seq::<char>::empty()),
{
    assert(text.subrange(0, 0) =~= Seq::<char>::empty());
    assert(match_at(text, Seq::<char>::empty(), 0));
}

/// Decides whether `pattern` occurs in `text` at position `i`.
fn matches_at(text: &str, pattern: &str, i: usize) -> (r: bool)
    requires
        i + pattern@.len() <= text@.len() <= usize::MAX,
    ensures
        r == match_at(text@, pattern@, i as int),
{
    let m: usize = pattern.unicode_len();
    let mut j: usize = 0;
    while j < m
        invariant
            m == pattern@.len(),
            i + m <= text@.len() <= usize::MAX,
            j <= m,
            forall|jj: int| 0 <= jj < j ==> text@[i + jj] == pattern@[jj],
        decreases m - j,
    {
        if text.get_char(i + j) != pattern.get_char(j) {
            proof {
                assert(text@.subrange(i as int, i + m)[j as int] != pattern@[j as int]);
            }
            return false;
        }
        j = j + 1;
    }
    proof {
        assert(text@.subrange(i as int, i + m) =~= pattern@);
    }
    true
}

/// Decides whether `text` contains `pattern` as a contiguous substring.
pub fn contains_substr(text: &str, pattern: &str) -> (r: bool)
    ensures
        r == contains_sub(text@, pattern@),
{
    let n: usize = text.unicode_len();
    let m: usize = pattern.unicode_len();
    if m > n {
        proof {
            assert forall|i: int| !match_at(text@, pattern@, i) by {}
        }
        return false;
    }
    let mut i: usize = 0;
    while i <= n - m
        invariant
            m <= n == text@.len(),
            m == pattern@.len(),
            i <= n - m + 1,
            forall|k: int| 0 <= k < i ==> !match_at(text@, pattern@, k),
        decreases n - m + 1 - i,
    {
        if matches_at(text, pattern, i) {
            return true;
        }
        proof {
            if m == 0 {
                assert(text@.subrange(i as int, i as int) =~= pattern@);
                assert(match_at(text@, pattern@, i as int));
            }
        }
        i = i + 1;
    }
    proof {
        assert forall|k: int| !match_at(text@, pattern@, k) by {
            if 0 <= k <= n - m {
                assert(!match_at(text@, pattern@, k));
            }
        }
    }
    false
}

} // verus!
