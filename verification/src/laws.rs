//! Properties of the two matchers, proved once and for all inputs.

use vstd::prelude::*;

use crate::lines::split_lines;
use crate::search::ci_line_match;
use crate::search::cs_line_match;
use crate::search::lower_of;
use crate::search::numbered_matches;
use crate::search::search_ci_spec;
use crate::search::search_spec;
use crate::search::view_of;
use crate::substring::contains_sub;
use crate::substring::lemma_contains_empty;

verus! {

/// Every entry of `r` pairs a line number in `[start, start + lines.len())`
/// with exactly that line, and the line satisfies `pred`.
pub open spec fn result_entries_ok(
    r: Seq<(int, Seq<char>)>,
    lines: Seq<Seq<char>>,
    pred: spec_fn(Seq<char>) -> bool,
    start: int,
) -> bool {
    forall|j: int|
        0 <= j < r.len() ==> start <= (#[trigger] r[j]).0 < start + lines.len() && r[j].1
            == lines[r[j].0 - start] && pred(r[j].1)
}

/// The line numbers of `r` are strictly increasing.
pub open spec fn numbers_increasing(r: Seq<(int, Seq<char>)>) -> bool {
    forall|j: int, k: int| 0 <= j < k < r.len() ==> (#[trigger] r[j]).0 < (#[trigger] r[k]).0
}

proof fn lemma_matches_shape(lines: Seq<Seq<char>>, pred: spec_fn(Seq<char>) -> bool, start: int)
    ensures
        result_entries_ok(numbered_matches(lines, pred, start), lines, pred, start),
        numbers_increasing(numbered_matches(lines, pred, start)),
    decreases lines.len(),
{
    if lines.len() > 0 {
        let tail = lines.drop_first();
        lemma_matches_shape(tail, pred, start + 1);
        let rest = numbered_matches(tail, pred, start + 1);
        let r = numbered_matches(lines, pred, start);
        assert forall|j: int|
            0 <= j < r.len() implies start <= (#[trigger] r[j]).0 < start + lines.len() && r[j].1
            == lines[r[j].0 - start] && pred(r[j].1) by {
            if pred(lines[0]) {
                if j > 0 {
                    assert(r[j] == rest[j - 1]);
                    assert(tail[r[j].0 - (start + 1)] == lines[r[j].0 - start]);
                }
            } else {
                assert(r[j] == rest[j]);
                assert(tail[r[j].0 - (start + 1)] == lines[r[j].0 - start]);
            }
        }
        assert forall|j: int, k: int|
            0 <= j < k < r.len() implies (#[trigger] r[j]).0 < (#[trigger] r[k]).0 by {
            if pred(lines[0]) {
                if j > 0 {
                    assert(r[j] == rest[j - 1] && r[k] == rest[k - 1]);
                } else {
                    assert(r[k] == rest[k - 1]);
                    assert(start + 1 <= rest[k - 1].0);
                }
            } else {
                assert(r[j] == rest[j] && r[k] == rest[k]);
            }
        }
    }
}

/// Every line number that either matcher reports lies between 1 and the
/// number of lines, the numbers are strictly increasing, and each reported
/// pair holds exactly the line its number names.
pub proof fn lemma_result_well_formed(pat: Seq<char>, contents: Seq<char>)
    ensures
        result_entries_ok(
            search_spec(pat, contents),
            split_lines(contents),
            cs_line_match(pat),
            1,
        ),
        numbers_increasing(search_spec(pat, contents)),
        result_entries_ok(
            search_ci_spec(pat, contents),
            split_lines(contents),
            ci_line_match(pat),
            1,
        ),
        numbers_increasing(search_ci_spec(pat, contents)),
{
    lemma_matches_shape(split_lines(contents), cs_line_match(pat), 1);
    lemma_matches_shape(split_lines(contents), ci_line_match(pat), 1);
}

proof fn lemma_matches_all(lines: Seq<Seq<char>>, pred: spec_fn(Seq<char>) -> bool, start: int)
    requires
        forall|j: int| 0 <= j < lines.len() ==> pred(#[trigger] lines[j]),
    ensures
        numbered_matches(lines, pred, start).len() == lines.len(),
        forall|j: int|
            0 <= j < lines.len() ==> #[trigger] numbered_matches(lines, pred, start)[j] == (
                start + j,
                lines[j],
            ),
    decreases lines.len(),
{
    if lines.len() > 0 {
        let tail = lines.drop_first();
        assert forall|j: int| 0 <= j < tail.len() implies pred(#[trigger] tail[j]) by {
            assert(tail[j] == lines[j + 1]);
        }
        lemma_matches_all(tail, pred, start + 1);
        let r = numbered_matches(lines, pred, start);
        assert forall|j: int|
            0 <= j < lines.len() implies #[trigger] r[j] == (start + j, lines[j]) by {
            if j > 0 {
                assert(r[j] == numbered_matches(tail, pred, start + 1)[j - 1]);
                assert(tail[j - 1] == lines[j]);
            }
        }
    }
}

/// With the empty pattern, the case-sensitive search returns every line of
/// the contents, each with its correct 1-based number.
pub proof fn lemma_empty_pattern(contents: Seq<char>)
    ensures
        search_spec(Seq::empty(), contents).len() == split_lines(contents).len(),
        forall|j: int|
            0 <= j < split_lines(contents).len() ==> #[trigger] search_spec(
                Seq::empty(),
                contents,
            )[j] == (j + 1, split_lines(contents)[j]),
{
    let lines = split_lines(contents);
    let pred = cs_line_match(Seq::<char>::empty());
    assert forall|j: int| 0 <= j < lines.len() implies pred(#[trigger] lines[j]) by {
        lemma_contains_empty(lines[j]);
    }
    lemma_matches_all(lines, pred, 1);
}

proof fn lemma_matches_monotone(
    lines: Seq<Seq<char>>,
    weak: spec_fn(Seq<char>) -> bool,
    strong: spec_fn(Seq<char>) -> bool,
    start: int,
)
    requires
        forall|j: int| 0 <= j < lines.len() && weak(#[trigger] lines[j]) ==> strong(lines[j]),
    ensures
        forall|j: int|
            0 <= j < numbered_matches(lines, weak, start).len() ==> numbered_matches(
                lines,
                strong,
                start,
            ).contains(#[trigger] numbered_matches(lines, weak, start)[j]),
    decreases lines.len(),
{
    if lines.len() > 0 {
        let tail = lines.drop_first();
        assert forall|j: int|
            0 <= j < tail.len() && weak(#[trigger] tail[j]) implies strong(tail[j]) by {
            assert(tail[j] == lines[j + 1]);
        }
        lemma_matches_monotone(tail, weak, strong, start + 1);
        let rw = numbered_matches(lines, weak, start);
        let rs = numbered_matches(lines, strong, start);
        let tw = numbered_matches(tail, weak, start + 1);
        let ts = numbered_matches(tail, strong, start + 1);
        assert forall|j: int| 0 <= j < rw.len() implies rs.contains(#[trigger] rw[j]) by {
            let head_w: int = if weak(lines[0]) {
                1
            } else {
                0
            };
            let head_s: int = if strong(lines[0]) {
                1
            } else {
                0
            };
            if j < head_w {
                assert(rw[0] == (start, lines[0]));
                assert(rs[0] == (start, lines[0]));
                assert(rs.contains(rw[0]));
            } else {
                assert(rw[j] == tw[j - head_w]);
                assert(ts.contains(tw[j - head_w]));
                let k = choose|k: int| 0 <= k < ts.len() && ts[k] == tw[j - head_w];
                assert(rs[k + head_s] == ts[k]);
                assert(rs.contains(rw[j]));
            }
        }
    }
}

/// Whenever lowercasing preserves the pattern's containment on every line
/// that matches exactly, the case-insensitive result carries every pair the
/// case-sensitive result holds.
pub proof fn lemma_ci_superset(pat: Seq<char>, contents: Seq<char>)
    requires
        forall|j: int|
            0 <= j < split_lines(contents).len() && contains_sub(
                #[trigger] split_lines(contents)[j],
                pat,
            ) ==> contains_sub(lower_of(split_lines(contents)[j]), lower_of(pat)),
    ensures
        forall|j: int|
            0 <= j < search_spec(pat, contents).len() ==> search_ci_spec(pat, contents).contains(
                #[trigger] search_spec(pat, contents)[j],
            ),
{
    lemma_matches_monotone(split_lines(contents), cs_line_match(pat), ci_line_match(pat), 1);
}

/// The case-sensitive matcher is a function of its inputs alone: any two
/// results that meet the contract of `search` for the same pattern and
/// contents have the same value.
pub proof fn lemma_search_deterministic<'a>(
    r1: Seq<(usize, &'a str)>,
    r2: Seq<(usize, &'a str)>,
    pat: Seq<char>,
    contents: Seq<char>,
)
    requires
        view_of(r1) == search_spec(pat, contents),
        view_of(r2) == search_spec(pat, contents),
    ensures
        view_of(r1) == view_of(r2),
{
}

/// The case-insensitive matcher is a function of its inputs alone: any two
/// results that meet the contract of `search_case_insensitive` for the same
/// pattern and contents have the same value.
pub proof fn lemma_search_ci_deterministic<'a>(
    r1: Seq<(usize, &'a str)>,
    r2: Seq<(usize, &'a str)>,
    pat: Seq<char>,
    contents: Seq<char>,
)
    requires
        view_of(r1) == search_ci_spec(pat, contents),
        view_of(r2) == search_ci_spec(pat, contents),
    ensures
        view_of(r1) == view_of(r2),
{
}

/// Empty contents hold no lines, so either matcher returns the empty result,
/// whatever the pattern.
pub proof fn lemma_empty_contents(pat: Seq<char>)
    ensures
        search_spec(pat, Seq::empty()) == Seq::<(int, Seq<char>)>::empty(),
        search_ci_spec(pat, Seq::empty()) == Seq::<(int, Seq<char>)>::empty(),
{
    assert(split_lines(Seq::empty()).len() == 0);
}

} // verus!
