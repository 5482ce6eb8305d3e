//! The two matchers: case-sensitive and case-insensitive line search.

use vstd::prelude::*;

use crate::lines::line_views;
use crate::lines::lines_of;
use crate::lines::split_lines;
use crate::substring::contains_sub;
use crate::substring::contains_substr;

verus! {

/// The locale-independent lowercase form of a character sequence.
pub uninterp spec fn lower_of(s: Seq<char>) -> Seq<char>;

/// Relies on str::to_lowercase: the result depends on the characters alone,
/// and an empty string stays empty.
#[verifier::external_body]
fn lowercase(s: &str) -> (r: String)
    ensures
        r@ == lower_of(s@),
        s@.len() == 0 ==> r@.len() == 0,
{
    s.to_lowercase()
}

/// A line matches the case-sensitive search for `pat`.
pub open spec fn cs_line_match(pat: Seq<char>) -> spec_fn(Seq<char>) -> bool {
    |l: Seq<char>| contains_sub(l, pat)
}

/// A line matches the case-insensitive search for `pat`: both are lowercased
/// before the containment test.
pub open spec fn ci_line_match(pat: Seq<char>) -> spec_fn(Seq<char>) -> bool {
    |l: Seq<char>| contains_sub(lower_of(l), lower_of(pat))
}

/// The lines among `lines` that satisfy `pred`, each paired with its line
/// number; the first line of `lines` is numbered `start`.
pub open spec fn numbered_matches(
    lines: Seq<Seq<char>>,
    pred: spec_fn(Seq<char>) -> bool,
    start: int,
) -> Seq<(int, Seq<char>)>
    decreases lines.len(),
{
    if lines.len() == 0 {
        Seq::empty()
    } else {
        let rest = numbered_matches(lines.drop_first(), pred, start + 1);
        if pred(lines[0]) {
            seq![(start, lines[0])] + rest
        } else {
            rest
        }
    }
}

/// What `search` returns: the lines of `contents` that contain `pat`,
/// numbered from 1.
pub open spec fn search_spec(pat: Seq<char>, contents: Seq<char>) -> Seq<(int, Seq<char>)> {
    numbered_matches(split_lines(contents), cs_line_match(pat), 1)
}

/// What `search_case_insensitive` returns: the lines of `contents` whose
/// lowercase form contains the lowercase form of `pat`, numbered from 1.
pub open spec fn search_ci_spec(pat: Seq<char>, contents: Seq<char>) -> Seq<(int, Seq<char>)> {
    numbered_matches(split_lines(contents), ci_line_match(pat), 1)
}

/// The mathematical value of a returned match list.
pub open spec fn view_of(res: Seq<(usize, &str)>) -> Seq<(int, Seq<char>)> {
    res.map_values(|p: (usize, &str)| (p.0 as int, p.1@))
}

/// Returns the lines of `contents` that contain `pattern` as a contiguous
/// substring, in document order, each with its 1-based line number.
pub fn search<'a>(pattern: &str, contents: &'a str) -> (res: Vec<(usize, &'a str)>)
    ensures
        view_of(res@) == search_spec(pattern@, contents@),
{
    let lines = lines_of(contents);
    let ghost all = split_lines(contents@);
    let ghost pred = cs_line_match(pattern@);
    let mut res: Vec<(usize, &'a str)> = Vec::new();
    let mut i: usize = 0;
    proof {
        assert(all.skip(0) =~= all);
        assert(view_of(res@) + numbered_matches(all, pred, 1) =~= numbered_matches(all, pred, 1));
    }
    while i < lines.len()
        invariant
            i <= lines.len(),
            line_views(lines@) == all,
            pred == cs_line_match(pattern@),
            numbered_matches(all, pred, 1) == view_of(res@) + numbered_matches(
                all.skip(i as int),
                pred,
                i + 1,
            ),
        decreases lines.len() - i,
    {
        proof {
            assert(all.skip(i as int)[0] == all[i as int]);
            assert(all.skip(i as int).drop_first() =~= all.skip(i as int + 1));
            assert(all[i as int] == lines@[i as int]@);
        }
        if contains_substr(lines[i], pattern) {
            let hit: (usize, &'a str) = (i + 1, lines[i]);
            proof {
                assert(view_of(res@.push(hit)) =~= view_of(res@).push((i + 1, all[i as int])));
                assert(view_of(res@) + (seq![(i + 1 as int, all[i as int])] + numbered_matches(
                    all.skip(i as int + 1),
                    pred,
                    i + 2,
                )) =~= view_of(res@.push(hit)) + numbered_matches(
                    all.skip(i as int + 1),
                    pred,
                    i + 2,
                ));
            }
            res.push(hit);
        }
        i = i + 1;
    }
    proof {
        assert(all.skip(lines@.len() as int).len() == 0);
        assert(view_of(res@) + Seq::<(int, Seq<char>)>::empty() =~= view_of(res@));
    }
    res
}

/// Returns the lines of `contents` that contain `pattern` up to case:
/// both the line and the pattern are lowercased before the containment
/// test. Line numbers are 1-based; the reported text is the original line.
pub fn search_case_insensitive<'a>(pattern: &str, contents: &'a str) -> (res: Vec<
    (usize, &'a str),
>)
    ensures
        view_of(res@) == search_ci_spec(pattern@, contents@),
{
    let lines = lines_of(contents);
    let pat_lower = lowercase(pattern);
    let ghost all = split_lines(contents@);
    let ghost pred = ci_line_match(pattern@);
    let mut res: Vec<(usize, &'a str)> = Vec::new();
    let mut i: usize = 0;
    proof {
        assert(all.skip(0) =~= all);
        assert(view_of(res@) + numbered_matches(all, pred, 1) =~= numbered_matches(all, pred, 1));
    }
    while i < lines.len()
        invariant
            i <= lines.len(),
            line_views(lines@) == all,
            pred == ci_line_match(pattern@),
            pat_lower@ == lower_of(pattern@),
            numbered_matches(all, pred, 1) == view_of(res@) + numbered_matches(
                all.skip(i as int),
                pred,
                i + 1,
            ),
        decreases lines.len() - i,
    {
        proof {
            assert(all.skip(i as int)[0] == all[i as int]);
            assert(all.skip(i as int).drop_first() =~= all.skip(i as int + 1));
            assert(all[i as int] == lines@[i as int]@);
        }
        let line_lower = lowercase(lines[i]);
        if contains_substr(line_lower.as_str(), pat_lower.as_str()) {
            let hit: (usize, &'a str) = (i + 1, lines[i]);
            proof {
                assert(view_of(res@.push(hit)) =~= view_of(res@).push((i + 1, all[i as int])));
                assert(view_of(res@) + (seq![(i + 1 as int, all[i as int])] + numbered_matches(
                    all.skip(i as int + 1),
                    pred,
                    i + 2,
                )) =~= view_of(res@.push(hit)) + numbered_matches(
                    all.skip(i as int + 1),
                    pred,
                    i + 2,
                ));
            }
            res.push(hit);
        }
        i = i + 1;
    }
    proof {
        assert(all.skip(lines@.len() as int).len() == 0);
        assert(view_of(res@) + Seq::<(int, Seq<char>)>::empty() =~= view_of(res@));
    }
    res
}

} // verus!
