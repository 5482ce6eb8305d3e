//! Rendering search results as output records.
//!
//! Each match becomes one record: the decimal line number, a period, a
//! single space, then the line's exact text.

use vstd::prelude::*;

use crate::config::Config;
use crate::search::search;
use crate::search::search_case_insensitive;
use crate::search::search_ci_spec;
use crate::search::search_spec;
use crate::search::view_of;

verus! {

/// The decimal digit character for a value below ten.
pub open spec fn dec_digit(d: int) -> char {
    if d == 0 {
        '0'
    } else if d == 1 {
        '1'
    } else if d == 2 {
        '2'
    } else if d == 3 {
        '3'
    } else if d == 4 {
        '4'
    } else if d == 5 {
        '5'
    } else if d == 6 {
        '6'
    } else if d == 7 {
        '7'
    } else if d == 8 {
        '8'
    } else {
        '9'
    }
}

/// The decimal digits of `n`, most significant first, without leading
/// zeros (`0` itself is the single digit `'0'`).
pub open spec fn dec_seq(n: nat) -> Seq<char>
    decreases n,
{
    if n < 10 {
        seq![dec_digit(n as int)]
    } else {
        dec_seq(n / 10).push(dec_digit((n % 10) as int))
    }
}

/// One output record: decimal line number, period, space, line text.
pub open spec fn record_of(number: int, line: Seq<char>) -> Seq<char> {
    dec_seq(number as nat) + seq!['.', ' '] + line
}

/// The records for a whole match list, in order.
pub open spec fn rendered(r: Seq<(int, Seq<char>)>) -> Seq<Seq<char>> {
    r.map_values(|p: (int, Seq<char>)| record_of(p.0, p.1))
}

/// What `run` emits for a request: the rendered result of the matcher that
/// the case policy selects.
pub open spec fn run_spec(pat: Seq<char>, case_sensitive: bool, contents: Seq<char>) -> Seq<
    Seq<char>,
> {
    if case_sensitive {
        rendered(search_spec(pat, contents))
    } else {
        rendered(search_ci_spec(pat, contents))
    }
}

/// Relies on String::push: appends the given character to the end.
#[verifier::external_body]
fn push_char(s: &mut String, c: char)
    ensures
        final(s)@ == old(s)@.push(c),
{
    s.push(c)
}

/// The decimal digit character for a value below ten.
fn dec_digit_exec(d: u8) -> (c: char)
    requires
        d < 10,
    ensures
        c == dec_digit(d as int),
{
    match d {
        0 => '0',
        1 => '1',
        2 => '2',
        3 => '3',
        4 => '4',
        5 => '5',
        6 => '6',
        7 => '7',
        8 => '8',
        _ => '9',
    }
}

/// Writes `n` in decimal, without leading zeros.
pub fn decimal_string(n: usize) -> (s: String)
    ensures
        s@ == dec_seq(n as nat),
{
    let mut digits: Vec<char> = Vec::new();
    let mut m: usize = n;
    while m >= 10
        invariant
            dec_seq(n as nat) == dec_seq(m as nat) + digits@.reverse(),
        decreases m,
    {
        let ghost before = digits@;
        digits.push(dec_digit_exec((m % 10) as u8));
        proof {
            assert(digits@.reverse() =~= seq![dec_digit((m as nat % 10) as int)] + before.reverse());
            assert(dec_seq(m as nat) =~= dec_seq(m as nat / 10) + seq![
                dec_digit((m as nat % 10) as int),
            ]);
            assert(dec_seq(m as nat / 10) + (seq![dec_digit((m as nat % 10) as int)] + before.reverse())
                =~= (dec_seq(m as nat / 10) + seq![dec_digit((m as nat % 10) as int)]) + before.reverse());
        }
        m = m / 10;
    }
    let mut s = String::new();
    push_char(&mut s, dec_digit_exec(m as u8));
    proof {
        assert(s@ =~= dec_seq(m as nat));
        assert(digits@.skip(digits@.len() as int).reverse() =~= Seq::<char>::empty());
        assert(s@ + Seq::<char>::empty() =~= s@);
    }
    let mut i: usize = digits.len();
    while i > 0
        invariant
            i <= digits@.len(),
            s@ == dec_seq(m as nat) + digits@.skip(i as int).reverse(),
            dec_seq(n as nat) == dec_seq(m as nat) + digits@.reverse(),
        decreases i,
    {
        i = i - 1;
        let ghost before = s@;
        push_char(&mut s, digits[i]);
        proof {
            assert(digits@.skip(i as int).reverse() =~= digits@.skip(i as int + 1).reverse().push(
                digits@[i as int],
            ));
            assert(before.push(digits@[i as int]) =~= dec_seq(m as nat) + digits@.skip(
                i as int,
            ).reverse());
        }
    }
    proof {
        assert(digits@.skip(0).reverse() =~= digits@.reverse());
    }
    s
}

/// Performs one search: selects the matcher that `config.case_sensitive`
/// names, runs it on `contents` with `config.pattern`, and renders each
/// match as one record, in match order.
pub fn run(config: &Config, contents: &str) -> (out: Vec<String>)
    ensures
        out@.map_values(|s: String| s@) == run_spec(
            config.pattern@,
            config.case_sensitive,
            contents@,
        ),
{
    let results: Vec<(usize, &str)> = if config.case_sensitive {
        search(config.pattern.as_str(), contents)
    } else {
        search_case_insensitive(config.pattern.as_str(), contents)
    };
    let ghost expected = run_spec(config.pattern@, config.case_sensitive, contents@);
    proof {
        assert(expected == rendered(view_of(results@)));
    }
    let mut out: Vec<String> = Vec::new();
    let mut i: usize = 0;
    while i < results.len()
        invariant
            i <= results@.len(),
            expected == rendered(view_of(results@)),
            out@.len() == i,
            forall|j: int| 0 <= j < i ==> out@[j]@ == expected[j],
        decreases results@.len() - i,
    {
        let number: usize = results[i].0;
        let line: &str = results[i].1;
        let mut record = decimal_string(number);
        record.append(". ");
        record.append(line);
        proof {
            reveal_strlit(". ");
            assert(". "@ =~= seq!['.', ' ']);
            assert(record@ =~= record_of(number as int, line@));
            assert(view_of(results@)[i as int] == (number as int, line@));
        }
        out.push(record);
        i = i + 1;
    }
    proof {
        assert(out@.map_values(|s: String| s@) =~= expected);
    }
    out
}

} // verus!
