//! Splitting a text into its lines.
//!
//! A line is a maximal run of characters between line terminators. Both a
//! plain `'\n'` and the pair `"\r\n"` terminate a line; a terminator at the
//! very end of the text does not open an extra empty line, and a carriage
//! return that is not followed by a newline stays part of its line.

use vstd::prelude::*;

verus! {

/// A carriage return just before the terminator is not part of the line.
pub open spec fn strip_cr(line: Seq<char>) -> Seq<char> {
    if line.len() > 0 && line.last() == '\r' {
        line.drop_last()
    } else {
        line
    }
}

/// Left-to-right scan that splits `s` into lines, carrying the characters of
/// the current, still unterminated line in `cur`.
pub open spec fn split_rec(s: Seq<char>, cur: Seq<char>) -> Seq<Seq<char>>
    decreases s.len(),
{
    if s.len() == 0 {
        if cur.len() == 0 {
            Seq::empty()
        } else {
            seq![cur]
        }
    } else if s[0] == '\n' {
        seq![strip_cr(cur)] + split_rec(s.drop_first(), Seq::empty())
    } else {
        split_rec(s.drop_first(), cur.push(s[0]))
    }
}

/// The lines of `s`, in document order.
pub open spec fn split_lines(s: Seq<char>) -> Seq<Seq<char>> {
    split_rec(s, Seq::empty())
}

/// The views of a vector of borrowed lines.
pub open spec fn line_views(v: Seq<&str>) -> Seq<Seq<char>> {
    v.map_values(|l: &str| l@)
}

/// Splits `contents` into its lines, each a slice of `contents`.
pub fn lines_of<'a>(contents: &'a str) -> (res: Vec<&'a str>)
    ensures
        line_views(res@) == split_lines(contents@),
{
    let n: usize = contents.unicode_len();
    let mut res: Vec<&'a str> = Vec::new();
    let mut start: usize = 0;
    let mut pos: usize = 0;
    proof {
        assert(contents@.skip(0) =~= contents@);
        assert(contents@.subrange(0, 0) =~= Seq::<char>::empty());
    }
    while pos < n
        invariant
            start <= pos <= n,
            n == contents@.len(),
            split_lines(contents@) == line_views(res@) + split_rec(
                contents@.skip(pos as int),
                contents@.subrange(start as int, pos as int),
            ),
        decreases n - pos,
    {
        let ghost cur = contents@.subrange(start as int, pos as int);
        let c = contents.get_char(pos);
        proof {
            assert(contents@.skip(pos as int)[0] == contents@[pos as int]);
        }
        if c == '\n' {
            let end: usize = if pos > start && contents.get_char(pos - 1) == '\r' {
                pos - 1
            } else {
                pos
            };
            let line: &'a str = contents.substring_char(start, end);
            proof {
                assert(line@ =~= strip_cr(cur));
                assert(contents@.skip(pos as int).drop_first() =~= contents@.skip(pos as int + 1));
                assert(line_views(res@.push(line)) =~= line_views(res@).push(strip_cr(cur)));
                assert(line_views(res@) + (seq![strip_cr(cur)] + split_rec(
                    contents@.skip(pos as int + 1),
                    Seq::empty(),
                )) =~= line_views(res@.push(line)) + split_rec(
                    contents@.skip(pos as int + 1),
                    Seq::empty(),
                ));
                assert(contents@.subrange(pos as int + 1, pos as int + 1) =~= Seq::<char>::empty());
            }
            res.push(line);
            start = pos + 1;
        } else {
            proof {
                assert(contents@.skip(pos as int).drop_first() =~= contents@.skip(pos as int + 1));
                assert(cur.push(contents@[pos as int]) =~= contents@.subrange(
                    start as int,
                    pos as int + 1,
                ));
            }
        }
        pos = pos + 1;
    }
    if start < n {
        let line: &'a str = contents.substring_char(start, n);
        proof {
            assert(contents@.skip(n as int).len() == 0);
            assert(line_views(res@.push(line)) =~= line_views(res@).push(line@));
            assert(line_views(res@) + seq![line@] =~= line_views(res@).push(line@));
        }
        res.push(line);
    } else {
        proof {
            assert(contents@.skip(n as int).len() == 0);
            assert(contents@.subrange(start as int, n as int).len() == 0);
            assert(line_views(res@) + Seq::<Seq<char>>::empty() =~= line_views(res@));
        }
    }
    res
}

} // verus!
