//! Splitting text into lines the way a buffered reader reads them: a line
//! ends at `\n`, which is dropped together with a `\r` just before it, and
//! text after the last `\n` is a line only if it is not empty.

use vstd::prelude::*;

use crate::matcher::{chars_of, lines_view};

verus! {

/// The pieces of `s` between newlines, in order; the last one (after the last
/// newline) may be empty.
pub open spec fn pieces(s: Seq<char>) -> Seq<Seq<char>>
    decreases s.len(),
{
    if s.len() == 0 {
        seq![Seq::<char>::empty()]
    } else {
        let init = pieces(s.drop_last());
        if s.last() == '\n' {
            init.push(Seq::<char>::empty())
        } else {
            init.update(init.len() - 1, init.last().push(s.last()))
        }
    }
}

/// A line that ended at a newline, without the `\r` that may precede it.
pub open spec fn strip_cr(l: Seq<char>) -> Seq<char> {
    if l.len() > 0 && l.last() == '\r' {
        l.drop_last()
    } else {
        l
    }
}

/// The lines of `s`.
pub open spec fn split_lines(s: Seq<char>) -> Seq<Seq<char>> {
    let p = pieces(s);
    let ended = p.drop_last().map_values(|l: Seq<char>| strip_cr(l));
    if p.last().len() == 0 {
        ended
    } else {
        ended.push(p.last())
    }
}

/// Lines that were all read as text.
pub open spec fn text_lines(ls: Seq<Seq<char>>) -> Seq<Option<Seq<char>>> {
    ls.map_values(|l: Seq<char>| Some(l))
}

proof fn lemma_pieces_nonempty(s: Seq<char>)
    ensures
        pieces(s).len() >= 1,
    decreases s.len(),
{
    if s.len() > 0 {
        lemma_pieces_nonempty(s.drop_last());
    }
}

/// The lines of `text`, each read as text.
pub fn read_lines(text: &str) -> (r: Vec<Option<String>>)
    ensures
        lines_view(r@) == text_lines(split_lines(text@)),
{
    let chars = chars_of(text);
    let n: usize = chars.len();
    let mut out: Vec<Option<String>> = Vec::new();
    let mut start: usize = 0;
    let mut i: usize = 0;
    proof {
        assert(text@.subrange(0, 0) =~= Seq::<char>::empty());
    }
    while i < n
        invariant
            n == text@.len(),
            chars@ == text@,
            start <= i <= n,
            pieces(text@.subrange(0, i as int)).len() >= 1,
            pieces(text@.subrange(0, i as int)).last() == text@.subrange(start as int, i as int),
            lines_view(out@) == text_lines(
                pieces(text@.subrange(0, i as int)).drop_last().map_values(
                    |l: Seq<char>| strip_cr(l),
                ),
            ),
        decreases n - i,
    {
        let ghost before = text@.subrange(0, i as int);
        let ghost after = text@.subrange(0, i + 1);
        proof {
            assert(after.drop_last() =~= before);
            lemma_pieces_nonempty(before);
        }
        let c = chars[i];
        if c == '\n' {
            let end: usize = if i > start && chars[i - 1] == '\r' {
                i - 1
            } else {
                i
            };
            let line = String::from_str(text.substring_char(start, end));
            let ghost old_out = out@;
            out.push(Some(line));
            proof {
                let piece = text@.subrange(start as int, i as int);
                assert(line@ =~= strip_cr(piece));
                assert(pieces(after) == pieces(before).push(Seq::<char>::empty()));
                assert(pieces(after).drop_last() =~= pieces(before));
                assert(pieces(before) =~= pieces(before).drop_last().push(piece));
                let ps = pieces(before).drop_last();
                assert(lines_view(out@) =~= lines_view(old_out).push(Some(line@)));
                assert(pieces(after).drop_last().map_values(|l: Seq<char>| strip_cr(l))
                    =~= ps.map_values(|l: Seq<char>| strip_cr(l)).push(strip_cr(piece)));
                assert(text_lines(ps.map_values(|l: Seq<char>| strip_cr(l)).push(strip_cr(piece)))
                    =~= text_lines(ps.map_values(|l: Seq<char>| strip_cr(l))).push(
                    Some(strip_cr(piece)),
                ));
                assert(text@.subrange(i + 1, i + 1) =~= Seq::<char>::empty());
            }
            start = i + 1;
        } else {
            proof {
                assert(pieces(after) == pieces(before).update(
                    pieces(before).len() - 1,
                    pieces(before).last().push(c),
                ));
                assert(pieces(after).drop_last() =~= pieces(before).drop_last());
                assert(text@.subrange(start as int, i + 1) =~= text@.subrange(
                    start as int,
                    i as int,
                ).push(c));
            }
        }
        i = i + 1;
    }
    proof {
        assert(text@.subrange(0, n as int) =~= text@);
    }
    if start < n {
        let line = String::from_str(text.substring_char(start, n));
        let ghost old_out = out@;
        out.push(Some(line));
        proof {
            let p = pieces(text@);
            let ended = p.drop_last().map_values(|l: Seq<char>| strip_cr(l));
            assert(lines_view(out@) =~= lines_view(old_out).push(Some(line@)));
            assert(text_lines(ended.push(p.last())) =~= text_lines(ended).push(Some(p.last())));
            assert(lines_view(out@) =~= text_lines(split_lines(text@)));
        }
    } else {
        proof {
            assert(lines_view(out@) =~= text_lines(split_lines(text@)));
        }
    }
    out
}

} // verus!
