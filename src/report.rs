//! What the aggregator writes for one unit: a header with the unit's label,
//! an error line if the unit could not be read, then one line per match.

use vstd::prelude::*;

use crate::matcher::MatchResult;
use crate::paint::{blue_code, paint_blue, paint_red, painted_as, red_code};
use crate::{FileSearchResult, SearchOptions};

verus! {

pub open spec fn digit_chars() -> Seq<char> {
    seq!['0', '1', '2', '3', '4', '5', '6', '7', '8', '9']
}

/// The decimal digits of `n`, most significant first.
pub open spec fn decimal(n: nat) -> Seq<char>
    decreases n,
{
    if n < 10 {
        seq![digit_chars()[n as int]]
    } else {
        decimal(n / 10).push(digit_chars()[(n % 10) as int])
    }
}

pub open spec fn spaces(n: nat) -> Seq<char> {
    Seq::new(n, |i: int| ' ')
}

/// `s` padded on the left with spaces to `width` characters.
pub open spec fn right_aligned(s: Seq<char>, width: nat) -> Seq<char> {
    if s.len() < width {
        spaces((width - s.len()) as nat) + s
    } else {
        s
    }
}

/// The width in which line numbers are right-aligned.
pub const NUMBER_WIDTH: usize = 4;

/// The 1-based number shown for the line at 0-based `index`.
pub open spec fn line_number_text(index: nat) -> Seq<char> {
    right_aligned(decimal(index + 1), NUMBER_WIDTH as nat)
}

/// The word that marks a unit that could not be read.
pub open spec fn error_word() -> Seq<char> {
    seq!['e', 'r', 'r', 'o', 'r', ':']
}

/// A header is shown for a labelled unit that has matches, or an error, or
/// when empty units are to be shown too.
pub open spec fn shows_header(r: FileSearchResult, include_empty: bool) -> bool {
    r.file_name is Some && (r.matched_lines@.len() > 0 || include_empty || r.error is Some)
}

/// The header line: an empty line, then the label in red.
pub open spec fn is_header_line(name: Seq<char>, line: Seq<char>) -> bool {
    exists|h: Seq<char>| painted_as(name, red_code(), h) && line == seq!['\n'] + h
}

/// The error line: the error word in red, then the error.
pub open spec fn is_error_line(e: Seq<char>, line: Seq<char>) -> bool {
    exists|h: Seq<char>| painted_as(error_word(), red_code(), h) && line == h + seq![' '] + e
}

/// The line of one match: its rendering, after its line number in blue when
/// numbers are shown.
pub open spec fn is_match_line(m: MatchResult, numbered: bool, line: Seq<char>) -> bool {
    if numbered {
        exists|h: Seq<char>|
            painted_as(line_number_text(m.index as nat), blue_code(), h) && line == h + seq![
                '.',
                ' ',
            ] + m.result@
    } else {
        line == m.result@
    }
}

/// `out` is what is written for the unit `r`: its header if shown, its error
/// line if any, then one line per match in the order of the matches.
pub open spec fn renders_result(r: FileSearchResult, options: SearchOptions, out: Seq<String>) -> bool {
    let hdr: int = if shows_header(r, options.include_empty_matches) {
        1
    } else {
        0
    };
    let err: int = if r.error is Some {
        1
    } else {
        0
    };
    let found = r.matched_lines@;
    &&& out.len() == hdr + err + found.len()
    &&& hdr == 1 ==> (r.file_name matches Some(n) && is_header_line(n@, out[0]@))
    &&& (r.error matches Some(e) ==> is_error_line(e@, out[hdr]@))
    &&& forall|k: int|
        0 <= k < found.len() ==> is_match_line(#[trigger] found[k], options.print_line_numbers, out[hdr + err + k]@)
}

/// Appends the decimal digits of `n` to `out`.
fn push_decimal(out: &mut String, n: u128)
    ensures
        final(out)@ == old(out)@ + decimal(n as nat),
    decreases n,
{
    if n >= 10 {
        push_decimal(out, n / 10);
    }
    let d: usize = (n % 10) as usize;
    let digits = "0123456789";
    proof {
        reveal_strlit("0123456789");
        assert(digits@ =~= digit_chars());
    }
    out.append(digits.substring_char(d, d + 1));
    proof {
        assert(digits@.subrange(d as int, d + 1) =~= seq![digit_chars()[d as int]]);
        if n >= 10 {
            assert(decimal(n as nat) == decimal((n / 10) as nat).push(digit_chars()[d as int]));
        }
    }
    assert(final(out)@ =~= old(out)@ + decimal(n as nat));
}

/// The right-aligned 1-based number of the line at 0-based `index`.
pub fn line_number(index: usize) -> (r: String)
    ensures
        r@ == line_number_text(index as nat),
{
    let mut digits = String::new();
    push_decimal(&mut digits, index as u128 + 1);
    assert(digits@ =~= decimal(index as nat + 1));
    let len: usize = digits.as_str().unicode_len();
    let mut out = String::new();
    let mut k: usize = len;
    while k < NUMBER_WIDTH
        invariant
            len == digits@.len(),
            len <= k,
            k <= NUMBER_WIDTH || k == len,
            out@ == spaces((k - len) as nat),
        decreases NUMBER_WIDTH - k,
    {
        out.append(" ");
        proof {
            reveal_strlit(" ");
        }
        k = k + 1;
        assert(out@ =~= spaces((k - len) as nat));
    }
    out.append(digits.as_str());
    assert(out@ =~= line_number_text(index as nat));
    out
}

fn match_line(m: &MatchResult, numbered: bool) -> (r: String)
    ensures
        is_match_line(*m, numbered, r@),
{
    if numbered {
        let number = line_number(m.index);
        let mut out = paint_blue(number.as_str());
        let ghost h = out@;
        out.append(". ");
        out.append(m.result.as_str());
        proof {
            reveal_strlit(". ");
            assert(out@ =~= h + seq!['.', ' '] + m.result@);
        }
        out
    } else {
        m.result.clone()
    }
}

/// The lines written for the unit `result`, as `renders_result` says.
pub fn result_lines(result: &FileSearchResult, options: &SearchOptions) -> (r: Vec<String>)
    ensures
        renders_result(*result, *options, r@),
{
    let mut out: Vec<String> = Vec::new();
    let show = match &result.file_name {
        Some(_) => result.matched_lines.len() > 0 || options.include_empty_matches
            || result.error.is_some(),
        None => false,
    };
    if show {
        if let Some(name) = &result.file_name {
            let mut header = String::new();
            header.append("\n");
            let painted = paint_red(name.as_str());
            header.append(painted.as_str());
            proof {
                reveal_strlit("\n");
                assert(header@ =~= seq!['\n'] + painted@);
            }
            out.push(header);
        }
    }
    let ghost hdr: int = out@.len() as int;
    if let Some(e) = &result.error {
        let mut line = paint_red("error:");
        proof {
            reveal_strlit("error:");
            assert("error:"@ =~= error_word());
        }
        let ghost h = line@;
        line.append(" ");
        line.append(e.as_str());
        proof {
            reveal_strlit(" ");
            assert(line@ =~= h + seq![' '] + e@);
        }
        out.push(line);
    }
    let ghost start: int = out@.len() as int;
    let mut k: usize = 0;
    while k < result.matched_lines.len()
        invariant
            0 <= start,
            hdr <= start,
            k <= result.matched_lines@.len(),
            out@.len() == start + k,
            hdr == (if shows_header(*result, options.include_empty_matches) {
                1int
            } else {
                0int
            }),
            start == hdr + (if result.error is Some {
                1int
            } else {
                0int
            }),
            hdr == 1 ==> (result.file_name matches Some(n) && is_header_line(n@, out@[0]@)),
            result.error matches Some(e) ==> is_error_line(e@, out@[hdr]@),
            forall|j: int|
                0 <= j < k ==> is_match_line(
                    result.matched_lines@[j],
                    options.print_line_numbers,
                    #[trigger] out@[start + j]@,
                ),
        decreases result.matched_lines@.len() - k,
    {
        let line = match_line(&result.matched_lines[k], options.print_line_numbers);
        out.push(line);
        k = k + 1;
    }
    out
}

} // verus!

verus! {

/// Line `p` of `out` is the line written for the match on line `i` of the unit.
pub open spec fn written_at(
    r: FileSearchResult,
    options: SearchOptions,
    out: Seq<String>,
    p: int,
    i: int,
) -> bool {
    exists|k: int|
        0 <= k < r.matched_lines@.len() && #[trigger] r.matched_lines@[k].index == i && 0 <= p
            < out.len() && is_match_line(r.matched_lines@[k], options.print_line_numbers, out[p]@)
}

/// Within one unit, two matching lines are written in the order of their
/// line numbers, whatever else is written around them.
pub proof fn lemma_output_in_line_order(
    r: FileSearchResult,
    lines: Seq<Option<Seq<char>>>,
    pat: Seq<char>,
    context: int,
    options: SearchOptions,
    out: Seq<String>,
    i: int,
    j: int,
)
    requires
        crate::reports_matches(r, lines, pat, context),
        renders_result(r, options, out),
        crate::matcher::line_matches(lines, i, pat),
        crate::matcher::line_matches(lines, j, pat),
        i < j,
    ensures
        exists|p1: int, p2: int|
            p1 < p2 && #[trigger] written_at(r, options, out, p1, i) && #[trigger] written_at(
                r,
                options,
                out,
                p2,
                j,
            ),
{
    let found = r.matched_lines@;
    let k1 = choose|k: int| 0 <= k < found.len() && found[k].index == i;
    let k2 = choose|k: int| 0 <= k < found.len() && found[k].index == j;
    if k2 <= k1 {
        if k2 < k1 {
            assert(found[k2].index < found[k1].index);
        }
    }
    let hdr: int = if shows_header(r, options.include_empty_matches) {
        1
    } else {
        0
    };
    let err: int = if r.error is Some {
        1
    } else {
        0
    };
    let p1 = hdr + err + k1;
    let p2 = hdr + err + k2;
    assert(is_match_line(found[k1], options.print_line_numbers, out[p1]@));
    assert(is_match_line(found[k2], options.print_line_numbers, out[p2]@));
    assert(written_at(r, options, out, p1, i));
    assert(written_at(r, options, out, p2, j));
}

} // verus!

verus! {

/// What is written for a unit shows every line of it that holds the pattern,
/// and no line that does not.
pub proof fn lemma_output_shows_exactly_matching_lines(
    r: FileSearchResult,
    lines: Seq<Option<Seq<char>>>,
    pat: Seq<char>,
    context: int,
    options: SearchOptions,
    out: Seq<String>,
)
    requires
        crate::reports_matches(r, lines, pat, context),
        renders_result(r, options, out),
    ensures
        forall|i: int|
            crate::matcher::line_matches(lines, i, pat) ==> exists|p: int|
                #[trigger] written_at(r, options, out, p, i),
        forall|p: int, i: int|
            #[trigger] written_at(r, options, out, p, i) ==> crate::matcher::line_matches(
                lines,
                i,
                pat,
            ),
{
    let found = r.matched_lines@;
    let hdr: int = if shows_header(r, options.include_empty_matches) {
        1
    } else {
        0
    };
    let err: int = if r.error is Some {
        1
    } else {
        0
    };
    assert forall|i: int| crate::matcher::line_matches(lines, i, pat) implies exists|p: int|
        #[trigger] written_at(r, options, out, p, i) by {
        let k = choose|k: int| 0 <= k < found.len() && found[k].index == i;
        assert(is_match_line(found[k], options.print_line_numbers, out[hdr + err + k]@));
        assert(written_at(r, options, out, hdr + err + k, i));
    }
    assert forall|p: int, i: int| #[trigger] written_at(r, options, out, p, i) implies crate::matcher::line_matches(
        lines,
        i,
        pat,
    ) by {
        let k = choose|k: int|
            0 <= k < found.len() && #[trigger] found[k].index == i && 0 <= p < out.len()
                && is_match_line(found[k], options.print_line_numbers, out[p]@);
        assert(crate::matcher::is_match_of(found[k], lines, pat, context));
    }
}

} // verus!
