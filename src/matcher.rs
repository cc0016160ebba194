//! The match engine: first-occurrence substring search over the characters of
//! a line, and the context window that is rendered around a match.

use vstd::prelude::*;

use crate::paint::{green_code, paint_green, painted_as};

verus! {

/// `pat` occurs in `s` starting at position `i`.
pub open spec fn occurs_at(s: Seq<char>, pat: Seq<char>, i: int) -> bool {
    0 <= i && i + pat.len() <= s.len() && s.subrange(i, i + pat.len()) == pat
}

/// `pat` is a substring of `s` (the empty pattern is a substring of every line).
pub open spec fn contains(s: Seq<char>, pat: Seq<char>) -> bool {
    exists|i: int| occurs_at(s, pat, i)
}

/// `m` is the first position at which `pat` occurs in `s`.
pub open spec fn is_first_occurrence(s: Seq<char>, pat: Seq<char>, m: int) -> bool {
    occurs_at(s, pat, m) && forall|j: int| 0 <= j < m ==> !occurs_at(s, pat, j)
}

/// The first position at which `pat` occurs in `s` (meaningful where it occurs).
pub open spec fn first_occurrence(s: Seq<char>, pat: Seq<char>) -> int {
    choose|m: int| is_first_occurrence(s, pat, m)
}

/// Only one position can be the first occurrence.
pub proof fn lemma_first_occurrence_unique(s: Seq<char>, pat: Seq<char>, m: int)
    requires
        is_first_occurrence(s, pat, m),
    ensures
        first_occurrence(s, pat) == m,
{
    let k = first_occurrence(s, pat);
    assert(is_first_occurrence(s, pat, k));
    if k < m {
        assert(!occurs_at(s, pat, k));
    }
    if m < k {
        assert(!occurs_at(s, pat, m));
    }
}

/// The marker that stands for clipped text.
pub open spec fn ellipsis() -> Seq<char> {
    seq!['.', '.', '.']
}

/// A line `s` with a match of length `p_len` at `m`, shown as `h`, clipped to
/// `context` characters on either side of the match (`0`: the whole line). A
/// clipped side is marked with an ellipsis.
pub open spec fn render_spec(s: Seq<char>, m: int, p_len: int, context: int, h: Seq<char>) -> Seq<
    char,
> {
    let c = if context == 0 {
        s.len() as int
    } else {
        context
    };
    let context_start = m - c;
    let context_end = m + p_len + c;
    let prefix = if context_start > 0 {
        ellipsis() + s.subrange(context_start, m)
    } else {
        s.subrange(0, m)
    };
    let suffix = if context_end >= s.len() {
        s.subrange(m + p_len, s.len() as int)
    } else {
        s.subrange(m + p_len, context_end) + ellipsis()
    };
    prefix + h + suffix
}

/// Whether `pat` occurs in `s` at position `i`, character by character.
fn matches_at(s: &Vec<char>, pat: &Vec<char>, i: usize) -> (r: bool)
    requires
        i + pat@.len() <= s@.len(),
    ensures
        r == occurs_at(s@, pat@, i as int),
{
    let n: usize = s.len();
    let mut k: usize = 0;
    while k < pat.len()
        invariant
            n == s@.len(),
            k <= pat@.len(),
            i + pat@.len() <= s@.len(),
            forall|t: int| 0 <= t < k ==> s@[i + t] == pat@[t],
        decreases pat@.len() - k,
    {
        if s[i + k] != pat[k] {
            assert(s@.subrange(i as int, i + pat@.len())[k as int] != pat@[k as int]);
            return false;
        }
        k = k + 1;
    }
    assert(s@.subrange(i as int, i + pat@.len()) =~= pat@);
    true
}

/// The first position at which `pat` occurs in `s`, if any.
pub fn find_first(s: &Vec<char>, pat: &Vec<char>) -> (r: Option<usize>)
    ensures
        match r {
            Some(m) => is_first_occurrence(s@, pat@, m as int) && m == first_occurrence(
                s@,
                pat@,
            ),
            None => !contains(s@, pat@),
        },
{
    if pat.len() > s.len() {
        return None;
    }
    let last: usize = s.len() - pat.len();
    let mut i: usize = 0;
    loop
        invariant
            last + pat@.len() == s@.len(),
            i <= last,
            forall|j: int| 0 <= j < i ==> !occurs_at(s@, pat@, j),
        decreases last - i,
    {
        if matches_at(s, pat, i) {
            proof {
                lemma_first_occurrence_unique(s@, pat@, i as int);
            }
            return Some(i);
        }
        if i == last {
            return None;
        }
        i = i + 1;
    }
}

/// The characters of a string, in order.
pub fn chars_of(s: &str) -> (r: Vec<char>)
    ensures
        r@ == s@,
        r@.len() <= usize::MAX,
{
    let n: usize = s.unicode_len();
    let mut out: Vec<char> = Vec::new();
    let mut i: usize = 0;
    while i < n
        invariant
            n == s@.len(),
            i <= n,
            out@ == s@.subrange(0, i as int),
        decreases n - i,
    {
        out.push(s.get_char(i));
        i = i + 1;
        assert(out@ =~= s@.subrange(0, i as int));
    }
    assert(out@ =~= s@);
    out
}

} // verus!

verus! {

/// Renders `line`, whose match of length `p_len` stands at `m`, with the match
/// shown as `highlighted` and the context clipped as `render_spec` says.
pub fn render_at(line: &str, m: usize, p_len: usize, context: usize, highlighted: &str) -> (r:
    String)
    requires
        m + p_len <= line@.len(),
    ensures
        r@ == render_spec(line@, m as int, p_len as int, context as int, highlighted@),
{
    let l_len: usize = line.unicode_len();
    let c: usize = if context == 0 {
        l_len
    } else {
        context
    };
    let mut out = String::new();
    if m > c {
        out.append("...");
        out.append(line.substring_char(m - c, m));
    } else {
        out.append(line.substring_char(0, m));
    }
    out.append(highlighted);
    let after: usize = m + p_len;
    if c >= l_len - after {
        out.append(line.substring_char(after, l_len));
    } else {
        out.append(line.substring_char(after, after + c));
        out.append("...");
    }
    proof {
        reveal_strlit("...");
        assert("..."@ =~= ellipsis());
    }
    assert(out@ =~= render_spec(line@, m as int, p_len as int, context as int, highlighted@));
    out
}

/// Renders the first match of `pattern` in `line` with the match shown as
/// `highlighted`; `None` where the line does not hold the pattern.
pub fn render_match(line: &str, pattern: &str, context: usize, highlighted: &str) -> (r: Option<
    String,
>)
    ensures
        r is Some <==> contains(line@, pattern@),
        r matches Some(t) ==> t@ == render_spec(
            line@,
            first_occurrence(line@, pattern@),
            pattern@.len() as int,
            context as int,
            highlighted@,
        ),
{
    let chars = chars_of(line);
    let pat = chars_of(pattern);
    match find_first(&chars, &pat) {
        Some(m) => Some(render_at(line, m, pat.len(), context, highlighted)),
        None => None,
    }
}

/// One matching line: its 0-based index in the unit, the line as read, and
/// its rendering.
pub struct MatchResult {
    pub index: usize,
    pub raw: String,
    pub result: String,
}

/// `h` is the matched span `s[m, m + p_len)` after highlighting.
pub open spec fn highlight_of(s: Seq<char>, m: int, p_len: int, h: Seq<char>) -> bool {
    painted_as(s.subrange(m, m + p_len), green_code(), h)
}

/// `t` is the rendering of the first match of `pat` in `s` under some
/// highlighting of the matched span.
pub open spec fn rendered_match(s: Seq<char>, pat: Seq<char>, context: int, t: Seq<char>) -> bool {
    let m = first_occurrence(s, pat);
    exists|h: Seq<char>|
        highlight_of(s, m, pat.len() as int, h) && t == render_spec(
            s,
            m,
            pat.len() as int,
            context,
            h,
        )
}

impl MatchResult {
    /// A line not yet rendered.
    pub fn new(index: usize, raw: String) -> (r: Self)
        ensures
            r.index == index,
            r.raw@ == raw@,
            r.result@ == Seq::<char>::empty(),
    {
        MatchResult { index, raw, result: String::new() }
    }

    /// Renders the first match of `pattern` in the line, with the matched span
    /// highlighted, after what `result` already holds; `None` where the line
    /// does not hold the pattern.
    pub fn parse(self, context: usize, pattern: &String) -> (r: Option<Self>)
        ensures
            r is Some <==> contains(self.raw@, pattern@),
            r matches Some(x) ==> x.index == self.index && x.raw@ == self.raw@ && exists|
                t: Seq<char>,
            |
                x.result@ == self.result@ + t && rendered_match(self.raw@, pattern@, context as int, t),
    {
        let chars = chars_of(self.raw.as_str());
        let pat = chars_of(pattern.as_str());
        match find_first(&chars, &pat) {
            Some(m) => {
                let p_len: usize = pat.len();
                let span = paint_green(self.raw.as_str().substring_char(m, m + p_len));
                let t = render_at(self.raw.as_str(), m, p_len, context, span.as_str());
                let mut result = self.result;
                result.append(t.as_str());
                let ghost h = span@;
                assert(highlight_of(self.raw@, m as int, p_len as int, h));
                assert(rendered_match(self.raw@, pattern@, context as int, t@));
                Some(MatchResult { index: self.index, raw: self.raw, result })
            },
            None => None,
        }
    }
}

} // verus!

verus! {

/// The lines of a unit as character sequences (`None`: a line that could not
/// be read as text).
pub open spec fn lines_view(lines: Seq<Option<String>>) -> Seq<Option<Seq<char>>> {
    lines.map_values(|o: Option<String>| match o {
        Some(l) => Some(l@),
        None => None,
    })
}

/// Line `i` of a unit was read as text and holds `pat`.
pub open spec fn line_matches(lines: Seq<Option<Seq<char>>>, i: int, pat: Seq<char>) -> bool {
    0 <= i < lines.len() && (lines[i] matches Some(l) && contains(l, pat))
}

/// `r` is a rendering of line `r.index` of `lines`, which holds `pat`.
pub open spec fn is_match_of(
    r: MatchResult,
    lines: Seq<Option<Seq<char>>>,
    pat: Seq<char>,
    context: int,
) -> bool {
    &&& line_matches(lines, r.index as int, pat)
    &&& lines[r.index as int] == Some(r.raw@)
    &&& rendered_match(r.raw@, pat, context, r.result@)
}

/// Scans the lines of one unit (`None`: a line that could not be read as
/// text, which is skipped) and renders every line that holds `pattern`, in
/// line order.
pub fn search_reader(lines: &Vec<Option<String>>, match_context: usize, pattern: &String) -> (r:
    Vec<MatchResult>)
    ensures
        forall|k: int|
            0 <= k < r@.len() ==> is_match_of(r@[k], lines_view(lines@), pattern@, match_context as int),
        forall|k1: int, k2: int| 0 <= k1 < k2 < r@.len() ==> r@[k1].index < r@[k2].index,
        forall|i: int|
            line_matches(lines_view(lines@), i, pattern@) ==> exists|k: int|
                0 <= k < r@.len() && r@[k].index == i,
{
    let mut results: Vec<MatchResult> = Vec::new();
    let mut i: usize = 0;
    while i < lines.len()
        invariant
            i <= lines@.len(),
            forall|k: int|
                0 <= k < results@.len() ==> is_match_of(
                    results@[k],
                    lines_view(lines@),
                    pattern@,
                    match_context as int,
                ) && results@[k].index < i,
            forall|k1: int, k2: int|
                0 <= k1 < k2 < results@.len() ==> results@[k1].index < results@[k2].index,
            forall|j: int|
                0 <= j < i && line_matches(lines_view(lines@), j, pattern@) ==> exists|k: int|
                    0 <= k < results@.len() && results@[k].index == j,
        decreases lines@.len() - i,
    {
        let ghost prev = results@;
        match &lines[i] {
            Some(line) => {
                match MatchResult::new(i, line.clone()).parse(match_context, pattern) {
                    Some(found) => {
                        proof {
                            let t = choose|t: Seq<char>|
                                found.result@ == Seq::<char>::empty() + t && rendered_match(
                                    found.raw@,
                                    pattern@,
                                    match_context as int,
                                    t,
                                );
                            assert(found.result@ =~= t);
                        }
                        results.push(found);
                        assert(results@[results@.len() - 1].index == i);
                    },
                    None => {},
                }
            },
            None => {},
        }
        proof {
            assert forall|j: int|
                0 <= j < i + 1 && line_matches(lines_view(lines@), j, pattern@) implies exists|k: int|
                0 <= k < results@.len() && results@[k].index == j by {
                if j < i {
                    let k = choose|k: int| 0 <= k < prev.len() && prev[k].index == j;
                    assert(results@[k] == prev[k]);
                } else {
                    assert(results@[results@.len() - 1].index == j);
                }
            }
        }
        i = i + 1;
    }
    results
}

} // verus!

verus! {

/// The empty pattern is found at the start of every line, so every line
/// matches; with no clipping and an empty highlight the line shows whole.
pub proof fn lemma_empty_pattern_shows_whole_line(s: Seq<char>)
    ensures
        contains(s, Seq::<char>::empty()),
        first_occurrence(s, Seq::<char>::empty()) == 0,
        render_spec(s, 0, 0, 0, Seq::<char>::empty()) == s,
{
    let e = Seq::<char>::empty();
    assert(s.subrange(0, 0) =~= e);
    assert(occurs_at(s, e, 0));
    lemma_first_occurrence_unique(s, e, 0);
    assert(render_spec(s, 0, 0, 0, e) =~= s);
}

/// Rendering a line is a function of the line, the pattern, the context and
/// the highlighted span: any two renderings of the same inputs are the same
/// text.
pub proof fn lemma_render_is_deterministic(
    line: Seq<char>,
    pat: Seq<char>,
    context: int,
    h: Seq<char>,
    t1: Seq<char>,
    t2: Seq<char>,
)
    requires
        contains(line, pat),
        t1 == render_spec(line, first_occurrence(line, pat), pat.len() as int, context, h),
        t2 == render_spec(line, first_occurrence(line, pat), pat.len() as int, context, h),
    ensures
        t1 == t2,
{
}

} // verus!
