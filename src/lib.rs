//! A recursive, literal-pattern text scanner: every line that holds the
//! pattern is rendered, with an optional context window around the match.
//!
//! The library holds the logic: the match engine (`matcher`), the rendering
//! of results for output (`report`), the walk over a directory tree (`walk`),
//! the worker pool's message protocol (`pool`) and the splitting of text into
//! lines (`lines`). Threads, channels and the file system are the caller's.

use std::sync::Arc;
use vstd::prelude::*;

pub mod lines;
pub mod matcher;
pub mod paint;
pub mod pool;
pub mod report;
pub mod walk;

pub use matcher::{search_reader, MatchResult};
pub use pool::WorkerMessage;
pub use walk::search_path;

use crate::lines::{split_lines, text_lines};
use crate::matcher::{is_match_of, lines_view};

verus! {

/// The outcome of searching one unit: the label to show for it (absent for
/// literal text), its matches in line order, and the error that stopped it
/// from being read, if any.
pub struct FileSearchResult {
    pub matched_lines: Vec<MatchResult>,
    pub file_name: Option<String>,
    pub error: Option<String>,
}

/// One unit to scan: a file, by its path, or a literal text.
pub enum SearchInput {
    File(String),
    String(String),
}

/// A unit paired with the options of the run.
pub struct SearchMessage {
    pub options: Arc<SearchOptions>,
    pub input: SearchInput,
}

/// The options of one run, shared read-only by every job.
pub struct SearchOptions {
    /// The pattern to look for.
    pub pattern: String,
    /// The file or directory to search; absent when the input is literal text.
    pub path: Option<String>,
    /// Whether each match is shown with its 1-based line number.
    pub print_line_numbers: bool,
    /// Whether the elapsed time is shown at the end of the run.
    pub time: bool,
    /// Whether a file without matches still shows its header.
    pub include_empty_matches: bool,
    /// How many characters of context are shown either side of a match (0: the whole line).
    pub match_context: usize,
}

/// The label shown for a unit: its path for a file, none for literal text.
pub open spec fn label_of(input: SearchInput) -> Option<Seq<char>> {
    match input {
        SearchInput::File(p) => Some(p@),
        SearchInput::String(_) => None,
    }
}

/// `r` labels `input` as `label_of` says.
pub open spec fn labelled(r: FileSearchResult, input: SearchInput) -> bool {
    match label_of(input) {
        Some(l) => r.file_name matches Some(n) && n@ == l,
        None => r.file_name is None,
    }
}

/// `r` holds, in line order, exactly the lines of `lines` that hold `pat`.
pub open spec fn reports_matches(
    r: FileSearchResult,
    lines: Seq<Option<Seq<char>>>,
    pat: Seq<char>,
    context: int,
) -> bool {
    let found = r.matched_lines@;
    &&& forall|k: int| 0 <= k < found.len() ==> is_match_of(found[k], lines, pat, context)
    &&& forall|k1: int, k2: int| 0 <= k1 < k2 < found.len() ==> found[k1].index < found[k2].index
    &&& forall|i: int|
        crate::matcher::line_matches(lines, i, pat) ==> exists|k: int|
            0 <= k < found.len() && found[k].index == i
}

fn label(input: &SearchInput) -> (r: Option<String>)
    ensures
        match label_of(*input) {
            Some(l) => r matches Some(n) && n@ == l,
            None => r is None,
        },
{
    match input {
        SearchInput::File(p) => Some(p.clone()),
        SearchInput::String(_) => None,
    }
}

impl SearchMessage {
    pub fn new(input: SearchInput, options: Arc<SearchOptions>) -> (r: SearchMessage)
        ensures
            r.input == input,
            r.options == options,
    {
        SearchMessage { options, input }
    }

    /// The result of the unit, given its lines as read (`None`: a line that
    /// could not be read as text).
    pub fn search_lines(&self, lines: &Vec<Option<String>>) -> (r: FileSearchResult)
        ensures
            labelled(r, self.input),
            r.error is None,
            reports_matches(r, lines_view(lines@), self.options.pattern@, self.options.match_context as int),
    {
        let found = search_reader(lines, self.options.match_context, &self.options.pattern);
        FileSearchResult { matched_lines: found, file_name: label(&self.input), error: None }
    }

    /// The result of a unit that could not be read: no matches, and the error.
    pub fn read_failed(&self, error: String) -> (r: FileSearchResult)
        ensures
            labelled(r, self.input),
            r.matched_lines@.len() == 0,
            r.error matches Some(e) && e@ == error@,
    {
        FileSearchResult { matched_lines: Vec::new(), file_name: label(&self.input), error: Some(error) }
    }

    /// The result of a unit of literal text, which is split into lines here;
    /// `None` for a file, whose lines the caller reads.
    pub fn search_text(&self) -> (r: Option<FileSearchResult>)
        ensures
            r is Some <==> self.input is String,
            r matches Some(res) ==> self.input matches SearchInput::String(text) && labelled(
                res,
                self.input,
            ) && res.error is None && reports_matches(
                res,
                text_lines(split_lines(text@)),
                self.options.pattern@,
                self.options.match_context as int,
            ),
    {
        match &self.input {
            SearchInput::String(text) => {
                let lines = crate::lines::read_lines(text.as_str());
                Some(self.search_lines(&lines))
            },
            SearchInput::File(_) => None,
        }
    }
}

} // verus!
