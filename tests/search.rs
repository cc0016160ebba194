use std::sync::Arc;

use grrs::lines::read_lines;
use grrs::matcher::{chars_of, find_first, render_at, render_match};
use grrs::{search_reader, FileSearchResult, MatchResult, SearchInput, SearchMessage, SearchOptions};

fn options(pattern: &str, context: usize) -> Arc<SearchOptions> {
    Arc::new(SearchOptions {
        pattern: pattern.to_string(),
        path: None,
        print_line_numbers: false,
        time: false,
        include_empty_matches: false,
        match_context: context,
    })
}

fn plain_colors() {
    colored::control::set_override(false);
}

fn rendered(result: &FileSearchResult) -> Vec<String> {
    result.matched_lines.iter().map(|m| m.result.clone()).collect()
}

#[test]
fn can_search_string() {
    plain_colors();
    let msg = SearchMessage::new(
        SearchInput::String("hello\nhow\nare you\ndoing".to_string()),
        options("are ", 0),
    );
    let result = msg.search_text().expect("literal input is searched in place");
    assert_eq!(rendered(&result), vec!["are you".to_string()]);
    assert_eq!(result.matched_lines[0].index, 2);
    assert!(result.file_name.is_none());
    assert!(result.error.is_none());
}

#[test]
fn shows_all_lines_when_empty() {
    plain_colors();
    let msg = SearchMessage::new(
        SearchInput::String("Should\nshow all\nlines".to_string()),
        options("", 0),
    );
    let result = msg.search_text().unwrap();
    assert_eq!(rendered(&result), vec!["Should", "show all", "lines"]);
    let indices: Vec<usize> = result.matched_lines.iter().map(|m| m.index).collect();
    assert_eq!(indices, vec![0, 1, 2]);
}

#[test]
fn file_input_is_not_searched_in_place() {
    let msg = SearchMessage::new(SearchInput::File("a.txt".to_string()), options("x", 0));
    assert!(msg.search_text().is_none());
}

#[test]
fn context_one_clips_both_sides() {
    assert_eq!(
        render_match("abcXYZdef", "XYZ", 1, "XYZ"),
        Some("...cXYZd...".to_string())
    );
}

#[test]
fn context_zero_shows_whole_line() {
    assert_eq!(render_match("abcXYZdef", "XYZ", 0, "XYZ"), Some("abcXYZdef".to_string()));
}

#[test]
fn context_reaching_the_edges_adds_no_ellipsis() {
    assert_eq!(render_match("abcXYZdef", "XYZ", 3, "XYZ"), Some("abcXYZdef".to_string()));
    assert_eq!(render_match("abcXYZdef", "XYZ", 2, "XYZ"), Some("...bcXYZde...".to_string()));
}

#[test]
fn highlight_replaces_the_matched_span() {
    assert_eq!(render_match("abcXYZdef", "XYZ", 0, "[XYZ]"), Some("abc[XYZ]def".to_string()));
}

#[test]
fn only_first_occurrence_is_rendered() {
    assert_eq!(render_match("xaxa", "a", 1, "A"), Some("xAx...".to_string()));
}

#[test]
fn no_match_renders_nothing() {
    assert_eq!(render_match("hello", "bye", 0, "bye"), None);
}

#[test]
fn rendering_twice_gives_the_same_text() {
    plain_colors();
    let a = MatchResult::new(0, "abcXYZdef".to_string()).parse(1, &"XYZ".to_string()).unwrap();
    let b = MatchResult::new(0, "abcXYZdef".to_string()).parse(1, &"XYZ".to_string()).unwrap();
    assert_eq!(a.result, b.result);
    assert_eq!(a.result, "...cXYZd...");
    assert_eq!(
        render_match("abcXYZdef", "XYZ", 1, "XYZ"),
        render_match("abcXYZdef", "XYZ", 1, "XYZ")
    );
}

#[test]
fn parse_keeps_index_and_raw() {
    plain_colors();
    let m = MatchResult::new(7, "one two".to_string()).parse(0, &"two".to_string()).unwrap();
    assert_eq!(m.index, 7);
    assert_eq!(m.raw, "one two");
    assert_eq!(m.result, "one two");
    assert!(MatchResult::new(7, "one".to_string()).parse(0, &"two".to_string()).is_none());
}

#[test]
fn find_first_positions() {
    assert_eq!(find_first(&chars_of("abcabc"), &chars_of("ca")), Some(2));
    assert_eq!(find_first(&chars_of("abc"), &chars_of("")), Some(0));
    assert_eq!(find_first(&chars_of("ab"), &chars_of("abc")), None);
    assert_eq!(find_first(&chars_of(""), &chars_of("")), Some(0));
}

#[test]
fn render_at_counts_characters() {
    assert_eq!(render_at("héllo wörld", 6, 5, 2, "W"), "...o W");
}

#[test]
fn search_reader_skips_unreadable_lines_and_keeps_numbers() {
    plain_colors();
    let lines = vec![
        Some("a match".to_string()),
        None,
        Some("nothing".to_string()),
        Some("match again".to_string()),
    ];
    let found = search_reader(&lines, 0, &"match".to_string());
    let indices: Vec<usize> = found.iter().map(|m| m.index).collect();
    assert_eq!(indices, vec![0, 3]);
    assert_eq!(found[1].result, "match again");
}

#[test]
fn every_matching_line_and_no_other() {
    plain_colors();
    let lines: Vec<Option<String>> =
        ["cat", "dog", "concat", "catalog", "c a t"].iter().map(|s| Some(s.to_string())).collect();
    let found = search_reader(&lines, 0, &"cat".to_string());
    let indices: Vec<usize> = found.iter().map(|m| m.index).collect();
    assert_eq!(indices, vec![0, 2, 3]);
}

#[test]
fn search_lines_labels_files() {
    plain_colors();
    let msg = SearchMessage::new(SearchInput::File("dir/a.txt".to_string()), options("b", 0));
    let lines = vec![Some("abc".to_string()), Some("xyz".to_string())];
    let result = msg.search_lines(&lines);
    assert_eq!(result.file_name, Some("dir/a.txt".to_string()));
    assert_eq!(rendered(&result), vec!["abc"]);
}

#[test]
fn read_failed_keeps_label_and_error() {
    let msg = SearchMessage::new(SearchInput::File("gone.txt".to_string()), options("b", 0));
    let result = msg.read_failed("not found".to_string());
    assert_eq!(result.file_name, Some("gone.txt".to_string()));
    assert_eq!(result.error, Some("not found".to_string()));
    assert!(result.matched_lines.is_empty());
}

fn views(lines: Vec<Option<String>>) -> Vec<String> {
    lines.into_iter().map(|l| l.unwrap()).collect()
}

#[test]
fn lines_split_like_a_reader() {
    assert_eq!(views(read_lines("a\nb")), vec!["a", "b"]);
    assert_eq!(views(read_lines("a\r\nb\n")), vec!["a", "b"]);
    assert_eq!(views(read_lines("x\n\n")), vec!["x", ""]);
    assert_eq!(views(read_lines("\n")), vec![""]);
    assert_eq!(views(read_lines("a\r")), vec!["a\r"]);
    assert!(read_lines("").is_empty());
}
