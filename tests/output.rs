use grrs::report::{line_number, result_lines};
use grrs::{FileSearchResult, MatchResult, SearchOptions};

fn options(numbers: bool, include_empty: bool) -> SearchOptions {
    SearchOptions {
        pattern: String::new(),
        path: None,
        print_line_numbers: numbers,
        time: false,
        include_empty_matches: include_empty,
        match_context: 0,
    }
}

fn rendered(index: usize, text: &str) -> MatchResult {
    MatchResult { index, raw: text.to_string(), result: text.to_string() }
}

fn plain_colors() {
    colored::control::set_override(false);
}

#[test]
fn line_numbers_are_one_based_and_right_aligned() {
    assert_eq!(line_number(0), "   1");
    assert_eq!(line_number(41), "  42");
    assert_eq!(line_number(9998), "9999");
    assert_eq!(line_number(12344), "12345");
}

#[test]
fn matches_come_out_in_line_order() {
    plain_colors();
    let result = FileSearchResult {
        matched_lines: vec![rendered(1, "second"), rendered(4, "fifth")],
        file_name: Some("f.txt".to_string()),
        error: None,
    };
    let out = result_lines(&result, &options(true, false));
    assert_eq!(out, vec!["\nf.txt", "   2. second", "   5. fifth"]);
}

#[test]
fn plain_lines_without_numbers() {
    plain_colors();
    let result = FileSearchResult {
        matched_lines: vec![rendered(0, "only")],
        file_name: None,
        error: None,
    };
    assert_eq!(result_lines(&result, &options(false, false)), vec!["only"]);
}

#[test]
fn empty_file_has_no_header_unless_asked() {
    plain_colors();
    let result = FileSearchResult {
        matched_lines: vec![],
        file_name: Some("empty.txt".to_string()),
        error: None,
    };
    assert!(result_lines(&result, &options(false, false)).is_empty());
    assert_eq!(result_lines(&result, &options(false, true)), vec!["\nempty.txt"]);
}

#[test]
fn unreadable_file_shows_an_error_line() {
    plain_colors();
    let result = FileSearchResult {
        matched_lines: vec![],
        file_name: Some("locked.txt".to_string()),
        error: Some("permission denied".to_string()),
    };
    assert_eq!(
        result_lines(&result, &options(false, false)),
        vec!["\nlocked.txt", "error: permission denied"]
    );
}
