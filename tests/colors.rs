use grrs::report::result_lines;
use grrs::{FileSearchResult, MatchResult, SearchOptions};

fn colors_on() {
    colored::control::set_override(true);
}

#[test]
fn parse_paints_the_match_green() {
    colors_on();
    let a = MatchResult::new(0, "abcXYZdef".to_string()).parse(0, &"XYZ".to_string()).unwrap();
    assert_eq!(a.result, "abc\u{1b}[32mXYZ\u{1b}[0mdef");
    let b = MatchResult::new(0, "abcXYZdef".to_string()).parse(1, &"XYZ".to_string()).unwrap();
    assert_eq!(b.result, "...c\u{1b}[32mXYZ\u{1b}[0md...");
}

#[test]
fn header_red_and_number_blue() {
    colors_on();
    let result = FileSearchResult {
        matched_lines: vec![MatchResult { index: 0, raw: "x".to_string(), result: "x".to_string() }],
        file_name: Some("f".to_string()),
        error: Some("bad".to_string()),
    };
    let options = SearchOptions {
        pattern: "x".to_string(),
        path: None,
        print_line_numbers: true,
        time: false,
        include_empty_matches: false,
        match_context: 0,
    };
    let out = result_lines(&result, &options);
    assert_eq!(out[0], "\n\u{1b}[31mf\u{1b}[0m");
    assert_eq!(out[1], "\u{1b}[31merror:\u{1b}[0m bad");
    assert_eq!(out[2], "\u{1b}[34m   1\u{1b}[0m. x");
}
