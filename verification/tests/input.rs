use regex_chain::input::{
    classify, filter_lines, origin_for, select, split_lines, split_mode, Origin, SplitMode,
};
use regex_chain::stage::{compile_stages, Stage};

fn chain_of(patterns: &[&str]) -> Vec<Stage> {
    let owned: Vec<String> = patterns.iter().map(|p| p.to_string()).collect();
    compile_stages(&owned).expect("patterns compile")
}

#[test]
fn scenario_whole_document() {
    let chain = chain_of(&["an"]);
    let text = "apple\nbanana\ncherry";
    let mode = split_mode(Origin::Local, false);
    assert_eq!(mode, SplitMode::WholeDocument);
    assert_eq!(select(&chain, text, mode), vec!["apple\nbanana\ncherry"]);
}

#[test]
fn scenario_line_by_line() {
    let chain = chain_of(&["an"]);
    let text = "apple\nbanana\ncherry";
    let mode = split_mode(Origin::Local, true);
    assert_eq!(mode, SplitMode::LineByLine);
    assert_eq!(select(&chain, text, mode), vec!["banana"]);
}

#[test]
fn scenario_digits_in_line_mode() {
    let chain = chain_of(&[r"(?P<out>\d+)"]);
    assert_eq!(select(&chain, "id=42 ok", SplitMode::LineByLine), vec!["42"]);
}

#[test]
fn scenario_chain_in_line_mode() {
    let chain = chain_of(&[r"(?P<out>\w+)@", "^a"]);
    assert_eq!(select(&chain, "admin@example.com", SplitMode::LineByLine), vec!["admin"]);
}

#[test]
fn no_patterns_print_text_verbatim() {
    let chain = chain_of(&[]);
    let text = "apple\nbanana\ncherry\n";
    assert_eq!(select(&chain, text, SplitMode::LineByLine), vec![text]);
    assert_eq!(select(&chain, text, SplitMode::WholeDocument), vec![text]);
    assert_eq!(select(&chain, "", SplitMode::LineByLine), vec![""]);
}

#[test]
fn whole_document_miss_gives_nothing() {
    let chain = chain_of(&["zebra"]);
    assert!(select(&chain, "apple\nbanana", SplitMode::WholeDocument).is_empty());
    assert!(select(&chain, "apple\nbanana", SplitMode::LineByLine).is_empty());
}

#[test]
fn lines_keep_their_order() {
    let chain = chain_of(&[r"(?P<out>\d+)"]);
    let text = "a1\nnone\nb22\n\nc333";
    assert_eq!(select(&chain, text, SplitMode::LineByLine), vec!["1", "22", "333"]);
    assert_eq!(select(&chain, text, SplitMode::WholeDocument), vec!["1"]);
}

#[test]
fn whole_document_pattern_spans_lines() {
    let chain = chain_of(&[r"(?P<out>e\nb)"]);
    let text = "apple\nbanana";
    assert_eq!(select(&chain, text, SplitMode::WholeDocument), vec!["e\nb"]);
    assert!(select(&chain, text, SplitMode::LineByLine).is_empty());
}

#[test]
fn filter_lines_runs_each_text_by_itself() {
    let chain = chain_of(&["^a", r"(?P<out>.)$"]);
    let texts = vec!["ab", "ba", "ac", "a"];
    assert_eq!(filter_lines(&chain, &texts), vec!["b", "c", "a"]);
    assert!(filter_lines(&chain, &Vec::new()).is_empty());
}

#[test]
fn split_lines_cuts_at_line_feeds() {
    assert_eq!(split_lines("apple\nbanana\ncherry"), vec!["apple", "banana", "cherry"]);
    assert_eq!(split_lines("one"), vec!["one"]);
    assert_eq!(split_lines(""), vec![""]);
    assert_eq!(split_lines("\n"), vec!["", ""]);
    assert_eq!(split_lines("a\n"), vec!["a", ""]);
    assert_eq!(split_lines("\n\nb"), vec!["", "", "b"]);
    assert_eq!(split_lines("a\r\nb"), vec!["a\r", "b"]);
    assert_eq!(split_lines("é\nü"), vec!["é", "ü"]);
}

#[test]
fn split_lines_agrees_with_std_split() {
    let texts = ["", "\n", "x", "x\ny", "\nx\n\ny\n", "αβ\nγ\n"];
    for text in texts {
        let expected: Vec<&str> = text.split('\n').collect();
        assert_eq!(split_lines(text), expected);
        assert_eq!(split_lines(text).join("\n"), text);
    }
}

#[test]
fn url_is_remote_anything_else_local() {
    assert_eq!(classify("https://example.com/file.txt"), Origin::Remote);
    assert_eq!(classify("http://example.com"), Origin::Remote);
    assert_eq!(classify("notes.txt"), Origin::Local);
    assert_eq!(classify("/var/log/messages"), Origin::Local);
    assert_eq!(classify("./relative/path"), Origin::Local);
    assert_eq!(classify(""), Origin::Local);
    assert_eq!(classify("//example.com/file.txt"), Origin::Local);
}

#[test]
fn origin_follows_the_parse() {
    assert_eq!(origin_for(true), Origin::Remote);
    assert_eq!(origin_for(false), Origin::Local);
}

#[test]
fn split_mode_table() {
    assert_eq!(split_mode(Origin::Remote, false), SplitMode::LineByLine);
    assert_eq!(split_mode(Origin::Remote, true), SplitMode::WholeDocument);
    assert_eq!(split_mode(Origin::Local, false), SplitMode::WholeDocument);
    assert_eq!(split_mode(Origin::Local, true), SplitMode::LineByLine);
}

#[test]
fn url_defaults_to_line_by_line() {
    let origin = classify("https://example.com/file.txt");
    assert_eq!(split_mode(origin, false), SplitMode::LineByLine);
    let origin = classify("file.txt");
    assert_eq!(split_mode(origin, false), SplitMode::WholeDocument);
}
