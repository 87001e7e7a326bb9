use bim::text::{dec_str, insert_char, join_lines, remove_char, split_lines, strip_newlines};
use bim::Document;

fn doc_from(lines: &[&str]) -> Document {
    Document {
        lines: lines.iter().map(|s| s.to_string()).collect(),
        path: "scratch.txt".to_string(),
    }
}

#[test]
fn default_is_one_empty_line() {
    let d = Document::default();
    assert_eq!(d.lines, vec![String::new()]);
    assert_eq!(d.path, String::new());
}

#[test]
fn from_content_empty_is_one_empty_line() {
    let d = Document::from_content("missing.txt", "");
    assert_eq!(d.lines, vec![String::new()]);
    assert_eq!(d.path, "missing.txt".to_string());
}

#[test]
fn from_content_splits_lines() {
    let d = Document::from_content("a.txt", "alpha\nbeta\ngamma");
    assert_eq!(d.lines, vec!["alpha", "beta", "gamma"]);
}

#[test]
fn from_content_trailing_newline_opens_no_line() {
    let d = Document::from_content("a.txt", "alpha\nbeta\n");
    assert_eq!(d.lines, vec!["alpha", "beta"]);
}

#[test]
fn from_content_keeps_inner_empty_lines() {
    let d = Document::from_content("a.txt", "alpha\n\nbeta");
    assert_eq!(d.lines, vec!["alpha", "", "beta"]);
}

#[test]
fn from_content_lone_newline_is_one_empty_line() {
    let d = Document::from_content("a.txt", "\n");
    assert_eq!(d.lines, vec![""]);
}

#[test]
fn save_joins_without_trailing_newline() {
    let d = doc_from(&["alpha", "beta"]);
    assert_eq!(d.save_content(), "alpha\nbeta".to_string());
}

#[test]
fn save_single_line_has_no_newline() {
    let d = doc_from(&["alpha"]);
    assert_eq!(d.save_content(), "alpha".to_string());
}

#[test]
fn save_empty_document_is_empty_content() {
    let d = Document::default();
    assert_eq!(d.save_content(), String::new());
}

#[test]
fn save_load_round_trip() {
    let d = doc_from(&["alpha", "beta", "gamma"]);
    let content = d.save_content();
    let back = Document::from_content("a.txt", content.as_str());
    assert_eq!(back.lines, d.lines);
}

#[test]
fn save_load_round_trip_with_final_newline() {
    let d = doc_from(&["alpha", "beta", "gamma"]);
    let mut content = d.save_content();
    content.push('\n');
    let back = Document::from_content("a.txt", content.as_str());
    assert_eq!(back.lines, d.lines);
}

#[test]
fn split_lines_edges() {
    assert_eq!(split_lines(""), Vec::<String>::new());
    assert_eq!(split_lines("\n"), vec![""]);
    assert_eq!(split_lines("a\n\n"), vec!["a", ""]);
    assert_eq!(split_lines("a"), vec!["a"]);
}

#[test]
fn join_lines_puts_single_newlines_between() {
    let v = vec!["a".to_string(), "".to_string(), "b".to_string()];
    assert_eq!(join_lines(&v), "a\n\nb".to_string());
}

#[test]
fn insert_char_is_position_exact() {
    assert_eq!(insert_char("abc", 0, 'x'), "xabc".to_string());
    assert_eq!(insert_char("abc", 1, 'x'), "axbc".to_string());
    assert_eq!(insert_char("abc", 3, 'x'), "abcx".to_string());
    assert_eq!(insert_char("", 0, 'x'), "x".to_string());
}

#[test]
fn remove_char_drops_one_character() {
    assert_eq!(remove_char("abc", 0), "bc".to_string());
    assert_eq!(remove_char("abc", 1), "ac".to_string());
    assert_eq!(remove_char("abc", 2), "ab".to_string());
}

#[test]
fn strip_newlines_removes_embedded_newlines() {
    assert_eq!(strip_newlines("a\nb\n"), "ab".to_string());
    assert_eq!(strip_newlines("abc"), "abc".to_string());
}

#[test]
fn dec_str_formats_decimal() {
    assert_eq!(dec_str(0), "0".to_string());
    assert_eq!(dec_str(7), "7".to_string());
    assert_eq!(dec_str(10), "10".to_string());
    assert_eq!(dec_str(90210), "90210".to_string());
}
