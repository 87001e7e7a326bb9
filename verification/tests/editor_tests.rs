use bim::{Document, Editor, Key, Position};

fn editor_over(lines: &[&str], width: usize, height: usize) -> Editor {
    let doc = Document {
        lines: lines.iter().map(|s| s.to_string()).collect(),
        path: "scratch.txt".to_string(),
    };
    Editor::new(doc, width, height)
}

#[test]
fn new_editor_starts_at_top_left_editing() {
    let e = editor_over(&["abc"], 80, 24);
    assert!(e.running);
    assert!(!e.options_mode);
    assert_eq!(e.scroll_position, 0);
    assert_eq!(e.cursor, Position { x: 0, y: 0 });
}

#[test]
fn insert_advances_cursor() {
    let mut e = editor_over(&["abc"], 80, 24);
    e.cursor = Position { x: 1, y: 0 };
    e.process_input(Key::Char('x'));
    assert_eq!(e.open_document.lines, vec!["axbc"]);
    assert_eq!(e.cursor, Position { x: 2, y: 0 });
}

#[test]
fn insert_at_line_end() {
    let mut e = editor_over(&["abc"], 80, 24);
    e.cursor = Position { x: 3, y: 0 };
    e.process_input(Key::Char('!'));
    assert_eq!(e.open_document.lines, vec!["abc!"]);
    assert_eq!(e.cursor, Position { x: 4, y: 0 });
}

#[test]
fn newline_splits_line_at_cursor() {
    let mut e = editor_over(&["abcdef"], 80, 24);
    e.cursor = Position { x: 2, y: 0 };
    e.process_input(Key::Char('\n'));
    assert_eq!(e.open_document.lines, vec!["ab", "cdef"]);
    assert_eq!(e.cursor, Position { x: 0, y: 1 });
    assert_eq!(e.scroll_position, 0);
}

#[test]
fn newline_on_last_editable_row_scrolls() {
    let mut e = editor_over(&["a", "b", "c"], 80, 3);
    // height 3: rows 0..=1 are editable, row 1 is the last one
    e.cursor = Position { x: 1, y: 1 };
    e.process_input(Key::Char('\n'));
    assert_eq!(e.open_document.lines, vec!["a", "b", "", "c"]);
    assert_eq!(e.cursor, Position { x: 0, y: 1 });
    assert_eq!(e.scroll_position, 1);
}

#[test]
fn backspace_removes_character_before_cursor() {
    let mut e = editor_over(&["abc"], 80, 24);
    e.cursor = Position { x: 2, y: 0 };
    e.process_input(Key::Backspace);
    assert_eq!(e.open_document.lines, vec!["ac"]);
    assert_eq!(e.cursor, Position { x: 1, y: 0 });
}

#[test]
fn backspace_at_line_start_merges_lines() {
    let mut e = editor_over(&["abc", "de"], 80, 24);
    e.cursor = Position { x: 0, y: 1 };
    e.process_input(Key::Backspace);
    assert_eq!(e.open_document.lines, vec!["abcde"]);
    assert_eq!(e.cursor, Position { x: 3, y: 0 });
}

#[test]
fn backspace_at_document_start_is_a_no_op() {
    let mut e = editor_over(&["abc"], 80, 24);
    e.process_input(Key::Backspace);
    assert_eq!(e.open_document.lines, vec!["abc"]);
    assert_eq!(e.cursor, Position { x: 0, y: 0 });
}

#[test]
fn backspace_merge_at_top_of_scrolled_view_scrolls_up() {
    let mut e = editor_over(&["abc", "de"], 80, 24);
    e.scroll_position = 1;
    e.cursor = Position { x: 0, y: 0 };
    e.process_input(Key::Backspace);
    assert_eq!(e.open_document.lines, vec!["abcde"]);
    assert_eq!(e.cursor, Position { x: 3, y: 0 });
    assert_eq!(e.scroll_position, 0);
}

#[test]
fn split_then_merge_restores_line_and_cursor() {
    let mut e = editor_over(&["abcdef"], 80, 24);
    e.cursor = Position { x: 4, y: 0 };
    e.process_input(Key::Char('\n'));
    e.process_input(Key::Backspace);
    assert_eq!(e.open_document.lines, vec!["abcdef"]);
    assert_eq!(e.cursor, Position { x: 4, y: 0 });
}

#[test]
fn down_clamps_then_newline_then_backspace_scenario() {
    let mut e = editor_over(&["abc", "de"], 80, 24);
    e.cursor = Position { x: 3, y: 0 };
    e.process_input(Key::Down);
    assert_eq!(e.cursor, Position { x: 2, y: 1 });
    e.process_input(Key::Char('\n'));
    assert_eq!(e.open_document.lines, vec!["abc", "de", ""]);
    assert_eq!(e.cursor, Position { x: 0, y: 2 });
    e.process_input(Key::Backspace);
    assert_eq!(e.open_document.lines, vec!["abc", "de"]);
    assert_eq!(e.cursor, Position { x: 2, y: 1 });
}

#[test]
fn up_clamps_to_shorter_line() {
    let mut e = editor_over(&["ab", "abcdef"], 80, 24);
    e.cursor = Position { x: 5, y: 1 };
    e.process_input(Key::Up);
    assert_eq!(e.cursor, Position { x: 2, y: 0 });
}

#[test]
fn up_at_top_of_scrolled_view_scrolls_up() {
    let mut e = editor_over(&["ab", "cdef"], 80, 24);
    e.scroll_position = 1;
    e.cursor = Position { x: 4, y: 0 };
    e.process_input(Key::Up);
    assert_eq!(e.scroll_position, 0);
    assert_eq!(e.cursor, Position { x: 2, y: 0 });
}

#[test]
fn up_at_document_start_stays_put() {
    let mut e = editor_over(&["abc"], 80, 24);
    e.cursor = Position { x: 1, y: 0 };
    e.process_input(Key::Up);
    assert_eq!(e.cursor, Position { x: 1, y: 0 });
    assert_eq!(e.scroll_position, 0);
}

#[test]
fn down_on_last_line_stays_put() {
    let mut e = editor_over(&["abc", "de"], 80, 24);
    e.cursor = Position { x: 1, y: 1 };
    e.process_input(Key::Down);
    assert_eq!(e.cursor, Position { x: 1, y: 1 });
    assert_eq!(e.scroll_position, 0);
}

#[test]
fn down_on_last_editable_row_scrolls_and_clamps() {
    let mut e = editor_over(&["aaaa", "bbbb", "c"], 80, 3);
    e.cursor = Position { x: 4, y: 1 };
    e.process_input(Key::Down);
    assert_eq!(e.scroll_position, 1);
    assert_eq!(e.cursor, Position { x: 1, y: 1 });
}

#[test]
fn left_right_home_end_stay_within_the_line() {
    let mut e = editor_over(&["abc"], 80, 24);
    e.process_input(Key::Left);
    assert_eq!(e.cursor.x, 0);
    e.process_input(Key::Right);
    assert_eq!(e.cursor.x, 1);
    e.process_input(Key::End);
    assert_eq!(e.cursor.x, 3);
    e.process_input(Key::Right);
    assert_eq!(e.cursor.x, 3);
    e.process_input(Key::Home);
    assert_eq!(e.cursor.x, 0);
}

#[test]
fn escape_enters_and_leaves_options_mode() {
    let mut e = editor_over(&["abc"], 80, 24);
    e.process_input(Key::Esc);
    assert!(e.options_mode);
    let saved = e.process_options(Key::Esc);
    assert!(!saved);
    assert!(!e.options_mode);
    assert!(e.running);
}

#[test]
fn options_s_saves_once_and_returns_to_editing() {
    let mut e = editor_over(&["abc"], 80, 24);
    e.options_mode = true;
    let saved = e.process_options(Key::Char('s'));
    assert!(saved);
    assert!(!e.options_mode);
    assert!(e.running);
}

#[test]
fn options_a_saves_once_and_quits() {
    let mut e = editor_over(&["abc"], 80, 24);
    e.options_mode = true;
    let saved = e.process_options(Key::Char('a'));
    assert!(saved);
    assert!(!e.running);
}

#[test]
fn options_q_quits_without_saving() {
    let mut e = editor_over(&["abc"], 80, 24);
    e.options_mode = true;
    let saved = e.process_options(Key::Char('q'));
    assert!(!saved);
    assert!(!e.running);
}

#[test]
fn options_other_keys_are_ignored() {
    let mut e = editor_over(&["abc"], 80, 24);
    e.options_mode = true;
    let saved = e.process_options(Key::Char('z'));
    assert!(!saved);
    assert!(e.options_mode);
    assert!(e.running);
}

#[test]
fn editing_other_keys_are_ignored() {
    let mut e = editor_over(&["abc"], 80, 24);
    e.cursor = Position { x: 2, y: 0 };
    e.process_input(Key::Other);
    assert_eq!(e.open_document.lines, vec!["abc"]);
    assert_eq!(e.cursor, Position { x: 2, y: 0 });
}

#[test]
fn page_keys_do_not_move_the_cursor() {
    let mut e = editor_over(&["abc", "de"], 80, 24);
    e.cursor = Position { x: 1, y: 1 };
    e.process_input(Key::PageUp);
    e.process_input(Key::PageDown);
    assert_eq!(e.cursor, Position { x: 1, y: 1 });
    assert_eq!(e.scroll_position, 0);
}

#[test]
fn typing_into_an_empty_document() {
    let mut e = editor_over(&[""], 80, 24);
    e.process_input(Key::Char('h'));
    e.process_input(Key::Char('i'));
    assert_eq!(e.open_document.lines, vec!["hi"]);
    assert_eq!(e.cursor, Position { x: 2, y: 0 });
}

#[test]
fn status_text_shows_row_over_total_in_editing_mode() {
    let mut e = editor_over(&["abc", "de"], 80, 24);
    e.cursor = Position { x: 0, y: 1 };
    assert_eq!(e.status_text(), "(2/2) ESC for Options ".to_string());
    e.update_status_bar();
    assert_eq!(e.status_bar, "(2/2) ESC for Options ".to_string());
}

#[test]
fn status_text_counts_scrolled_rows() {
    let mut e = editor_over(&["a", "b", "c"], 80, 3);
    e.scroll_position = 1;
    e.cursor = Position { x: 0, y: 1 };
    assert_eq!(e.status_text(), "(3/3) ESC for Options ".to_string());
}

#[test]
fn status_text_in_options_mode_lists_the_keys() {
    let mut e = editor_over(&["abc"], 80, 24);
    e.options_mode = true;
    assert_eq!(
        e.status_text(),
        "[Options] ESC: Back to Editor / a: Save and Exit / s: Save / q: Quit ".to_string()
    );
}

#[test]
fn render_shows_lines_then_tildes() {
    let e = editor_over(&["abc", "de"], 80, 5);
    let rows = e.render_rows();
    assert_eq!(rows, vec!["abc", "de", "~", "~"]);
}

#[test]
fn render_respects_scroll_offset() {
    let mut e = editor_over(&["a", "b", "c"], 80, 3);
    e.scroll_position = 1;
    let rows = e.render_rows();
    assert_eq!(rows, vec!["b", "c"]);
}

#[test]
fn render_strips_embedded_newlines() {
    let e = editor_over(&["a\nb"], 80, 3);
    let rows = e.render_rows();
    assert_eq!(rows[0], "ab");
}

#[test]
fn render_centers_welcome_banner_on_blank_document() {
    let e = editor_over(&[""], 21, 10);
    let rows = e.render_rows();
    // banner row is height / 2 - 2 = 3; (21 - 13) / 2 = 4 leading spaces
    assert_eq!(rows[0], "");
    assert_eq!(rows[3], "    BIM (Bad vIM)");
    assert_eq!(rows[4], "~");
    assert_eq!(rows.len(), 9);
}

#[test]
fn render_shows_no_banner_once_document_has_text() {
    let e = editor_over(&["x"], 21, 10);
    let rows = e.render_rows();
    assert_eq!(rows[3], "~");
}
