use late::{Action, Document, Editor, Key, Markup, Size, StatusMessage};

fn editor_over(text: &str, width: u16, height: u16) -> Editor {
    let doc = Document::from_text(text, None, Markup::default());
    Editor::new(doc, Size { width, height }, String::from("Ctrl-Q to quit!"))
}

fn doc_line(e: &Editor, i: usize) -> String {
    e.document().row(i).expect("row should exist").contents()
}

#[test]
fn right_walks_along_a_row() {
    let mut e = editor_over("abc", 80, 24);
    e.move_cursor(Key::Right);
    assert_eq!((e.position().x, e.position().y), (1, 0));
}

#[test]
fn right_at_row_end_wraps_to_next_row() {
    let mut e = editor_over("ab\ncd", 80, 24);
    e.move_cursor(Key::Right);
    e.move_cursor(Key::Right);
    assert_eq!((e.position().x, e.position().y), (2, 0));
    e.move_cursor(Key::Right);
    assert_eq!((e.position().x, e.position().y), (0, 1));
}

#[test]
fn right_at_end_of_last_row_stays() {
    let mut e = editor_over("ab", 80, 24);
    e.move_cursor(Key::Right);
    e.move_cursor(Key::Right);
    assert_eq!((e.position().x, e.position().y), (2, 0));
    e.move_cursor(Key::Right);
    assert_eq!((e.position().x, e.position().y), (2, 0));
}

#[test]
fn right_on_empty_document_stays_put() {
    let mut e = editor_over("", 80, 24);
    e.move_cursor(Key::Right);
    assert_eq!((e.position().x, e.position().y), (0, 0));
}

#[test]
fn left_wraps_to_previous_row_end() {
    let mut e = editor_over("abc\nd", 80, 24);
    e.move_cursor(Key::Down);
    assert_eq!((e.position().x, e.position().y), (0, 1));
    e.move_cursor(Key::Left);
    assert_eq!((e.position().x, e.position().y), (3, 0));
}

#[test]
fn left_at_origin_stays() {
    let mut e = editor_over("abc", 80, 24);
    e.move_cursor(Key::Left);
    assert_eq!((e.position().x, e.position().y), (0, 0));
}

#[test]
fn down_at_last_row_keeps_row_index() {
    let mut e = editor_over("a\nb", 80, 24);
    e.move_cursor(Key::Down);
    assert_eq!(e.position().y, 1);
    e.move_cursor(Key::Down);
    assert_eq!(e.position().y, 1);
}

#[test]
fn down_on_empty_document_does_not_panic() {
    let mut e = editor_over("", 80, 24);
    e.move_cursor(Key::Down);
    assert_eq!((e.position().x, e.position().y), (0, 0));
}

#[test]
fn up_and_down_clamp_column_to_row_length() {
    let mut e = editor_over("abcdef\nab", 80, 24);
    for _ in 0..4 {
        e.move_cursor(Key::Right);
    }
    assert_eq!(e.position().x, 4);
    e.move_cursor(Key::Down);
    assert_eq!((e.position().x, e.position().y), (2, 1));
    e.move_cursor(Key::Up);
    assert_eq!((e.position().x, e.position().y), (2, 0));
}

#[test]
fn vertical_scroll_follows_cursor() {
    let mut e = editor_over("a\nb\nc\nd\ne", 80, 2);
    e.move_cursor(Key::Down);
    assert_eq!(e.offset().y, 0);
    e.move_cursor(Key::Down);
    assert_eq!(e.offset().y, 1);
    e.move_cursor(Key::Down);
    assert_eq!(e.offset().y, 2);
    e.move_cursor(Key::Up);
    e.move_cursor(Key::Up);
    e.move_cursor(Key::Up);
    assert_eq!((e.position().y, e.offset().y), (0, 0));
}

#[test]
fn horizontal_scroll_follows_cursor() {
    let mut e = editor_over("abcdef", 3, 24);
    e.move_cursor(Key::Right);
    e.move_cursor(Key::Right);
    assert_eq!(e.offset().x, 0);
    e.move_cursor(Key::Right);
    assert_eq!((e.position().x, e.offset().x), (3, 1));
    e.move_cursor(Key::Left);
    e.move_cursor(Key::Left);
    e.move_cursor(Key::Left);
    assert_eq!((e.position().x, e.offset().x), (0, 0));
}

#[test]
fn typing_inserts_and_advances() {
    let mut e = editor_over("", 80, 24);
    let r = e.process_keyboard(Key::Char('h'));
    assert!(matches!(r, Action::Continue));
    e.process_keyboard(Key::Char('i'));
    assert_eq!(doc_line(&e, 0), "hi");
    assert_eq!((e.position().x, e.position().y), (2, 0));
}

#[test]
fn typing_newline_splits_row_under_cursor() {
    let mut e = editor_over("abcd", 80, 24);
    e.move_cursor(Key::Right);
    e.move_cursor(Key::Right);
    e.process_keyboard(Key::Char('\n'));
    assert_eq!(e.document().len(), 2);
    assert_eq!(doc_line(&e, 0), "ab");
    assert_eq!(doc_line(&e, 1), "cd");
    assert_eq!((e.position().x, e.position().y), (0, 1));
}

#[test]
fn backspace_deletes_before_cursor() {
    let mut e = editor_over("abc", 80, 24);
    e.move_cursor(Key::Right);
    e.process_keyboard(Key::Backspace);
    assert_eq!(doc_line(&e, 0), "bc");
    assert_eq!((e.position().x, e.position().y), (0, 0));
}

#[test]
fn backspace_at_row_start_merges_rows() {
    let mut e = editor_over("ab\ncd", 80, 24);
    e.move_cursor(Key::Down);
    e.process_keyboard(Key::Backspace);
    assert_eq!(e.document().len(), 1);
    assert_eq!(doc_line(&e, 0), "abcd");
    assert_eq!((e.position().x, e.position().y), (2, 0));
}

#[test]
fn backspace_at_origin_is_noop() {
    let mut e = editor_over("abc", 80, 24);
    e.process_keyboard(Key::Backspace);
    assert_eq!(doc_line(&e, 0), "abc");
}

#[test]
fn ctrl_q_asks_to_quit() {
    let mut e = editor_over("abc", 80, 24);
    assert!(!e.should_quit());
    let r = e.process_keyboard(Key::Ctrl('q'));
    assert!(matches!(r, Action::Continue));
    assert!(e.should_quit());
}

#[test]
fn ctrl_s_asks_to_save() {
    let mut e = editor_over("abc", 80, 24);
    let r = e.process_keyboard(Key::Ctrl('s'));
    assert!(matches!(r, Action::Save));
    assert_eq!(doc_line(&e, 0), "abc");
}

#[test]
fn other_keys_change_nothing() {
    let mut e = editor_over("abc", 80, 24);
    e.process_keyboard(Key::Other);
    e.process_keyboard(Key::Ctrl('x'));
    assert_eq!(doc_line(&e, 0), "abc");
    assert_eq!((e.position().x, e.position().y), (0, 0));
}

#[test]
fn screen_cursor_is_relative_to_offset() {
    let mut e = editor_over("a\nb\nc\nd", 80, 2);
    e.move_cursor(Key::Down);
    e.move_cursor(Key::Down);
    let sc = e.screen_cursor();
    assert_eq!((sc.x, sc.y), (0, 2));
}

#[test]
fn status_line_shows_name_and_position() {
    let doc = Document::from_text("x\ny", Some(String::from("a.txt")), Markup::default());
    let e = Editor::new(doc, Size { width: 30, height: 10 }, String::new());
    let line = e.status_line();
    assert_eq!(line.len(), 30);
    assert!(line.starts_with("File: 'a.txt' line: 1/2"));
}

#[test]
fn status_line_without_name_uses_placeholder() {
    let e = editor_over("x", 40, 10);
    assert!(e.status_line().starts_with("File: '[No Name]' line: 1/1"));
}

#[test]
fn sub_line_pads_status_message() {
    let mut e = editor_over("x", 10, 10);
    e.set_status(StatusMessage::from(String::from("hi")));
    assert_eq!(e.sub_line(), "hi        ");
    assert_eq!(e.status().as_str(), "hi");
}

#[test]
fn welcome_message_is_cut_to_width() {
    let e = editor_over("", 10, 10);
    let w = e.welcome_message();
    assert_eq!(w.chars().count(), 10);
    assert!(w.starts_with('~'));
}

#[test]
fn row_text_renders_visible_rows() {
    let e = editor_over("hello", 80, 24);
    assert_eq!(e.row_text(0), "hello");
    assert_eq!(e.row_text(1), "~");
}

#[test]
fn row_text_greets_in_the_middle_of_an_empty_document() {
    let e = editor_over("", 40, 10);
    assert!(e.row_text(5).starts_with('~'));
    assert!(e.row_text(5).contains("Welcome"));
    assert_eq!(e.row_text(4), "~");
}

#[test]
fn prompt_collects_printable_characters() {
    let mut buf = String::new();
    assert!(!late::prompt_step(&mut buf, Key::Char('a')));
    assert!(!late::prompt_step(&mut buf, Key::Char('b')));
    assert!(!late::prompt_step(&mut buf, Key::Backspace));
    assert!(!late::prompt_step(&mut buf, Key::Char('c')));
    assert!(!late::prompt_step(&mut buf, Key::Char('\u{7}')));
    assert!(!late::prompt_step(&mut buf, Key::Other));
    assert_eq!(buf, "ac");
    assert!(late::prompt_step(&mut buf, Key::Char('\n')));
    assert_eq!(buf, "ac");
}

#[test]
fn prompt_backspace_on_empty_buffer_is_noop() {
    let mut buf = String::new();
    assert!(!late::prompt_step(&mut buf, Key::Backspace));
    assert_eq!(buf, "");
}

#[test]
fn control_characters_are_recognized() {
    assert!(late::is_control('\u{0}'));
    assert!(late::is_control('\u{1f}'));
    assert!(late::is_control('\u{7f}'));
    assert!(!late::is_control('a'));
    assert!(!late::is_control(' '));
}
