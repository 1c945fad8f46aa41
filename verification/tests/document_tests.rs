use late::{Document, Markup, Position};

fn doc_from_rows(text: &str) -> Document {
    Document::from_text(text, None, Markup::default())
}

fn row_text(doc: &Document, i: usize) -> String {
    doc.row(i).expect("row should exist").contents()
}

#[test]
fn from_text_splits_lines() {
    let doc = doc_from_rows("abc\ndef");
    assert_eq!(doc.len(), 2);
    assert_eq!(row_text(&doc, 0), "abc");
    assert_eq!(row_text(&doc, 1), "def");
}

#[test]
fn from_text_ignores_final_newline() {
    let doc = doc_from_rows("abc\ndef\n");
    assert_eq!(doc.len(), 2);
    assert_eq!(row_text(&doc, 1), "def");
}

#[test]
fn from_text_of_empty_content_has_no_rows() {
    let doc = doc_from_rows("");
    assert_eq!(doc.len(), 0);
    assert!(doc.is_empty());
}

#[test]
fn from_text_keeps_empty_middle_lines() {
    let doc = doc_from_rows("a\n\nb");
    assert_eq!(doc.len(), 3);
    assert_eq!(row_text(&doc, 1), "");
}

#[test]
fn to_text_joins_without_trailing_newline() {
    let doc = doc_from_rows("abc\ndef");
    assert_eq!(doc.to_text(), "abc\ndef");
    let empty = doc_from_rows("");
    assert_eq!(empty.to_text(), "");
}

#[test]
fn open_save_round_trip() {
    let original = "fn main {\n\tbody\n}\nlast line";
    let doc = doc_from_rows(original);
    assert_eq!(doc.to_text(), original);
}

#[test]
fn save_open_round_trip_keeps_rows() {
    let doc = doc_from_rows("abc

déf");
    let reopened = doc_from_rows(&doc.to_text());
    assert_eq!(reopened.len(), doc.len());
    for i in 0..doc.len() {
        assert_eq!(row_text(&reopened, i), row_text(&doc, i));
    }
}

#[test]
fn insert_newline_in_row_splits_it() {
    let mut doc = doc_from_rows("abcdef");
    doc.insert('\n', &Position { x: 3, y: 0 });
    assert_eq!(doc.len(), 2);
    assert_eq!(row_text(&doc, 0), "abc");
    assert_eq!(row_text(&doc, 1), "def");
}

#[test]
fn insert_newline_one_past_end_appends_empty_row() {
    let mut doc = doc_from_rows("abc");
    doc.insert('\n', &Position { x: 0, y: 1 });
    assert_eq!(doc.len(), 2);
    assert_eq!(row_text(&doc, 0), "abc");
    assert_eq!(row_text(&doc, 1), "");
}

#[test]
fn insert_newline_one_past_end_ignores_the_column() {
    let mut doc = doc_from_rows("abc");
    doc.insert('\n', &Position { x: 7, y: 1 });
    assert_eq!(doc.len(), 2);
    assert_eq!(row_text(&doc, 0), "abc");
    assert_eq!(row_text(&doc, 1), "");
}

#[test]
fn insert_newline_far_past_end_is_noop() {
    let mut doc = doc_from_rows("abc");
    doc.insert('\n', &Position { x: 0, y: 2 });
    assert_eq!(doc.len(), 1);
    assert_eq!(row_text(&doc, 0), "abc");
}

#[test]
fn insert_char_into_row() {
    let mut doc = doc_from_rows("ac");
    doc.insert('b', &Position { x: 1, y: 0 });
    assert_eq!(row_text(&doc, 0), "abc");
}

#[test]
fn insert_char_one_past_end_opens_new_row() {
    let mut doc = doc_from_rows("abc");
    doc.insert('x', &Position { x: 0, y: 1 });
    assert_eq!(doc.len(), 2);
    assert_eq!(row_text(&doc, 1), "x");
}

#[test]
fn insert_char_into_empty_document() {
    let mut doc = Document::default();
    doc.insert('a', &Position { x: 0, y: 0 });
    assert_eq!(doc.len(), 1);
    assert_eq!(row_text(&doc, 0), "a");
}

#[test]
fn delete_merges_rows_at_row_end() {
    let mut doc = doc_from_rows("abc\ndef");
    doc.delete(&Position { x: 3, y: 0 });
    assert_eq!(doc.len(), 1);
    assert_eq!(row_text(&doc, 0), "abcdef");
}

#[test]
fn delete_in_row_removes_grapheme() {
    let mut doc = doc_from_rows("abc\ndef");
    doc.delete(&Position { x: 1, y: 1 });
    assert_eq!(doc.len(), 2);
    assert_eq!(row_text(&doc, 1), "df");
}

#[test]
fn delete_past_rows_is_noop() {
    let mut doc = doc_from_rows("abc");
    doc.delete(&Position { x: 0, y: 5 });
    assert_eq!(doc.len(), 1);
    assert_eq!(row_text(&doc, 0), "abc");
}

#[test]
fn delete_at_end_of_last_row_is_noop() {
    let mut doc = doc_from_rows("abc");
    doc.delete(&Position { x: 3, y: 0 });
    assert_eq!(row_text(&doc, 0), "abc");
}

#[test]
fn row_out_of_range_is_none() {
    let doc = doc_from_rows("abc");
    assert!(doc.row(1).is_none());
    assert!(doc.row(0).is_some());
}

#[test]
fn file_name_is_kept() {
    let mut doc = Document::from_text("x", Some(String::from("a.rs")), Markup::default());
    assert_eq!(doc.file_name().as_deref(), Some("a.rs"));
    doc.set_file_name(None);
    assert!(doc.file_name().is_none());
}

#[test]
fn markup_is_kept() {
    let markup = Markup { keywords: vec![String::from("if")] };
    let doc = Document::from_text("x", None, markup);
    assert_eq!(doc.markup().keywords, vec![String::from("if")]);
}
