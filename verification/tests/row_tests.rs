use late::{Markup, Row};

#[test]
fn cafe_has_four_graphemes() {
    assert_eq!(Row::from("café").len(), 4);
}

#[test]
fn combining_accent_counts_once() {
    // "e" followed by a combining acute accent is one cluster
    let row = Row::from("e\u{301}f");
    assert_eq!(row.len(), 2);
}

#[test]
fn emoji_cluster_counts_once() {
    // a multi-codepoint emoji (flag) is one cluster
    let row = Row::from("a\u{1f1e9}\u{1f1ea}b");
    assert_eq!(row.len(), 3);
}

#[test]
fn insert_in_middle() {
    let mut row = Row::from("ab");
    row.insert('c', 1);
    assert_eq!(row.contents(), "acb");
}

#[test]
fn insert_at_length_appends() {
    let mut row = Row::from("ab");
    row.insert('c', 2);
    assert_eq!(row.contents(), "abc");
    let mut other = Row::from("ab");
    other.insert('c', 99);
    assert_eq!(other.contents(), "abc");
}

#[test]
fn delete_in_middle() {
    let mut row = Row::from("abc");
    row.delete(1);
    assert_eq!(row.contents(), "ac");
    assert_eq!(row.len(), 2);
}

#[test]
fn delete_past_end_is_noop() {
    let mut row = Row::from("abc");
    row.delete(3);
    assert_eq!(row.contents(), "abc");
    row.delete(100);
    assert_eq!(row.contents(), "abc");
    assert_eq!(row.len(), 3);
}

#[test]
fn split_in_middle() {
    let mut row = Row::from("abcdef");
    let rest = row.split(3);
    assert_eq!(row.contents(), "abc");
    assert_eq!(rest.contents(), "def");
}

#[test]
fn split_past_end_gives_empty_remainder() {
    let mut row = Row::from("ab");
    let rest = row.split(5);
    assert_eq!(row.contents(), "ab");
    assert_eq!(rest.contents(), "");
    assert_eq!(rest.len(), 0);
}

#[test]
fn split_then_append_round_trips() {
    for i in 0..=4 {
        let mut row = Row::from("wxyz");
        let rest = row.split(i);
        row.append(&rest);
        assert_eq!(row.contents(), "wxyz");
        assert_eq!(row.len(), 4);
    }
}

#[test]
fn split_respects_grapheme_boundaries() {
    let mut row = Row::from("cafému");
    let rest = row.split(4);
    assert_eq!(row.contents(), "café");
    assert_eq!(rest.contents(), "mu");
}

#[test]
fn append_concatenates() {
    let mut row = Row::from("abc");
    let other = Row::from("def");
    row.append(&other);
    assert_eq!(row.contents(), "abcdef");
    assert_eq!(row.len(), 6);
}

#[test]
fn as_bytes_is_utf8() {
    let row = Row::from("café");
    assert_eq!(row.as_bytes(), "café".as_bytes().to_vec());
}

#[test]
fn update_len_keeps_content() {
    let mut row = Row::from("héllo");
    row.update_len();
    assert_eq!(row.len(), 5);
    assert_eq!(row.contents(), "héllo");
}

#[test]
fn render_highlights_exact_tokens() {
    let row = Row::from("if foo then");
    let markup = Markup { keywords: vec![String::from("if"), String::from("then")] };
    let blue = "\u{1b}[38;5;4m";
    let reset = "\u{1b}[39m";
    let expected = format!("{blue}if{reset} foo {blue}then{reset}");
    assert_eq!(row.render(0, 11, &markup), expected);
}

#[test]
fn render_matches_termion_codes() {
    let row = Row::from("if x");
    let markup = Markup { keywords: vec![String::from("if")] };
    let expected = format!(
        "{}if{} x",
        termion::color::Blue.fg_str(),
        termion::color::Reset.fg_str()
    );
    assert_eq!(row.render(0, 4, &markup), expected);
}

#[test]
fn render_leaves_embedded_keywords_alone() {
    let row = Row::from("ifx if");
    let markup = Markup { keywords: vec![String::from("if")] };
    let blue = "\u{1b}[38;5;4m";
    let reset = "\u{1b}[39m";
    assert_eq!(row.render(0, 6, &markup), format!("ifx {blue}if{reset}"));
}

#[test]
fn render_clamps_range() {
    let row = Row::from("abc");
    let markup = Markup::default();
    assert_eq!(row.render(1, 100, &markup), "bc");
    assert_eq!(row.render(5, 2, &markup), "");
}

#[test]
fn render_expands_tabs() {
    let row = Row::from("a\tb");
    let markup = Markup::default();
    // one tab becomes one space, which also splits tokens
    assert_eq!(row.render(0, 3, &markup), "a b");
}
