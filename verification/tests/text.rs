use chatrepo::text::{
    join_lines, lower_char, push_two_digits, repeat_char, same_text, split_lines, split_pieces,
    starts_with, take_chars, to_ascii_lowercase,
};

fn strings(parts: &[&str]) -> Vec<String> {
    parts.iter().map(|part| part.to_string()).collect()
}

#[test]
fn same_text_compares_characters() {
    assert!(same_text("abc", "abc"));
    assert!(!same_text("abc", "abd"));
    assert!(!same_text("abc", "ab"));
    assert!(same_text("", ""));
}

#[test]
fn starts_with_accepts_prefixes_only() {
    assert!(starts_with("update", "update"));
    assert!(starts_with("update now", "update"));
    assert!(starts_with("anything", ""));
    assert!(!starts_with("updat", "update"));
    assert!(!starts_with(" update", "update"));
    assert!(!starts_with("", "update"));
}

#[test]
fn starts_with_counts_characters_not_bytes() {
    assert!(starts_with("héllo", "hé"));
    assert!(!starts_with("héllo", "he"));
}

#[test]
fn take_chars_cuts_long_text() {
    assert_eq!(take_chars("hello", 3), "hel");
    assert_eq!(take_chars("hello", 5), "hello");
    assert_eq!(take_chars("hello", 9), "hello");
    assert_eq!(take_chars("hello", 0), "");
    assert_eq!(take_chars("", 4), "");
}

#[test]
fn take_chars_keeps_whole_characters() {
    assert_eq!(take_chars("äöü", 2), "äö");
}

#[test]
fn join_lines_puts_line_feeds_between_parts() {
    assert_eq!(join_lines(&strings(&[])), "");
    assert_eq!(join_lines(&strings(&["a"])), "a");
    assert_eq!(join_lines(&strings(&["a", "b", "c"])), "a\nb\nc");
    assert_eq!(join_lines(&strings(&["", ""])), "\n");
}

#[test]
fn split_lines_keeps_line_endings() {
    assert_eq!(split_lines("foo\nbar\nbaz"), strings(&["foo\n", "bar\n", "baz"]));
    assert_eq!(split_lines("foo\nbar\n"), strings(&["foo\n", "bar\n"]));
    assert_eq!(split_lines("\n\n"), strings(&["\n", "\n"]));
    assert_eq!(split_lines("single"), strings(&["single"]));
    assert_eq!(split_lines(""), strings(&[]));
}

#[test]
fn split_lines_agrees_with_syntect() {
    for text in ["", "a", "a\n", "a\nb", "\n", "a\r\nb\r\n", "x\n\ny"] {
        let expected: Vec<String> = syntect::util::LinesWithEndings::from(text)
            .map(|line| line.to_string())
            .collect();
        assert_eq!(split_lines(text), expected);
    }
}

#[test]
fn repeat_char_repeats() {
    assert_eq!(repeat_char('#', 0), "");
    assert_eq!(repeat_char('#', 1), "#");
    assert_eq!(repeat_char('#', 6), "######");
}

#[test]
fn lower_char_changes_ascii_capitals_only() {
    assert_eq!(lower_char('A'), 'a');
    assert_eq!(lower_char('Z'), 'z');
    assert_eq!(lower_char('a'), 'a');
    assert_eq!(lower_char('@'), '@');
    assert_eq!(lower_char('['), '[');
    assert_eq!(lower_char('É'), 'É');
}

#[test]
fn to_ascii_lowercase_lowers_a_text() {
    assert_eq!(to_ascii_lowercase("PnG"), "png");
    assert_eq!(to_ascii_lowercase("Hello, World 42"), "hello, world 42");
    assert_eq!(to_ascii_lowercase(""), "");
}

#[test]
fn push_two_digits_pads_with_zero() {
    let mut out = String::from("t=");
    push_two_digits(&mut out, 0);
    push_two_digits(&mut out, 7);
    push_two_digits(&mut out, 42);
    push_two_digits(&mut out, 99);
    assert_eq!(out, "t=00074299");
}

#[test]
fn split_pieces_drops_the_line_feeds() {
    assert_eq!(split_pieces("foo\nbar\nbaz"), strings(&["foo", "bar", "baz"]));
    assert_eq!(split_pieces("foo\n"), strings(&["foo", ""]));
    assert_eq!(split_pieces("\n\n"), strings(&["", "", ""]));
    assert_eq!(split_pieces("single"), strings(&["single"]));
    assert_eq!(split_pieces(""), strings(&[""]));
}

#[test]
fn split_pieces_agrees_with_std() {
    for text in ["", "a", "a\n", "a\nb", "\n", "a\r\nb\r\n", "x\n\ny", "\nä\n"] {
        let expected: Vec<String> = text.split('\n').map(|piece| piece.to_string()).collect();
        assert_eq!(split_pieces(text), expected);
    }
}
