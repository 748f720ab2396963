use rim::buffer::Buffer;
use rim::codec::{empty_buffer, parse_text};

fn chars_of(text: &str) -> Vec<char> {
    text.chars().collect()
}

fn string_of(chars: &[char]) -> String {
    chars.iter().collect()
}

fn buf_from(text: &str) -> Buffer {
    Buffer::from_text(String::from("scratch.txt"), &chars_of(text))
}

#[test]
fn empty_buffer_is_one_sentinel_line() {
    let d = empty_buffer();
    assert_eq!(d, vec![vec!['\0']]);
}

#[test]
fn parse_empty_text_gives_one_empty_line() {
    let d = parse_text(&chars_of(""));
    assert_eq!(d, vec![vec!['\0']]);
}

#[test]
fn parse_splits_on_newline() {
    let d = parse_text(&chars_of("ab\nc"));
    assert_eq!(d, vec![vec!['a', 'b', '\0'], vec!['c', '\0']]);
}

#[test]
fn parse_splits_on_carriage_return() {
    let d = parse_text(&chars_of("a\rb"));
    assert_eq!(d, vec![vec!['a', '\0'], vec!['b', '\0']]);
}

#[test]
fn parse_crlf_yields_empty_middle_line() {
    let d = parse_text(&chars_of("a\r\nb"));
    assert_eq!(d, vec![vec!['a', '\0'], vec!['\0'], vec!['b', '\0']]);
}

#[test]
fn parse_keeps_trailing_empty_line() {
    let d = parse_text(&chars_of("a\n"));
    assert_eq!(d, vec![vec!['a', '\0'], vec!['\0']]);
}

#[test]
fn save_joins_lines_without_trailing_newline() {
    let buf = buf_from("ab\nc");
    assert_eq!(string_of(&buf.save_text()), "ab\nc");
}

#[test]
fn save_of_empty_document_is_empty() {
    let buf = Buffer::new(None);
    assert_eq!(string_of(&buf.save_text()), "");
}

#[test]
fn save_keeps_trailing_empty_line_as_final_newline() {
    let buf = buf_from("a\n");
    assert_eq!(string_of(&buf.save_text()), "a\n");
}

#[test]
fn save_load_round_trip_is_byte_identical() {
    let original = buf_from("first\nsecond\n\nfourth");
    let saved = original.save_text();
    let reloaded = Buffer::from_text(String::from("scratch.txt"), &saved);
    let saved_again = reloaded.save_text();
    assert_eq!(saved, saved_again);
}

#[test]
fn save_load_round_trip_after_edits() {
    let mut buf = buf_from("hello\nworld");
    buf.move_right();
    buf.insert_nl();
    buf.insert_char('x');
    buf.move_down();
    buf.delete_char();
    let saved = buf.save_text();
    let reloaded = Buffer::from_text(String::from("scratch.txt"), &saved);
    assert_eq!(saved, reloaded.save_text());
}

#[test]
fn carriage_returns_normalize_to_newlines_on_resave() {
    let buf = buf_from("a\rb");
    assert_eq!(string_of(&buf.save_text()), "a\nb");
}
