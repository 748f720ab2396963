use rim::Buffer;

fn buf_from(text: &str) -> Buffer {
    let chars: Vec<char> = text.chars().collect();
    Buffer::from_text(String::from("scratch.txt"), &chars)
}

fn line_string(buf: &Buffer, row: usize) -> String {
    let mut s = String::new();
    let len = buf.line_len(row);
    for col in 0..len {
        s.push(buf.char_at(row, col));
    }
    s
}

#[test]
fn new_buffer_is_single_sentinel_line() {
    let buf = Buffer::new(None);
    assert_eq!(buf.line_count(), 1);
    assert_eq!(buf.line_len(0), 1);
    assert_eq!(buf.char_at(0, 0), '\0');
    assert_eq!(buf.cursor_row(), 0);
    assert_eq!(buf.cursor_col(), 0);
    assert_eq!(buf.row_offset(), 0);
    assert_eq!(buf.col_offset(), 0);
}

#[test]
fn new_buffer_keeps_name() {
    let buf = Buffer::new(Some(String::from("notes.txt")));
    assert_eq!(buf.name().as_str(), "notes.txt");
    let anon = Buffer::new(None);
    assert_eq!(anon.name().as_str(), "");
}

#[test]
fn insert_two_chars_into_empty_document() {
    let mut buf = Buffer::new(None);
    buf.insert_char('a');
    buf.insert_char('b');
    assert_eq!(buf.line_count(), 1);
    assert_eq!(line_string(&buf, 0), "ab\0");
    assert_eq!(buf.cursor_row(), 0);
    assert_eq!(buf.cursor_col(), 2);
}

#[test]
fn insert_char_before_cursor_mid_line() {
    let mut buf = buf_from("ac");
    buf.move_right();
    buf.insert_char('b');
    assert_eq!(line_string(&buf, 0), "abc\0");
    assert_eq!(buf.cursor_col(), 2);
}

#[test]
fn insert_nl_at_sentinel_adds_empty_line_below() {
    let mut buf = buf_from("ab\n");
    assert_eq!(buf.line_count(), 2);
    buf.move_right();
    buf.move_right();
    assert_eq!((buf.cursor_row(), buf.cursor_col()), (0, 2));
    buf.insert_nl();
    assert_eq!(buf.line_count(), 3);
    assert_eq!(line_string(&buf, 0), "ab\0");
    assert_eq!(line_string(&buf, 1), "\0");
    assert_eq!(line_string(&buf, 2), "\0");
    assert_eq!((buf.cursor_row(), buf.cursor_col()), (1, 0));
}

#[test]
fn insert_nl_mid_line_splits_it() {
    let mut buf = buf_from("hello");
    buf.move_right();
    buf.move_right();
    buf.insert_nl();
    assert_eq!(buf.line_count(), 2);
    assert_eq!(line_string(&buf, 0), "he\0");
    assert_eq!(line_string(&buf, 1), "llo\0");
    assert_eq!((buf.cursor_row(), buf.cursor_col()), (1, 0));
}

#[test]
fn insert_nl_at_column_zero_leaves_empty_line_above() {
    let mut buf = buf_from("hi");
    buf.insert_nl();
    assert_eq!(buf.line_count(), 2);
    assert_eq!(line_string(&buf, 0), "\0");
    assert_eq!(line_string(&buf, 1), "hi\0");
    assert_eq!((buf.cursor_row(), buf.cursor_col()), (1, 0));
}

#[test]
fn insert_nl_then_join_line_restores_document_and_cursor() {
    let mut buf = buf_from("hello");
    buf.move_right();
    buf.move_right();
    buf.insert_nl();
    buf.join_line();
    assert_eq!(buf.line_count(), 1);
    assert_eq!(line_string(&buf, 0), "hello\0");
    assert_eq!((buf.cursor_row(), buf.cursor_col()), (0, 2));
}

#[test]
fn delete_char_mid_line_removes_previous_char() {
    let mut buf = buf_from("abc");
    buf.move_right();
    buf.move_right();
    buf.delete_char();
    assert_eq!(line_string(&buf, 0), "ac\0");
    assert_eq!((buf.cursor_row(), buf.cursor_col()), (0, 1));
}

#[test]
fn delete_char_at_line_start_joins_with_line_above() {
    let mut buf = buf_from("ab\ncd");
    buf.move_down();
    assert_eq!((buf.cursor_row(), buf.cursor_col()), (1, 0));
    buf.delete_char();
    assert_eq!(buf.line_count(), 1);
    assert_eq!(line_string(&buf, 0), "abcd\0");
    assert_eq!((buf.cursor_row(), buf.cursor_col()), (0, 2));
}

#[test]
fn delete_char_at_origin_does_nothing() {
    let mut buf = buf_from("ab");
    buf.delete_char();
    assert_eq!(buf.line_count(), 1);
    assert_eq!(line_string(&buf, 0), "ab\0");
    assert_eq!((buf.cursor_row(), buf.cursor_col()), (0, 0));
}

#[test]
fn join_line_on_first_row_does_nothing() {
    let mut buf = buf_from("ab\ncd");
    buf.join_line();
    assert_eq!(buf.line_count(), 2);
    assert_eq!(line_string(&buf, 0), "ab\0");
    assert_eq!((buf.cursor_row(), buf.cursor_col()), (0, 0));
}

#[test]
fn join_line_merges_and_puts_cursor_on_join_point() {
    let mut buf = buf_from("one\ntwo");
    buf.move_down();
    buf.join_line();
    assert_eq!(buf.line_count(), 1);
    assert_eq!(line_string(&buf, 0), "onetwo\0");
    assert_eq!((buf.cursor_row(), buf.cursor_col()), (0, 3));
}

#[test]
fn move_right_steps_onto_next_line_start() {
    let mut buf = buf_from("ab\nc");
    buf.move_right();
    buf.move_right();
    assert_eq!((buf.cursor_row(), buf.cursor_col()), (0, 2));
    buf.move_right();
    assert_eq!((buf.cursor_row(), buf.cursor_col()), (1, 0));
}

#[test]
fn move_right_terminates_at_last_line_sentinel() {
    let mut buf = buf_from("ab\nc");
    for _ in 0..10 {
        buf.move_right();
    }
    assert_eq!((buf.cursor_row(), buf.cursor_col()), (1, 1));
}

#[test]
fn move_left_steps_onto_previous_line_end() {
    let mut buf = buf_from("ab\nc");
    buf.move_down();
    buf.move_left();
    assert_eq!((buf.cursor_row(), buf.cursor_col()), (0, 2));
}

#[test]
fn move_left_at_origin_does_nothing() {
    let mut buf = buf_from("ab");
    buf.move_left();
    assert_eq!((buf.cursor_row(), buf.cursor_col()), (0, 0));
}

#[test]
fn vertical_moves_clamp_column_to_shorter_line() {
    let mut buf = buf_from("abcdef\nxy");
    for _ in 0..6 {
        buf.move_right();
    }
    assert_eq!((buf.cursor_row(), buf.cursor_col()), (0, 6));
    let moved = buf.move_down();
    assert!(moved);
    assert_eq!((buf.cursor_row(), buf.cursor_col()), (1, 2));
    assert!(buf.cursor_col() < buf.line_len(1));
}

#[test]
fn move_up_clamps_column_to_shorter_line() {
    let mut buf = buf_from("xy\nabcdef");
    buf.move_down();
    for _ in 0..6 {
        buf.move_right();
    }
    assert_eq!((buf.cursor_row(), buf.cursor_col()), (1, 6));
    let moved = buf.move_up();
    assert!(moved);
    assert_eq!((buf.cursor_row(), buf.cursor_col()), (0, 2));
}

#[test]
fn move_up_and_down_report_boundaries() {
    let mut buf = buf_from("a\nb");
    assert!(!buf.move_up());
    assert!(buf.move_down());
    assert!(!buf.move_down());
    assert!(buf.move_up());
}
