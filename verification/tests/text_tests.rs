use opencode_helix::text::{cursor_to_line_col, line_col_to_cursor, get_line_length, count_lines};

#[test]
fn test_cursor_to_line_col_single_line() {
    let text = "hello world";
    assert_eq!(cursor_to_line_col(text, 0), (0, 0));
    assert_eq!(cursor_to_line_col(text, 5), (0, 5));
    assert_eq!(cursor_to_line_col(text, 11), (0, 11));
}

#[test]
fn test_cursor_to_line_col_multi_line() {
    let text = "hello\nworld\nfoo";
    assert_eq!(cursor_to_line_col(text, 0), (0, 0));
    assert_eq!(cursor_to_line_col(text, 5), (0, 5));
    assert_eq!(cursor_to_line_col(text, 6), (1, 0));
    assert_eq!(cursor_to_line_col(text, 8), (1, 2));
    assert_eq!(cursor_to_line_col(text, 12), (2, 0));
    assert_eq!(cursor_to_line_col(text, 15), (2, 3));
}

#[test]
fn test_line_col_to_cursor_single_line() {
    let text = "hello world";
    assert_eq!(line_col_to_cursor(text, 0, 0), 0);
    assert_eq!(line_col_to_cursor(text, 0, 5), 5);
    assert_eq!(line_col_to_cursor(text, 0, 11), 11);
    assert_eq!(line_col_to_cursor(text, 0, 100), 11);
}

#[test]
fn test_line_col_to_cursor_multi_line() {
    let text = "hello\nworld\nfoo";
    assert_eq!(line_col_to_cursor(text, 0, 0), 0);
    assert_eq!(line_col_to_cursor(text, 0, 5), 5);
    assert_eq!(line_col_to_cursor(text, 1, 0), 6);
    assert_eq!(line_col_to_cursor(text, 1, 2), 8);
    assert_eq!(line_col_to_cursor(text, 2, 0), 12);
    assert_eq!(line_col_to_cursor(text, 2, 3), 15);
    assert_eq!(line_col_to_cursor(text, 1, 100), 11);
}

#[test]
fn test_get_line_length() {
    let text = "hello\nworld\nfoo";
    assert_eq!(get_line_length(text, 0), 5);
    assert_eq!(get_line_length(text, 1), 5);
    assert_eq!(get_line_length(text, 2), 3);
    assert_eq!(get_line_length(text, 3), 0);
}

#[test]
fn test_count_lines() {
    assert_eq!(count_lines(""), 1);
    assert_eq!(count_lines("hello"), 1);
    assert_eq!(count_lines("hello\n"), 2);
    assert_eq!(count_lines("hello\nworld"), 2);
    assert_eq!(count_lines("hello\nworld\n"), 3);
    assert_eq!(count_lines("a\nb\nc"), 3);
}

#[test]
fn test_line_col_round_trip_every_position() {
    let text = "ab\ncd\n\nef";
    for p in 0..=text.len() {
        let (line, col) = cursor_to_line_col(text, p);
        assert_eq!(line_col_to_cursor(text, line, col), p);
    }
}

#[test]
fn test_cursor_to_line_col_trailing_newline() {
    let text = "hello\n";
    assert_eq!(cursor_to_line_col(text, 6), (1, 0));
    assert_eq!(line_col_to_cursor(text, 1, 0), 6);
    assert_eq!(get_line_length(text, 1), 0);
}
