use opencode_helix::wrap::{wrap_text, cursor_to_visual_pos, count_visual_lines, update_scroll_for_cursor};

#[test]
fn test_wrap_text_no_wrap_needed() {
    let text = "hello";
    let wrapped = wrap_text(text, 20, 2);
    assert_eq!(wrapped.len(), 1);
    assert_eq!(wrapped[0].text, "hello");
    assert_eq!(wrapped[0].logical_line, 0);
    assert!(wrapped[0].is_first);
}

#[test]
fn test_wrap_text_single_wrap() {
    let text = "hello world foo bar";
    let wrapped = wrap_text(text, 12, 2);
    assert_eq!(wrapped.len(), 2);
    assert_eq!(wrapped[0].text, "hello worl");
    assert!(wrapped[0].is_first);
    assert_eq!(wrapped[1].text, "d foo bar");
    assert!(!wrapped[1].is_first);
}

#[test]
fn test_wrap_text_with_newlines() {
    let text = "hello\nworld";
    let wrapped = wrap_text(text, 20, 2);
    assert_eq!(wrapped.len(), 2);
    assert_eq!(wrapped[0].text, "hello");
    assert_eq!(wrapped[0].logical_line, 0);
    assert_eq!(wrapped[1].text, "world");
    assert_eq!(wrapped[1].logical_line, 1);
}

#[test]
fn test_cursor_to_visual_pos_no_wrap() {
    let text = "hello";
    let (row, col) = cursor_to_visual_pos(text, 3, 20, 2);
    assert_eq!(row, 0);
    assert_eq!(col, 3);
}

#[test]
fn test_cursor_to_visual_pos_with_wrap() {
    let text = "hello world foo bar";
    let (row, col) = cursor_to_visual_pos(text, 12, 12, 2);
    assert_eq!(row, 1);
    assert_eq!(col, 2);
}

#[test]
fn test_wrap_reassembles_to_original() {
    let text = "hello world foo bar\nsecond line here\n\nlast";
    for width in 1..16usize {
        let wrapped = wrap_text(text, width, 2);
        let mut rebuilt = String::new();
        for (i, row) in wrapped.iter().enumerate() {
            if i > 0 && row.is_first {
                rebuilt.push('\n');
            }
            rebuilt.push_str(&row.text);
        }
        assert_eq!(rebuilt, text);
    }
}

#[test]
fn test_wrap_text_zero_width_falls_back() {
    let wrapped = wrap_text("hello world", 2, 2);
    assert_eq!(wrapped.len(), 1);
    assert_eq!(wrapped[0].text, "hello world");
}

#[test]
fn test_count_visual_lines_matches_wrap() {
    let text = "hello world foo bar";
    assert_eq!(count_visual_lines(text, 12, 2), 2);
    assert_eq!(count_visual_lines("", 12, 2), 1);
}

#[test]
fn test_update_scroll_follows_cursor() {
    let text = "a\nb\nc\nd\ne\nf\ng\nh";
    let mut scroll: usize = 0;
    // cursor on visual row 6, window of 5 rows: scroll moves to 2
    update_scroll_for_cursor(text, 12, &mut scroll, 5, 20, 2);
    assert_eq!(scroll, 2);
    // cursor back on row 0: scroll snaps back up
    update_scroll_for_cursor(text, 0, &mut scroll, 5, 20, 2);
    assert_eq!(scroll, 0);
}
