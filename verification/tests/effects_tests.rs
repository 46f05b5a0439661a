use opencode_helix::effects::{BlinkingCursor, Scanline, TypewriterText};

#[test]
fn test_blinking_cursor_initial_state() {
    let cursor = BlinkingCursor::new();
    assert!(cursor.is_visible());
    assert_eq!(cursor.char(), "█");
}

#[test]
fn test_typewriter_instant() {
    let tw = TypewriterText::instant("hello");
    assert!(tw.is_complete());
    assert_eq!(tw.visible_text(), "hello");
}

#[test]
fn test_typewriter_skip() {
    let mut tw = TypewriterText::new("hello world", 10);
    assert!(!tw.is_complete());
    tw.skip();
    assert!(tw.is_complete());
    assert_eq!(tw.visible_text(), "hello world");
}

#[test]
fn test_typewriter_starts_hidden() {
    let tw = TypewriterText::new("hello", 30);
    assert!(!tw.is_complete());
    assert_eq!(tw.visible_text(), "");
    assert_eq!(tw.full_text(), "hello");
    // an empty text is complete from the start
    let empty = TypewriterText::new("", 30);
    assert!(empty.is_complete());
}

#[test]
fn test_cursor_reset_shows_caret() {
    let mut cursor = BlinkingCursor::new();
    cursor.reset();
    assert!(cursor.is_visible());
    assert_eq!(cursor.char(), "█");
}

#[test]
fn test_scanline_rows_and_height() {
    let mut scan = Scanline::new(10, 1);
    assert_eq!(scan.position(), 0);
    assert!(scan.is_scanline_row(0));
    assert!(!scan.is_scanline_row(1));
    assert!(scan.is_enabled());
    scan.set_enabled(false);
    assert!(!scan.is_enabled());
    assert!(!scan.is_scanline_row(0));
    scan.set_height(5);
    assert_eq!(scan.position(), 0);
}
