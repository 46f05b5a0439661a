use opencode_helix::context::{replace_all, Context};

#[test]
fn test_format_location_cursor() {
    let ctx = Context {
        file: Some("src/main.rs".to_string()),
        line: Some(42),
        column: Some(10),
        ..Default::default()
    };
    assert_eq!(ctx.format_location(), Some("@src/main.rs L42:C10".to_string()));
}

#[test]
fn test_format_location_selection() {
    let ctx = Context {
        file: Some("src/main.rs".to_string()),
        selection_start: Some(10),
        selection_end: Some(20),
        ..Default::default()
    };
    assert_eq!(ctx.format_location(), Some("@src/main.rs L10-L20".to_string()));
}

#[test]
fn test_expand_this() {
    let ctx = Context {
        file: Some("src/main.rs".to_string()),
        line: Some(42),
        ..Default::default()
    };
    let result = ctx.expand("Explain @this");
    assert_eq!(result, "Explain @src/main.rs L42");
}

#[test]
fn test_expand_no_context() {
    let ctx = Context::default();
    let result = ctx.expand("Hello @this world");
    assert_eq!(result, "Hello @this world");
}

#[test]
fn test_format_file_and_buffer() {
    let ctx = Context { file: Some("lib.rs".to_string()), ..Default::default() };
    assert_eq!(ctx.format_file(), Some("@lib.rs".to_string()));
    assert_eq!(ctx.format_buffer(), Some("@lib.rs".to_string()));
    assert_eq!(Context::default().format_file(), None);
}

#[test]
fn test_format_selection_fenced_block() {
    let ctx = Context {
        file: Some("a.rs".to_string()),
        selection: Some("let x = 1;".to_string()),
        selection_start: Some(3),
        selection_end: Some(3),
        ..Default::default()
    };
    assert_eq!(
        ctx.format_selection(),
        Some("@a.rs L3-L3\n```\nlet x = 1;\n```".to_string())
    );
    // no selection text: nothing to format
    let no_sel = Context { file: Some("a.rs".to_string()), ..Default::default() };
    assert_eq!(no_sel.format_selection(), None);
}

#[test]
fn test_expand_buffer_and_selection() {
    let ctx = Context {
        file: Some("a.rs".to_string()),
        selection: Some("x".to_string()),
        selection_start: Some(1),
        selection_end: Some(2),
        ..Default::default()
    };
    let result = ctx.expand("see @buffer and @selection");
    assert_eq!(result, "see @a.rs and @a.rs L1-L2\n```\nx\n```");
}

#[test]
fn test_replace_all_non_overlapping() {
    assert_eq!(replace_all("ababab", "ab", "c"), "ccc");
    assert_eq!(replace_all("aaa", "aa", "b"), "ba");
    assert_eq!(replace_all("hello", "x", "y"), "hello");
    assert_eq!(replace_all("", "x", "y"), "");
}

#[test]
fn test_context_has_file_has_selection() {
    let ctx = Context { selection_start: Some(1), ..Default::default() };
    assert!(!ctx.has_file());
    assert!(ctx.has_selection());
    let ctx2 = Context { selection: Some("s".to_string()), ..Default::default() };
    assert!(ctx2.has_selection());
    assert!(!Context::default().has_selection());
}
