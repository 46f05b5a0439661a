use opencode_helix::input::{find_at_word, filter_placeholders, AppResult, Focus, InputState};
use opencode_helix::keys::{KeyCode, KeyEvent};

fn plain(code: KeyCode) -> KeyEvent {
    KeyEvent { code, ctrl: false, alt: false, shift: false }
}

fn press(st: &mut InputState, code: KeyCode, placeholders: &[&str]) -> Option<AppResult> {
    st.handle_key(plain(code), placeholders, 5, 60, 2)
}

#[test]
fn test_find_at_word() {
    assert_eq!(find_at_word("@this", 5), Some((0, "@this")));
    assert_eq!(find_at_word("@this", 3), Some((0, "@th")));
    assert_eq!(find_at_word("hello @this", 11), Some((6, "@this")));
    assert_eq!(find_at_word("hello @", 7), Some((6, "@")));
    assert_eq!(find_at_word("hello", 5), None);
    assert_eq!(find_at_word("@ test", 6), None);
}

#[test]
fn test_filter_placeholders() {
    let placeholders = vec!["@this", "@buffer", "@path", "@selection"];
    assert_eq!(filter_placeholders("@", &placeholders), placeholders);
    assert_eq!(filter_placeholders("@t", &placeholders), vec!["@this"]);
    assert_eq!(filter_placeholders("@b", &placeholders), vec!["@buffer"]);
    assert_eq!(filter_placeholders("@p", &placeholders), vec!["@path"]);
    assert_eq!(filter_placeholders("@s", &placeholders), vec!["@selection"]);
    let empty: Vec<&str> = vec![];
    assert_eq!(filter_placeholders("@x", &placeholders), empty);
}

#[test]
fn test_filter_placeholders_case_insensitive() {
    let placeholders = vec!["@This", "@buffer"];
    assert_eq!(filter_placeholders("@t", &placeholders), vec!["@This"]);
    assert_eq!(filter_placeholders("@TH", &placeholders), vec!["@This"]);
}

#[test]
fn test_type_hello_and_submit() {
    let mut st = InputState::new("");
    for c in "hello".chars() {
        assert!(press(&mut st, KeyCode::Char(c), &[]).is_none());
    }
    assert_eq!(st.text, "hello");
    assert_eq!(st.cursor, 5);
    let r = press(&mut st, KeyCode::Enter, &[]);
    assert!(matches!(r, Some(AppResult::Submit(s)) if s == "hello"));
}

#[test]
fn test_escape_cancels() {
    let mut st = InputState::new("");
    let r = press(&mut st, KeyCode::Esc, &[]);
    assert!(matches!(r, Some(AppResult::Cancel)));
}

#[test]
fn test_autocomplete_tab_accepts() {
    let placeholders = ["@this", "@buffer"];
    let mut st = InputState::new("");
    assert!(press(&mut st, KeyCode::Char('@'), &placeholders).is_none());
    assert!(press(&mut st, KeyCode::Char('t'), &placeholders).is_none());
    assert!(st.ac_active);
    assert_eq!(st.ac_selected, 0);
    assert_eq!(filter_placeholders("@t", &placeholders), vec!["@this"]);
    let r = press(&mut st, KeyCode::Tab, &placeholders);
    assert!(r.is_none());
    assert_eq!(st.text, "@this ");
    assert_eq!(st.cursor, 6);
    assert!(!st.ac_active);
}

#[test]
fn test_up_down_between_lines() {
    let mut st = InputState {
        text: "hello\nworld".to_string(),
        cursor: 5,
        focus: Focus::Input,
        scroll: 0,
        ac_active: false,
        ac_selected: 0,
    };
    assert!(press(&mut st, KeyCode::Down, &[]).is_none());
    assert_eq!(st.cursor, 11);
    assert!(press(&mut st, KeyCode::Up, &[]).is_none());
    assert_eq!(st.cursor, 5);
    assert!(press(&mut st, KeyCode::Up, &[]).is_none());
    assert_eq!(st.cursor, 5);
}

#[test]
fn test_empty_submit_is_ignored() {
    let mut st = InputState::new("");
    assert!(press(&mut st, KeyCode::Enter, &[]).is_none());
}

#[test]
fn test_insert_then_backspace_restores_buffer() {
    let mut st = InputState::new("hello");
    assert!(press(&mut st, KeyCode::Left, &[]).is_none());
    assert!(press(&mut st, KeyCode::Left, &[]).is_none());
    assert!(press(&mut st, KeyCode::Char('x'), &[]).is_none());
    assert_eq!(st.text, "helxlo");
    assert!(press(&mut st, KeyCode::Backspace, &[]).is_none());
    assert_eq!(st.text, "hello");
    assert_eq!(st.cursor, 3);
}

#[test]
fn test_delete_removes_at_cursor() {
    let mut st = InputState::new("abc");
    assert!(press(&mut st, KeyCode::Home, &[]).is_none());
    assert_eq!(st.cursor, 0);
    assert!(press(&mut st, KeyCode::Delete, &[]).is_none());
    assert_eq!(st.text, "bc");
    assert!(press(&mut st, KeyCode::End, &[]).is_none());
    assert_eq!(st.cursor, 2);
}

#[test]
fn test_tab_cycles_focus_and_cancel_button() {
    let mut st = InputState::new("hi");
    assert!(press(&mut st, KeyCode::Tab, &[]).is_none());
    assert_eq!(st.focus, Focus::SendButton);
    assert!(press(&mut st, KeyCode::Tab, &[]).is_none());
    assert_eq!(st.focus, Focus::CancelButton);
    let r = press(&mut st, KeyCode::Enter, &[]);
    assert!(matches!(r, Some(AppResult::Cancel)));
}

#[test]
fn test_send_button_submits() {
    let mut st = InputState::new("hi");
    assert!(press(&mut st, KeyCode::Tab, &[]).is_none());
    assert_eq!(st.focus, Focus::SendButton);
    let r = press(&mut st, KeyCode::Enter, &[]);
    assert!(matches!(r, Some(AppResult::Submit(s)) if s == "hi"));
}

#[test]
fn test_ctrl_c_cancels() {
    let mut st = InputState::new("hi");
    let key = KeyEvent { code: KeyCode::Char('c'), ctrl: true, alt: false, shift: false };
    let r = st.handle_key(key, &[], 5, 60, 2);
    assert!(matches!(r, Some(AppResult::Cancel)));
}

#[test]
fn test_autocomplete_navigation_wraps() {
    let placeholders = ["@this", "@that"];
    let mut st = InputState::new("");
    assert!(press(&mut st, KeyCode::Char('@'), &placeholders).is_none());
    assert!(press(&mut st, KeyCode::Char('t'), &placeholders).is_none());
    // popup is active over both names; Down cycles, wrapping around
    assert!(press(&mut st, KeyCode::Down, &placeholders).is_none());
    assert_eq!(st.ac_selected, 1);
    assert!(press(&mut st, KeyCode::Down, &placeholders).is_none());
    assert_eq!(st.ac_selected, 0);
    assert!(press(&mut st, KeyCode::Up, &placeholders).is_none());
    assert_eq!(st.ac_selected, 1);
    let r = press(&mut st, KeyCode::Enter, &placeholders);
    assert!(r.is_none());
    assert_eq!(st.text, "@that ");
}
