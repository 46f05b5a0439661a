use opencode_helix::input::AppResult;
use opencode_helix::keys::{KeyCode, KeyEvent};
use opencode_helix::select::{filter_items, SelectItem, SelectState};

fn plain(code: KeyCode) -> KeyEvent {
    KeyEvent { code, ctrl: false, alt: false, shift: false }
}

fn items() -> Vec<SelectItem> {
    vec![
        SelectItem::new("explain", "Explain the selected code", "explain-value", "PROMPTS"),
        SelectItem::new("review", "Code review", "review-value", "PROMPTS"),
        SelectItem::new("fix", "Fix code issues", "fix-value", "PROMPTS"),
    ]
}

#[test]
fn test_filter_then_enter_submits_match() {
    let items = items();
    let mut st = SelectState::new();
    assert!(st.handle_key(&items, plain(KeyCode::Char('w'))).is_none());
    // only "review" contains a 'w' in its name or description
    let r = st.handle_key(&items, plain(KeyCode::Enter));
    assert!(matches!(r, Some(AppResult::Submit(v)) if v == "review-value"));
}

#[test]
fn test_down_twice_then_enter() {
    let items = items();
    let mut st = SelectState::new();
    assert!(st.handle_key(&items, plain(KeyCode::Down)).is_none());
    assert!(st.handle_key(&items, plain(KeyCode::Down)).is_none());
    let r = st.handle_key(&items, plain(KeyCode::Enter));
    assert!(matches!(r, Some(AppResult::Submit(v)) if v == "fix-value"));
}

#[test]
fn test_filter_clamps_selection() {
    let items = items();
    let mut st = SelectState::new();
    assert!(st.handle_key(&items, plain(KeyCode::Down)).is_none());
    assert!(st.handle_key(&items, plain(KeyCode::Down)).is_none());
    assert_eq!(st.selected, 2);
    // narrowing to one match pulls the highlight back in range
    assert!(st.handle_key(&items, plain(KeyCode::Char('w'))).is_none());
    assert_eq!(st.selected, 0);
    let r = st.handle_key(&items, plain(KeyCode::Enter));
    assert!(matches!(r, Some(AppResult::Submit(v)) if v == "review-value"));
}

#[test]
fn test_escape_cancels_selection() {
    let items = items();
    let mut st = SelectState::new();
    let r = st.handle_key(&items, plain(KeyCode::Esc));
    assert!(matches!(r, Some(AppResult::Cancel)));
}

#[test]
fn test_filter_items_matches_name_and_description() {
    let items = items();
    let all = filter_items(&items, &Vec::new());
    assert_eq!(all, vec![0, 1, 2]);
    let f: Vec<char> = "fix".chars().collect();
    assert_eq!(filter_items(&items, &f), vec![2]);
    // "issues" only occurs in the description of "fix"
    let f2: Vec<char> = "issues".chars().collect();
    assert_eq!(filter_items(&items, &f2), vec![2]);
    // matching is case-insensitive
    let f3: Vec<char> = "FIX".chars().collect();
    assert_eq!(filter_items(&items, &f3), vec![2]);
    let f4: Vec<char> = "zzz".chars().collect();
    assert_eq!(filter_items(&items, &f4), Vec::<usize>::new());
}

#[test]
fn test_navigation_does_not_wrap() {
    let items = items();
    let mut st = SelectState::new();
    assert!(st.handle_key(&items, plain(KeyCode::Up)).is_none());
    assert_eq!(st.selected, 0);
    for _ in 0..5 {
        assert!(st.handle_key(&items, plain(KeyCode::Char('j'))).is_none());
    }
    assert_eq!(st.selected, 2);
}

#[test]
fn test_backspace_restores_filter() {
    let items = items();
    let mut st = SelectState::new();
    assert!(st.handle_key(&items, plain(KeyCode::Char('w'))).is_none());
    assert_eq!(st.filter, vec!['w']);
    assert!(st.handle_key(&items, plain(KeyCode::Backspace)).is_none());
    assert!(st.filter.is_empty());
    assert!(st.handle_key(&items, plain(KeyCode::Backspace)).is_none());
    assert!(st.filter.is_empty());
}

#[test]
fn test_empty_items_enter_does_nothing() {
    let items: Vec<SelectItem> = Vec::new();
    let mut st = SelectState::new();
    assert!(st.handle_key(&items, plain(KeyCode::Enter)).is_none());
    assert_eq!(st.selected, 0);
}
