use opencode_helix::keys::{parse_key, KeyCode, KeyEvent};

fn plain(code: KeyCode) -> KeyEvent {
    KeyEvent { code, ctrl: false, alt: false, shift: false }
}

#[test]
fn test_parse_key_basic_bytes() {
    assert_eq!(parse_key(&[0x0d]), Some(plain(KeyCode::Enter)));
    assert_eq!(parse_key(&[0x0a]), Some(plain(KeyCode::Enter)));
    assert_eq!(parse_key(&[0x7f]), Some(plain(KeyCode::Backspace)));
    assert_eq!(parse_key(&[0x08]), Some(plain(KeyCode::Backspace)));
    assert_eq!(parse_key(&[0x09]), Some(plain(KeyCode::Tab)));
    assert_eq!(parse_key(&[0x1b]), Some(plain(KeyCode::Esc)));
    assert_eq!(parse_key(&[b'a']), Some(plain(KeyCode::Char('a'))));
    assert_eq!(parse_key(&[b' ']), Some(plain(KeyCode::Char(' '))));
    assert_eq!(parse_key(&[]), None);
}

#[test]
fn test_parse_key_control_chords() {
    let ctrl = |c: char| KeyEvent { code: KeyCode::Char(c), ctrl: true, alt: false, shift: false };
    assert_eq!(parse_key(&[0x03]), Some(ctrl('c')));
    assert_eq!(parse_key(&[0x04]), Some(ctrl('d')));
    assert_eq!(parse_key(&[0x0e]), Some(ctrl('n')));
    assert_eq!(parse_key(&[0x10]), Some(ctrl('p')));
    assert_eq!(parse_key(&[0x01]), Some(ctrl('a')));
    assert_eq!(parse_key(&[0x1a]), Some(ctrl('z')));
}

#[test]
fn test_parse_key_escape_sequences() {
    assert_eq!(parse_key(&[0x1b, 0x5b, 0x41]), Some(plain(KeyCode::Up)));
    assert_eq!(parse_key(&[0x1b, 0x5b, 0x42]), Some(plain(KeyCode::Down)));
    assert_eq!(parse_key(&[0x1b, 0x5b, 0x43]), Some(plain(KeyCode::Right)));
    assert_eq!(parse_key(&[0x1b, 0x5b, 0x44]), Some(plain(KeyCode::Left)));
    assert_eq!(parse_key(&[0x1b, 0x5b, 0x48]), Some(plain(KeyCode::Home)));
    assert_eq!(parse_key(&[0x1b, 0x5b, 0x46]), Some(plain(KeyCode::End)));
    assert_eq!(parse_key(&[0x1b, 0x5b, 0x33, 0x7e]), Some(plain(KeyCode::Delete)));
    assert_eq!(
        parse_key(&[0x1b, 0x5b, 0x5a]),
        Some(KeyEvent { code: KeyCode::BackTab, ctrl: false, alt: false, shift: true })
    );
    // unknown sequences degrade to Escape
    assert_eq!(parse_key(&[0x1b, 0x5b, 0x99]), Some(plain(KeyCode::Esc)));
    assert_eq!(parse_key(&[0x1b, 0x5b]), Some(plain(KeyCode::Esc)));
    assert_eq!(parse_key(&[0x1b, 0x01]), Some(plain(KeyCode::Esc)));
}

#[test]
fn test_parse_key_alt_chords() {
    assert_eq!(
        parse_key(&[0x1b, b'x']),
        Some(KeyEvent { code: KeyCode::Char('x'), ctrl: false, alt: true, shift: false })
    );
}

#[test]
fn test_parse_key_utf8() {
    // two-byte encoding
    assert_eq!(parse_key("é".as_bytes()), Some(plain(KeyCode::Char('é'))));
    // three-byte encoding
    assert_eq!(parse_key("€".as_bytes()), Some(plain(KeyCode::Char('€'))));
    // four-byte encoding
    assert_eq!(parse_key("𝄞".as_bytes()), Some(plain(KeyCode::Char('𝄞'))));
    // malformed bytes are discarded
    assert_eq!(parse_key(&[0xff]), None);
    assert_eq!(parse_key(&[0xc3]), None);
    assert_eq!(parse_key(&[0xc3, 0x28]), None);
    // overlong encodings are rejected
    assert_eq!(parse_key(&[0xc0, 0x80]), None);
}
