//! Decoding raw terminal bytes into key events.
//!
//! The terminal driver reads byte sequences from the controlling terminal;
//! this module turns one such sequence into a key event by shortest-match
//! prefix rules: control bytes, `ESC [` sequences for the navigation keys,
//! `ESC`-prefixed printable bytes for Alt chords, plain printable bytes,
//! and UTF-8 multi-byte encodings for other characters. Unknown escape
//! sequences degrade to a bare Escape; bytes that are not valid UTF-8 are
//! discarded.

use vstd::prelude::*;
use vstd::utf8::{
    valid_utf8, decode_utf8, valid_first_scalar, decode_first_scalar, length_of_first_scalar,
    pop_first_scalar,
};
use crate::strutil::char_from_u32;

verus! {

/// A key reported by the terminal.
#[derive(Clone, Copy, Debug, PartialEq, Eq, Structural)]
pub enum KeyCode {
    Char(char),
    Enter,
    Esc,
    Backspace,
    Tab,
    BackTab,
    Delete,
    Up,
    Down,
    Left,
    Right,
    Home,
    End,
}

/// A decoded keystroke: a key and the modifiers held with it.
#[derive(Clone, Copy, Debug, PartialEq, Eq, Structural)]
pub struct KeyEvent {
    pub code: KeyCode,
    pub ctrl: bool,
    pub alt: bool,
    pub shift: bool,
}

/// A key with no modifiers.
pub open spec fn plain(code: KeyCode) -> KeyEvent {
    KeyEvent { code, ctrl: false, alt: false, shift: false }
}

/// A Control chord.
pub open spec fn ctrl(code: KeyCode) -> KeyEvent {
    KeyEvent { code, ctrl: true, alt: false, shift: false }
}

/// An Alt chord.
pub open spec fn alt(code: KeyCode) -> KeyEvent {
    KeyEvent { code, ctrl: false, alt: true, shift: false }
}

impl KeyEvent {
    /// A key with no modifiers.
    pub fn new_plain(code: KeyCode) -> (r: KeyEvent)
        ensures
            r == plain(code),
    {
        KeyEvent { code, ctrl: false, alt: false, shift: false }
    }

    /// A Control chord.
    pub fn new_ctrl(code: KeyCode) -> (r: KeyEvent)
        ensures
            r == ctrl(code),
    {
        KeyEvent { code, ctrl: true, alt: false, shift: false }
    }
}

/// The key event for a lone byte.
pub open spec fn decoded_single(b: u8) -> Option<KeyEvent> {
    if b == 0x1b {
        Some(plain(KeyCode::Esc))
    } else if b == 0x0d || b == 0x0a {
        Some(plain(KeyCode::Enter))
    } else if b == 0x7f || b == 0x08 {
        Some(plain(KeyCode::Backspace))
    } else if b == 0x09 {
        Some(plain(KeyCode::Tab))
    } else if 0x01 <= b <= 0x1a {
        // control chord: the byte is the letter with bit 7 and 6 cleared
        Some(ctrl(KeyCode::Char(((b as u32) + 0x60) as char)))
    } else if b <= 0x7f {
        Some(plain(KeyCode::Char((b as u32) as char)))
    } else {
        // a lone byte at or above 0x80 is not valid UTF-8
        None
    }
}

/// The key event for the bytes following `ESC [`.
pub open spec fn decoded_csi(rest: Seq<u8>) -> KeyEvent {
    if rest.len() == 1 && rest[0] == 0x41 {
        plain(KeyCode::Up)
    } else if rest.len() == 1 && rest[0] == 0x42 {
        plain(KeyCode::Down)
    } else if rest.len() == 1 && rest[0] == 0x43 {
        plain(KeyCode::Right)
    } else if rest.len() == 1 && rest[0] == 0x44 {
        plain(KeyCode::Left)
    } else if rest.len() == 1 && rest[0] == 0x48 {
        plain(KeyCode::Home)
    } else if rest.len() == 1 && rest[0] == 0x46 {
        plain(KeyCode::End)
    } else if rest.len() == 2 && rest[0] == 0x33 && rest[1] == 0x7e {
        plain(KeyCode::Delete)
    } else if rest.len() == 1 && rest[0] == 0x5a {
        KeyEvent { code: KeyCode::BackTab, ctrl: false, alt: false, shift: true }
    } else {
        // unknown sequence: degrade to Escape
        plain(KeyCode::Esc)
    }
}

/// The key event decoded from a raw byte sequence, or `None` when the
/// bytes are discarded.
pub open spec fn decoded_key(bytes: Seq<u8>) -> Option<KeyEvent> {
    if bytes.len() == 0 {
        None
    } else if bytes.len() == 1 {
        decoded_single(bytes[0])
    } else if bytes[0] == 0x1b && bytes[1] == 0x5b {
        Some(decoded_csi(bytes.skip(2)))
    } else if bytes.len() == 2 && bytes[0] == 0x1b && 0x20 <= bytes[1] < 0x7f {
        Some(alt(KeyCode::Char((bytes[1] as u32) as char)))
    } else if bytes[0] == 0x1b {
        Some(plain(KeyCode::Esc))
    } else if valid_utf8(bytes) {
        Some(plain(KeyCode::Char(decode_utf8(bytes)[0])))
    } else {
        None
    }
}

/// Width and value of the scalar encoded at position `i`, when the bytes
/// there begin a well-formed UTF-8 encoding.
fn first_scalar_at(bytes: &[u8], i: usize) -> (r: Option<(usize, u32)>)
    requires
        i < bytes@.len(),
    ensures
        match r {
            Some(wc) => {
                &&& valid_first_scalar(bytes@.skip(i as int))
                &&& 1 <= wc.0 <= 4
                &&& i + wc.0 <= bytes@.len()
                &&& wc.0 == length_of_first_scalar(bytes@.skip(i as int))
                &&& wc.1 == decode_first_scalar(bytes@.skip(i as int))
                &&& wc.1 <= 0x10ffff
                &&& !(0xd800 <= wc.1 <= 0xdfff)
            },
            None => !valid_first_scalar(bytes@.skip(i as int)),
        },
{
    let ghost s = bytes@.skip(i as int);
    let n = bytes.len();
    let b0 = bytes[i];
    proof {
        assert(s[0] == bytes@[i as int]);
    }
    if b0 <= 0x7f {
        let cp = (b0 & 0x7f) as u32;
        proof {
            assert(b0 & 0x7f == b0 && b0 & 0x7f <= 0x7f) by (bit_vector)
                requires
                    b0 <= 0x7f,
            ;
        }
        Some((1, cp))
    } else if 0xc0 <= b0 && b0 <= 0xdf {
        if i + 1 >= n {
            return None;
        }
        let b1 = bytes[i + 1];
        proof {
            assert(s[1] == bytes@[i + 1]);
        }
        if !(0x80 <= b1 && b1 <= 0xbf) {
            return None;
        }
        let cp = (((b0 & 0x1f) as u32) << 6) | ((b1 & 0x3f) as u32);
        proof {
            assert((((b0 & 0x1f) as u32) << 6) | ((b1 & 0x3f) as u32) <= 0x7ff) by (bit_vector);
        }
        if cp < 0x80 {
            return None;
        }
        Some((2, cp))
    } else if 0xe0 <= b0 && b0 <= 0xef {
        if n - i < 3 {
            return None;
        }
        let b1 = bytes[i + 1];
        let b2 = bytes[i + 2];
        proof {
            assert(s[1] == bytes@[i + 1]);
            assert(s[2] == bytes@[i + 2]);
        }
        if !(0x80 <= b1 && b1 <= 0xbf) || !(0x80 <= b2 && b2 <= 0xbf) {
            return None;
        }
        let cp = (((b0 & 0x0f) as u32) << 12) | (((b1 & 0x3f) as u32) << 6) | ((b2 & 0x3f) as u32);
        proof {
            assert((((b0 & 0x0f) as u32) << 12) | (((b1 & 0x3f) as u32) << 6) | ((b2
                & 0x3f) as u32) <= 0xffff) by (bit_vector);
        }
        if cp < 0x800 {
            return None;
        }
        if 0xd800 <= cp && cp <= 0xdfff {
            return None;
        }
        Some((3, cp))
    } else if 0xf0 <= b0 && b0 <= 0xf7 {
        if n - i < 4 {
            return None;
        }
        let b1 = bytes[i + 1];
        let b2 = bytes[i + 2];
        let b3 = bytes[i + 3];
        proof {
            assert(s[1] == bytes@[i + 1]);
            assert(s[2] == bytes@[i + 2]);
            assert(s[3] == bytes@[i + 3]);
        }
        if !(0x80 <= b1 && b1 <= 0xbf) || !(0x80 <= b2 && b2 <= 0xbf) || !(0x80 <= b3 && b3
            <= 0xbf) {
            return None;
        }
        let cp = (((b0 & 0x07) as u32) << 18) | (((b1 & 0x3f) as u32) << 12) | (((b2
            & 0x3f) as u32) << 6) | ((b3 & 0x3f) as u32);
        if cp < 0x10000 || cp > 0x10ffff {
            return None;
        }
        Some((4, cp))
    } else {
        None
    }
}

/// The first character of the byte sequence when the whole sequence is
/// valid UTF-8, `None` otherwise.
fn decode_utf8_first(bytes: &[u8]) -> (r: Option<char>)
    ensures
        r == if valid_utf8(bytes@) && bytes@.len() > 0 {
            Some(decode_utf8(bytes@)[0])
        } else {
            None::<char>
        },
{
    let n = bytes.len();
    if n == 0 {
        return None;
    }
    let first = match first_scalar_at(bytes, 0) {
        Some(wc) => wc,
        None => {
            proof {
                assert(bytes@.skip(0) =~= bytes@);
            }
            return None;
        },
    };
    proof {
        assert(bytes@.skip(0) =~= bytes@);
    }
    let mut i: usize = first.0;
    while i < n
        invariant
            i <= n,
            n == bytes@.len(),
            valid_utf8(bytes@) <==> valid_utf8(bytes@.skip(i as int)),
        decreases n - i,
    {
        match first_scalar_at(bytes, i) {
            Some(wc) => {
                proof {
                    let s = bytes@.skip(i as int);
                    assert(pop_first_scalar(s) =~= bytes@.skip(i + wc.0));
                }
                i += wc.0;
            },
            None => {
                return None;
            },
        }
    }
    proof {
        assert(bytes@.skip(n as int) =~= Seq::<u8>::empty());
        assert(valid_utf8(bytes@.skip(n as int)));
        let s = bytes@.skip(0);
        assert(pop_first_scalar(s) =~= bytes@.skip(first.0 as int));
    }
    match char_from_u32(first.1) {
        Some(c) => Some(c),
        None => {
            proof {
                assert(false);
            }
            None
        },
    }
}

/// Decode one raw byte sequence from the terminal into a key event.
/// Discarded sequences (malformed UTF-8, empty input) give `None`.
pub fn parse_key(bytes: &[u8]) -> (r: Option<KeyEvent>)
    ensures
        r == decoded_key(bytes@),
{
    let n = bytes.len();
    if n == 0 {
        return None;
    }
    if n == 1 {
        let b = bytes[0];
        if b == 0x1b {
            return Some(KeyEvent::new_plain(KeyCode::Esc));
        }
        if b == 0x0d || b == 0x0a {
            return Some(KeyEvent::new_plain(KeyCode::Enter));
        }
        if b == 0x7f || b == 0x08 {
            return Some(KeyEvent::new_plain(KeyCode::Backspace));
        }
        if b == 0x09 {
            return Some(KeyEvent::new_plain(KeyCode::Tab));
        }
        if 0x01 <= b && b <= 0x1a {
            let c = match char_from_u32((b as u32) + 0x60) {
                Some(c) => c,
                None => {
                    proof {
                        assert(false);
                    }
                    return None;
                },
            };
            return Some(KeyEvent::new_ctrl(KeyCode::Char(c)));
        }
        if b <= 0x7f {
            let c = match char_from_u32(b as u32) {
                Some(c) => c,
                None => {
                    proof {
                        assert(false);
                    }
                    return None;
                },
            };
            return Some(KeyEvent::new_plain(KeyCode::Char(c)));
        }
        proof {
            assert(!valid_utf8(bytes@)) by {
                assert(bytes@[0] == b);
                assert(!valid_first_scalar(bytes@));
            }
        }
        return None;
    }
    // n >= 2 from here on
    if bytes[0] == 0x1b && bytes[1] == 0x5b {
        let ghost rest = bytes@.skip(2);
        proof {
            assert(rest.len() == n - 2);
        }
        if n == 3 {
            proof {
                assert(rest[0] == bytes@[2]);
            }
            let b2 = bytes[2];
            if b2 == 0x41 {
                return Some(KeyEvent::new_plain(KeyCode::Up));
            }
            if b2 == 0x42 {
                return Some(KeyEvent::new_plain(KeyCode::Down));
            }
            if b2 == 0x43 {
                return Some(KeyEvent::new_plain(KeyCode::Right));
            }
            if b2 == 0x44 {
                return Some(KeyEvent::new_plain(KeyCode::Left));
            }
            if b2 == 0x48 {
                return Some(KeyEvent::new_plain(KeyCode::Home));
            }
            if b2 == 0x46 {
                return Some(KeyEvent::new_plain(KeyCode::End));
            }
            if b2 == 0x5a {
                return Some(
                    KeyEvent { code: KeyCode::BackTab, ctrl: false, alt: false, shift: true },
                );
            }
            return Some(KeyEvent::new_plain(KeyCode::Esc));
        }
        if n == 4 {
            proof {
                assert(rest[0] == bytes@[2]);
                assert(rest[1] == bytes@[3]);
            }
            if bytes[2] == 0x33 && bytes[3] == 0x7e {
                return Some(KeyEvent::new_plain(KeyCode::Delete));
            }
            return Some(KeyEvent::new_plain(KeyCode::Esc));
        }
        return Some(KeyEvent::new_plain(KeyCode::Esc));
    }
    if n == 2 && bytes[0] == 0x1b && 0x20 <= bytes[1] && bytes[1] < 0x7f {
        let c = match char_from_u32(bytes[1] as u32) {
            Some(c) => c,
            None => {
                proof {
                    assert(false);
                }
                return None;
            },
        };
        return Some(
            KeyEvent { code: KeyCode::Char(c), ctrl: false, alt: true, shift: false },
        );
    }
    if bytes[0] == 0x1b {
        return Some(KeyEvent::new_plain(KeyCode::Esc));
    }
    match decode_utf8_first(bytes) {
        Some(c) => Some(KeyEvent::new_plain(KeyCode::Char(c))),
        None => None,
    }
}

} // verus!
