//! The input dialog: a multi-line prompt editor with focus cycling,
//! placeholder autocomplete and scroll-follow.
//!
//! The dialog is a state machine: the surrounding program draws a frame,
//! reads one key from the terminal, and hands it to [`InputState::handle_key`],
//! which performs exactly one transition and reports whether the dialog
//! finished. All editing positions are character indices.

use vstd::prelude::*;
use crate::strutil::{chars_of, string_from_chars, lower, lower_char, lower_chars};
use crate::text::{
    line_idx, col_idx, newline_count, cursor_of, lemma_line_col_bounds, cursor_to_line_col,
    line_col_to_cursor, get_line_length, count_lines, line_end_from, line_start,
};
use crate::wrap::{wrap_spec, visual_row_of, scrolled_to, update_scroll_for_cursor};
use crate::keys::{KeyCode, KeyEvent};

verus! {

/// The outcome of a finished dialog: the text the user committed, or a
/// cancellation.
#[derive(Debug)]
pub enum AppResult {
    Submit(String),
    Cancel,
}

/// The position of the last `'@'` strictly before position `p`, or -1 when
/// there is none.
pub open spec fn last_at(t: Seq<char>, p: int) -> int
    decreases p,
{
    if p <= 0 {
        -1
    } else if t[p - 1] == '@' {
        p - 1
    } else {
        last_at(t, p - 1)
    }
}

/// The last `'@'` before `p` lies strictly before `p`.
pub proof fn lemma_last_at_bounds(t: Seq<char>, p: int)
    requires
        0 <= p,
    ensures
        -1 <= last_at(t, p) < p,
    decreases p,
{
    if p > 0 {
        lemma_last_at_bounds(t, p - 1);
    }
}

/// Whether a space occurs in `t` at some position in `[a, b)`.
pub open spec fn has_space(t: Seq<char>, a: int, b: int) -> bool {
    exists|j: int| a <= j < b && t[j] == ' '
}

/// Autocomplete is active at position `p` exactly when some `'@'` occurs
/// before `p` and no space stands between the most recent one and `p`.
pub open spec fn at_word_active(t: Seq<char>, p: int) -> bool {
    last_at(t, p) >= 0 && !has_space(t, last_at(t, p), p)
}

/// The partial token from the most recent `'@'` up to position `p`.
pub open spec fn at_word_partial(t: Seq<char>, p: int) -> Seq<char> {
    t.subrange(last_at(t, p), p)
}

/// The `'@'`-token being typed at `cursor_pos`: its start position and the
/// partial text from the `'@'` to the cursor. `Some` exactly when the
/// cursor sits in such a token — after an `'@'` with no intervening space.
pub fn find_at_word<'a>(input: &'a str, cursor_pos: usize) -> (r: Option<(usize, &'a str)>)
    requires
        cursor_pos <= input@.len(),
    ensures
        r is Some <==> at_word_active(input@, cursor_pos as int),
        r matches Some(ap) ==> ap.0 == last_at(input@, cursor_pos as int) && ap.1@
            == at_word_partial(input@, cursor_pos as int),
{
    let ghost t = input@;
    let cs = chars_of(input);
    let mut j: usize = cursor_pos;
    while j > 0 && cs[j - 1] != '@'
        invariant
            j <= cursor_pos <= t.len(),
            cs@ == t,
            last_at(t, cursor_pos as int) == last_at(t, j as int),
        decreases j,
    {
        j -= 1;
    }
    if j == 0 {
        // no '@' before the cursor
        return None;
    }
    let a = j - 1;
    proof {
        assert(last_at(t, cursor_pos as int) == a);
    }
    let mut k: usize = a;
    while k < cursor_pos && cs[k] != ' '
        invariant
            a <= k <= cursor_pos <= t.len(),
            cs@ == t,
            forall|m: int| a <= m < k ==> t[m] != ' ',
        decreases cursor_pos - k,
    {
        k += 1;
    }
    if k < cursor_pos {
        // a space separates the '@' from the cursor
        proof {
            assert(has_space(t, a as int, cursor_pos as int));
        }
        return None;
    }
    let partial = input.substring_char(a, cursor_pos);
    Some((a, partial))
}

/// Whether `name` starts, ASCII case-insensitively, with `partial`.
pub open spec fn matches_prefix(partial: Seq<char>, name: Seq<char>) -> bool {
    name.len() >= partial.len() && lower(name).take(partial.len() as int) == lower(partial)
}

/// The subsequence of `names` that starts, ASCII case-insensitively, with
/// `partial`, in the original order.
pub open spec fn names_filter(partial: Seq<char>, names: Seq<Seq<char>>) -> Seq<Seq<char>>
    decreases names.len(),
{
    if names.len() == 0 {
        seq![]
    } else {
        names_filter(partial, names.drop_last()) + (if matches_prefix(partial, names.last()) {
            seq![names.last()]
        } else {
            Seq::<Seq<char>>::empty()
        })
    }
}

/// The views of a list of string slices.
pub open spec fn views_of_strs(names: Seq<&str>) -> Seq<Seq<char>> {
    names.map_values(|s: &str| s@)
}

/// Whether `name` starts with the already lower-cased prefix `pl`.
fn starts_with_lower(name: &str, pl: &Vec<char>) -> (b: bool)
    ensures
        b == (name@.len() >= pl@.len() && lower(name@).take(pl@.len() as int) == pl@),
{
    let n = name.unicode_len();
    if n < pl.len() {
        return false;
    }
    let mut i: usize = 0;
    while i < pl.len()
        invariant
            i <= pl@.len() <= name@.len(),
            n == name@.len(),
            forall|j: int| 0 <= j < i ==> lower(name@)[j] == pl@[j],
        decreases pl@.len() - i,
    {
        if lower_char(name.get_char(i)) != pl[i] {
            proof {
                assert(lower(name@)[i as int] != pl@[i as int]);
                assert(lower(name@).take(pl@.len() as int)[i as int] != pl@[i as int]);
            }
            return false;
        }
        i += 1;
    }
    proof {
        assert(lower(name@).take(pl@.len() as int) =~= pl@);
    }
    true
}

/// The placeholder names that start, ASCII case-insensitively, with the
/// partial token, keeping their original order.
pub fn filter_placeholders<'a>(partial: &str, placeholders: &[&'a str]) -> (r: Vec<&'a str>)
    ensures
        views_of_strs(r@) == names_filter(partial@, views_of_strs(placeholders@)),
{
    let pl = lower_chars(&chars_of(partial));
    proof {
        assert(lower(partial@).len() == partial@.len());
    }
    let mut r: Vec<&'a str> = Vec::new();
    let mut i: usize = 0;
    while i < placeholders.len()
        invariant
            i <= placeholders@.len(),
            pl@ == lower(partial@),
            views_of_strs(r@) == names_filter(partial@, views_of_strs(placeholders@.take(i as int))),
        decreases placeholders@.len() - i,
    {
        let ghost prev = views_of_strs(placeholders@.take(i as int));
        let ghost cur = views_of_strs(placeholders@.take(i + 1));
        proof {
            assert(cur.drop_last() =~= prev);
            assert(cur.last() == placeholders@[i as int]@);
        }
        let name = placeholders[i];
        if starts_with_lower(name, &pl) {
            r.push(name);
            proof {
                assert(matches_prefix(partial@, name@));
                assert(views_of_strs(r@) =~= views_of_strs(r@.drop_last()) + seq![name@]);
                assert(views_of_strs(r@) =~= names_filter(partial@, cur));
            }
        } else {
            proof {
                assert(!matches_prefix(partial@, name@));
                assert(names_filter(partial@, cur) =~= names_filter(partial@, prev));
            }
        }
        i += 1;
    }
    proof {
        assert(placeholders@.take(placeholders@.len() as int) =~= placeholders@);
    }
    r
}

/// Which control receives the next keystroke.
#[derive(Clone, Copy, Debug, PartialEq, Eq, Structural)]
pub enum Focus {
    Input,
    SendButton,
    CancelButton,
}

/// The focus after a forward Tab: input, send, cancel, and around.
pub open spec fn focus_next(f: Focus) -> Focus {
    match f {
        Focus::Input => Focus::SendButton,
        Focus::SendButton => Focus::CancelButton,
        Focus::CancelButton => Focus::Input,
    }
}

/// The focus after a backward Tab.
pub open spec fn focus_prev(f: Focus) -> Focus {
    match f {
        Focus::Input => Focus::CancelButton,
        Focus::SendButton => Focus::Input,
        Focus::CancelButton => Focus::SendButton,
    }
}

/// The transient state of the input dialog.
pub struct InputState {
    /// The editable buffer.
    pub text: String,
    /// The insertion point: a character index into `text`.
    pub cursor: usize,
    /// The control that receives keys.
    pub focus: Focus,
    /// The first visible wrapped row.
    pub scroll: usize,
    /// Whether the autocomplete popup is open.
    pub ac_active: bool,
    /// The highlighted entry of the popup.
    pub ac_selected: usize,
}

/// The completion names offered at position `p`: the placeholder names
/// that start with the partial `'@'`-token, or nothing when the cursor is
/// not in such a token.
pub open spec fn completions_of(t: Seq<char>, p: int, names: Seq<Seq<char>>) -> Seq<Seq<char>> {
    if at_word_active(t, p) {
        names_filter(at_word_partial(t, p), names)
    } else {
        seq![]
    }
}

impl InputState {
    /// The cursor always sits on a position inside the buffer.
    pub open spec fn wf(self) -> bool {
        self.cursor <= self.text@.len()
    }

    /// A fresh dialog over `initial`, cursor at the end, focus on the
    /// input area.
    pub fn new(initial: &str) -> (r: InputState)
        ensures
            r.wf(),
            r.text@ == initial@,
            r.cursor == initial@.len(),
            r.focus == Focus::Input,
            r.scroll == 0,
            !r.ac_active,
            r.ac_selected == 0,
    {
        let n = initial.unicode_len();
        InputState {
            text: initial.to_owned(),
            cursor: n,
            focus: Focus::Input,
            scroll: 0,
            ac_active: false,
            ac_selected: 0,
        }
    }

    /// The state after the per-frame autocomplete refresh: the popup is
    /// open exactly when completions exist and the input area is focused,
    /// and the highlighted entry is clamped into range.
    pub open spec fn refreshed(self, names: Seq<Seq<char>>) -> InputState {
        let comps = completions_of(self.text@, self.cursor as int, names);
        if comps.len() > 0 && self.focus == Focus::Input {
            InputState {
                ac_active: true,
                ac_selected: if self.ac_selected as int >= comps.len() {
                    0
                } else {
                    self.ac_selected
                },
                ..self
            }
        } else {
            InputState { ac_active: false, ac_selected: 0, ..self }
        }
    }
}

/// One transition of the editor proper (the popup, when open, has already
/// taken its keys). `s` is the state after the autocomplete refresh.
pub open spec fn edit_step(
    s: InputState,
    key: KeyEvent,
    visible: int,
    width: int,
    prefix: int,
    s2: InputState,
    r: Option<AppResult>,
) -> bool {
    let t = s.text@;
    let p = s.cursor as int;
    match key.code {
        KeyCode::Tab => if !s.ac_active {
            s2 == (InputState { focus: focus_next(s.focus), ..s }) && r is None
        } else {
            s2 == s && r is None
        },
        KeyCode::BackTab => s2 == (InputState { focus: focus_prev(s.focus), ..s }) && r is None,
        KeyCode::Enter => if s.focus == Focus::CancelButton {
            s2 == s && r == Some(AppResult::Cancel)
        } else if t.len() > 0 {
            s2 == s && (match r {
                Some(AppResult::Submit(out)) => out@ == t,
                _ => false,
            })
        } else {
            s2 == s && r is None
        },
        KeyCode::Esc => s2 == s && r == Some(AppResult::Cancel),
        KeyCode::Char(c) => if key.ctrl && c == 'c' {
            s2 == s && r == Some(AppResult::Cancel)
        } else if s.focus == Focus::Input && !key.ctrl && !key.alt {
            let t2 = t.insert(p, c);
            &&& s2.text@ == t2
            &&& s2.cursor == p + 1
            &&& s2.scroll == scrolled_to(
                visual_row_of(wrap_spec(t2, width, prefix), p + 1),
                s.scroll as int,
                visible,
            )
            &&& s2.focus == s.focus
            &&& s2.ac_active == s.ac_active
            &&& s2.ac_selected == s.ac_selected
            &&& r is None
        } else {
            s2 == s && r is None
        },
        KeyCode::Backspace => if s.focus == Focus::Input && p > 0 {
            let t2 = t.remove(p - 1);
            &&& s2.text@ == t2
            &&& s2.cursor == p - 1
            &&& s2.scroll == scrolled_to(
                visual_row_of(wrap_spec(t2, width, prefix), p - 1),
                s.scroll as int,
                visible,
            )
            &&& s2.focus == s.focus
            &&& s2.ac_active == s.ac_active
            &&& s2.ac_selected == s.ac_selected
            &&& r is None
        } else {
            s2 == s && r is None
        },
        KeyCode::Delete => if s.focus == Focus::Input && p < t.len() {
            &&& s2.text@ == t.remove(p)
            &&& s2.cursor == s.cursor
            &&& s2.scroll == s.scroll
            &&& s2.focus == s.focus
            &&& s2.ac_active == s.ac_active
            &&& s2.ac_selected == s.ac_selected
            &&& r is None
        } else {
            s2 == s && r is None
        },
        KeyCode::Up => if s.focus == Focus::Input && !s.ac_active && line_idx(t, p) > 0 {
            let nc = cursor_of(t, line_idx(t, p) - 1, col_idx(t, p));
            s2 == (InputState {
                cursor: nc as usize,
                scroll: scrolled_to(
                    visual_row_of(wrap_spec(t, width, prefix), nc),
                    s.scroll as int,
                    visible,
                ) as usize,
                ..s
            }) && r is None
        } else {
            s2 == s && r is None
        },
        KeyCode::Down => if s.focus == Focus::Input && !s.ac_active && line_idx(t, p)
            < newline_count(t) {
            let nc = cursor_of(t, line_idx(t, p) + 1, col_idx(t, p));
            s2 == (InputState {
                cursor: nc as usize,
                scroll: scrolled_to(
                    visual_row_of(wrap_spec(t, width, prefix), nc),
                    s.scroll as int,
                    visible,
                ) as usize,
                ..s
            }) && r is None
        } else {
            s2 == s && r is None
        },
        KeyCode::Left => if s.focus == Focus::Input {
            if p > 0 {
                s2 == (InputState {
                    cursor: (p - 1) as usize,
                    scroll: scrolled_to(
                        visual_row_of(wrap_spec(t, width, prefix), p - 1),
                        s.scroll as int,
                        visible,
                    ) as usize,
                    ..s
                }) && r is None
            } else {
                s2 == s && r is None
            }
        } else {
            s2 == (InputState {
                focus: if s.focus == Focus::CancelButton {
                    Focus::SendButton
                } else {
                    Focus::Input
                },
                ..s
            }) && r is None
        },
        KeyCode::Right => if s.focus == Focus::Input {
            if p < t.len() {
                s2 == (InputState {
                    cursor: (p + 1) as usize,
                    scroll: scrolled_to(
                        visual_row_of(wrap_spec(t, width, prefix), p + 1),
                        s.scroll as int,
                        visible,
                    ) as usize,
                    ..s
                }) && r is None
            } else {
                s2 == s && r is None
            }
        } else if s.focus == Focus::SendButton {
            s2 == (InputState { focus: Focus::CancelButton, ..s }) && r is None
        } else {
            s2 == s && r is None
        },
        KeyCode::Home => if s.focus == Focus::Input {
            s2 == (InputState { cursor: cursor_of(t, line_idx(t, p), 0) as usize, ..s }) && r
                is None
        } else {
            s2 == s && r is None
        },
        KeyCode::End => if s.focus == Focus::Input {
            let line = line_idx(t, p);
            let ln = line_end_from(t, line_start(t, line)) - line_start(t, line);
            s2 == (InputState { cursor: cursor_of(t, line, ln) as usize, ..s }) && r is None
        } else {
            s2 == s && r is None
        },
    }
}

/// One transition of the autocomplete popup. `s` is the state after the
/// refresh, with the popup open; keys the popup does not take fall
/// through to the editor.
pub open spec fn popup_step(
    s: InputState,
    key: KeyEvent,
    names: Seq<Seq<char>>,
    visible: int,
    width: int,
    prefix: int,
    s2: InputState,
    r: Option<AppResult>,
) -> bool {
    let t = s.text@;
    let p = s.cursor as int;
    let comps = completions_of(t, p, names);
    if key.code == KeyCode::Down || (key.code == KeyCode::Char('n') && key.ctrl) {
        s2 == (InputState {
            ac_selected: ((s.ac_selected + 1) as int % comps.len() as int) as usize,
            ..s
        }) && r is None
    } else if key.code == KeyCode::Up || (key.code == KeyCode::Char('p') && key.ctrl) {
        s2 == (InputState {
            ac_selected: if s.ac_selected == 0 {
                (comps.len() - 1) as usize
            } else {
                (s.ac_selected - 1) as usize
            },
            ..s
        }) && r is None
    } else if key.code == KeyCode::Tab || key.code == KeyCode::Enter {
        let a = last_at(t, p);
        let name = comps[s.ac_selected as int];
        &&& s2.text@ == t.take(a) + name + seq![' '] + t.skip(p)
        &&& s2.cursor == a + name.len() + 1
        &&& s2.focus == s.focus
        &&& s2.scroll == s.scroll
        &&& !s2.ac_active
        &&& s2.ac_selected == 0
        &&& r is None
    } else if key.code == KeyCode::Esc {
        s2 == (InputState { ac_active: false, ac_selected: 0, ..s }) && r is None
    } else {
        edit_step(s, key, visible, width, prefix, s2, r)
    }
}

/// One full transition of the input dialog on one key: the autocomplete
/// state is refreshed as at the top of the dialog loop, then the popup or
/// the editor takes the key.
pub open spec fn input_step(
    s0: InputState,
    key: KeyEvent,
    names: Seq<Seq<char>>,
    visible: int,
    width: int,
    prefix: int,
    s2: InputState,
    r: Option<AppResult>,
) -> bool {
    let s = s0.refreshed(names);
    if s.ac_active {
        popup_step(s, key, names, visible, width, prefix, s2, r)
    } else {
        edit_step(s, key, visible, width, prefix, s2, r)
    }
}

impl InputState {
    /// Handle one key for the editor proper (popup keys are already
    /// dispatched by the caller).
    fn edit_key(
        &mut self,
        key: KeyEvent,
        visible_lines: usize,
        text_width: usize,
        prefix_width: usize,
    ) -> (r: Option<AppResult>)
        requires
            old(self).wf(),
            old(self).text@.len() < usize::MAX - 1,
            visible_lines >= 1,
        ensures
            final(self).wf(),
            final(self).text@.len() <= old(self).text@.len() + 1,
            edit_step(
                *old(self),
                key,
                visible_lines as int,
                text_width as int,
                prefix_width as int,
                *final(self),
                r,
            ),
    {
        let ghost t = old(self).text@;
        let ghost p = old(self).cursor as int;
        match key.code {
            KeyCode::Tab => {
                if !self.ac_active {
                    self.focus = match self.focus {
                        Focus::Input => Focus::SendButton,
                        Focus::SendButton => Focus::CancelButton,
                        Focus::CancelButton => Focus::Input,
                    };
                }
                None
            },
            KeyCode::BackTab => {
                self.focus = match self.focus {
                    Focus::Input => Focus::CancelButton,
                    Focus::SendButton => Focus::Input,
                    Focus::CancelButton => Focus::SendButton,
                };
                None
            },
            KeyCode::Enter => {
                match self.focus {
                    Focus::CancelButton => Some(AppResult::Cancel),
                    _ => {
                        if !self.text.as_str().is_empty() {
                            Some(AppResult::Submit(self.text.clone()))
                        } else {
                            None
                        }
                    },
                }
            },
            KeyCode::Esc => Some(AppResult::Cancel),
            KeyCode::Char(c) => {
                if key.ctrl && c == 'c' {
                    return Some(AppResult::Cancel);
                }
                if matches!(self.focus, Focus::Input) && !key.ctrl && !key.alt {
                    let mut cs = chars_of(self.text.as_str());
                    cs.insert(self.cursor, c);
                    self.text = string_from_chars(&cs);
                    self.cursor = self.cursor + 1;
                    update_scroll_for_cursor(
                        self.text.as_str(),
                        self.cursor,
                        &mut self.scroll,
                        visible_lines,
                        text_width,
                        prefix_width,
                    );
                }
                None
            },
            KeyCode::Backspace => {
                if matches!(self.focus, Focus::Input) && self.cursor > 0 {
                    let mut cs = chars_of(self.text.as_str());
                    cs.remove(self.cursor - 1);
                    self.text = string_from_chars(&cs);
                    self.cursor = self.cursor - 1;
                    update_scroll_for_cursor(
                        self.text.as_str(),
                        self.cursor,
                        &mut self.scroll,
                        visible_lines,
                        text_width,
                        prefix_width,
                    );
                }
                None
            },
            KeyCode::Delete => {
                if matches!(self.focus, Focus::Input) && self.cursor < chars_of(
                    self.text.as_str(),
                ).len() {
                    let mut cs = chars_of(self.text.as_str());
                    cs.remove(self.cursor);
                    self.text = string_from_chars(&cs);
                }
                None
            },
            KeyCode::Up => {
                if matches!(self.focus, Focus::Input) && !self.ac_active {
                    let lc = cursor_to_line_col(self.text.as_str(), self.cursor);
                    if lc.0 > 0 {
                        self.cursor = line_col_to_cursor(self.text.as_str(), lc.0 - 1, lc.1);
                        update_scroll_for_cursor(
                            self.text.as_str(),
                            self.cursor,
                            &mut self.scroll,
                            visible_lines,
                            text_width,
                            prefix_width,
                        );
                    }
                }
                None
            },
            KeyCode::Down => {
                if matches!(self.focus, Focus::Input) && !self.ac_active {
                    let lc = cursor_to_line_col(self.text.as_str(), self.cursor);
                    let total = count_lines(self.text.as_str());
                    proof {
                        lemma_line_col_bounds(t, t.len() as int);
                    }
                    if lc.0 < total - 1 {
                        self.cursor = line_col_to_cursor(self.text.as_str(), lc.0 + 1, lc.1);
                        update_scroll_for_cursor(
                            self.text.as_str(),
                            self.cursor,
                            &mut self.scroll,
                            visible_lines,
                            text_width,
                            prefix_width,
                        );
                    }
                }
                None
            },
            KeyCode::Left => {
                if matches!(self.focus, Focus::Input) {
                    if self.cursor > 0 {
                        self.cursor = self.cursor - 1;
                        update_scroll_for_cursor(
                            self.text.as_str(),
                            self.cursor,
                            &mut self.scroll,
                            visible_lines,
                            text_width,
                            prefix_width,
                        );
                    }
                } else {
                    self.focus = match self.focus {
                        Focus::CancelButton => Focus::SendButton,
                        _ => Focus::Input,
                    };
                }
                None
            },
            KeyCode::Right => {
                if matches!(self.focus, Focus::Input) {
                    if self.cursor < chars_of(self.text.as_str()).len() {
                        self.cursor = self.cursor + 1;
                        update_scroll_for_cursor(
                            self.text.as_str(),
                            self.cursor,
                            &mut self.scroll,
                            visible_lines,
                            text_width,
                            prefix_width,
                        );
                    }
                } else if matches!(self.focus, Focus::SendButton) {
                    self.focus = Focus::CancelButton;
                }
                None
            },
            KeyCode::Home => {
                if matches!(self.focus, Focus::Input) {
                    let lc = cursor_to_line_col(self.text.as_str(), self.cursor);
                    self.cursor = line_col_to_cursor(self.text.as_str(), lc.0, 0);
                }
                None
            },
            KeyCode::End => {
                if matches!(self.focus, Focus::Input) {
                    let lc = cursor_to_line_col(self.text.as_str(), self.cursor);
                    proof {
                        crate::text::lemma_line_idx_monotonic(t, p, t.len() as int);
                    }
                    let ln = get_line_length(self.text.as_str(), lc.0);
                    self.cursor = line_col_to_cursor(self.text.as_str(), lc.0, ln);
                }
                None
            },
        }
    }

    /// Handle one key event: refresh the autocomplete state as the dialog
    /// loop does before reading a key, let the popup or the editor take
    /// the key, and report `Submit` or `Cancel` when the dialog finishes.
    /// The transition is exactly [`input_step`].
    pub fn handle_key(
        &mut self,
        key: KeyEvent,
        placeholders: &[&str],
        visible_lines: usize,
        text_width: usize,
        prefix_width: usize,
    ) -> (r: Option<AppResult>)
        requires
            old(self).wf(),
            old(self).text@.len() < usize::MAX - 1,
            visible_lines >= 1,
        ensures
            final(self).wf(),
            input_step(
                *old(self),
                key,
                views_of_strs(placeholders@),
                visible_lines as int,
                text_width as int,
                prefix_width as int,
                *final(self),
                r,
            ),
    {
        let ghost names = views_of_strs(placeholders@);
        let ghost s0 = *old(self);
        let ghost t = old(self).text@;
        let ghost p = old(self).cursor as int;
        // refresh the popup state, as the dialog loop does each frame
        let comps: Vec<&str> = match find_at_word(self.text.as_str(), self.cursor) {
            Some(ap) => filter_placeholders(ap.1, placeholders),
            None => Vec::new(),
        };
        proof {
            assert(views_of_strs(comps@) == completions_of(t, p, names)) by {
                if !at_word_active(t, p) {
                    assert(views_of_strs(Seq::<&str>::empty()) =~= Seq::<Seq<char>>::empty());
                }
            }
            assert(comps@.len() == completions_of(t, p, names).len());
        }
        if comps.len() > 0 && matches!(self.focus, Focus::Input) {
            self.ac_active = true;
            if self.ac_selected >= comps.len() {
                self.ac_selected = 0;
            }
        } else {
            self.ac_active = false;
            self.ac_selected = 0;
        }
        proof {
            assert(*self == s0.refreshed(names));
        }
        let ghost s = s0.refreshed(names);
        if self.ac_active {
            if key.code == KeyCode::Down || (key.code == KeyCode::Char('n') && key.ctrl) {
                self.ac_selected = (self.ac_selected + 1) % comps.len();
                return None;
            }
            if key.code == KeyCode::Up || (key.code == KeyCode::Char('p') && key.ctrl) {
                self.ac_selected = if self.ac_selected == 0 {
                    comps.len() - 1
                } else {
                    self.ac_selected - 1
                };
                return None;
            }
            if key.code == KeyCode::Tab || key.code == KeyCode::Enter {
                // accept the highlighted completion: replace the partial
                // token and append one space
                let at_pos = match find_at_word(self.text.as_str(), self.cursor) {
                    Some(ap) => ap.0,
                    None => {
                        proof {
                            assert(false);
                        }
                        return None;
                    },
                };
                let name = comps[self.ac_selected];
                proof {
                    assert(views_of_strs(comps@)[self.ac_selected as int] == name@);
                    lemma_last_at_bounds(t, p);
                }
                let cs = chars_of(self.text.as_str());
                let ncs = chars_of(name);
                let mut out: Vec<char> = Vec::new();
                crate::strutil::push_range(&mut out, &cs, 0, at_pos);
                crate::strutil::push_range(&mut out, &ncs, 0, ncs.len());
                out.push(' ');
                let nc = out.len();
                crate::strutil::push_range(&mut out, &cs, self.cursor, cs.len());
                proof {
                    assert(cs@.subrange(0, at_pos as int) =~= t.take(at_pos as int));
                    assert(ncs@.subrange(0, ncs@.len() as int) =~= name@);
                    assert(cs@.subrange(p, cs@.len() as int) =~= t.skip(p));
                    assert(out@ =~= t.take(at_pos as int) + name@ + seq![' '] + t.skip(p));
                }
                self.text = string_from_chars(&out);
                self.cursor = nc;
                self.ac_active = false;
                self.ac_selected = 0;
                return None;
            }
            if key.code == KeyCode::Esc {
                self.ac_active = false;
                self.ac_selected = 0;
                return None;
            }
            return self.edit_key(key, visible_lines, text_width, prefix_width);
        }
        self.edit_key(key, visible_lines, text_width, prefix_width)
    }
}

/// Inserting a character at any valid position and deleting it again with
/// Backspace yields the original buffer.
pub proof fn lemma_insert_remove(t: Seq<char>, p: int, c: char)
    requires
        0 <= p <= t.len(),
    ensures
        t.insert(p, c).remove(p) == t,
{
    assert(t.insert(p, c).remove(p) =~= t);
}

} // verus!
