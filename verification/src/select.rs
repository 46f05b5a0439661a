//! The selection dialog: a fuzzy-filter picker over a flat list of
//! labeled items.
//!
//! The surrounding program draws the list, reads one key, and hands it to
//! [`SelectState::handle_key`]. The filter is an ASCII case-insensitive
//! substring query over item names and descriptions; the selection index
//! always stays inside the filtered view.

use vstd::prelude::*;
use crate::strutil::{chars_of, lower, lower_chars};
use crate::keys::{KeyCode, KeyEvent};
use crate::input::AppResult;

verus! {

/// An entry of the selection menu. The value is what the caller receives
/// back when the entry is chosen; name and description drive filtering
/// and display.
#[derive(Debug, Clone)]
pub struct SelectItem {
    /// Display name.
    pub name: String,
    /// Description shown beside the name.
    pub description: String,
    /// Value returned when selected.
    pub value: String,
    /// Category for grouping.
    pub category: String,
}

/// The mathematical image of a [`SelectItem`].
#[verifier::ext_equal]
pub struct ItemView {
    pub name: Seq<char>,
    pub description: Seq<char>,
    pub value: Seq<char>,
    pub category: Seq<char>,
}

impl View for SelectItem {
    type V = ItemView;

    open spec fn view(&self) -> ItemView {
        ItemView {
            name: self.name@,
            description: self.description@,
            value: self.value@,
            category: self.category@,
        }
    }
}

/// The views of a list of items.
pub open spec fn items_view(items: Seq<SelectItem>) -> Seq<ItemView> {
    items.map_values(|it: SelectItem| it@)
}

impl SelectItem {
    /// An entry with the given name, description, value and category.
    pub fn new(name: &str, description: &str, value: &str, category: &str) -> (r: SelectItem)
        ensures
            r.name@ == name@,
            r.description@ == description@,
            r.value@ == value@,
            r.category@ == category@,
    {
        SelectItem {
            name: name.to_owned(),
            description: description.to_owned(),
            value: value.to_owned(),
            category: category.to_owned(),
        }
    }
}

/// Whether `needle` occurs as a contiguous subsequence of `hay`.
pub open spec fn contains_sub(hay: Seq<char>, needle: Seq<char>) -> bool {
    exists|k: int|
        0 <= k <= hay.len() - needle.len() && #[trigger] hay.subrange(k, k + needle.len())
            == needle
}

/// Whether an item matches the filter: an empty filter matches everything,
/// otherwise the lower-cased name or description must contain the
/// lower-cased filter.
pub open spec fn item_matches(item: ItemView, f: Seq<char>) -> bool {
    ||| f.len() == 0
    ||| contains_sub(lower(item.name), lower(f))
    ||| contains_sub(lower(item.description), lower(f))
}

/// The indices of the items that match the filter, in their original
/// order.
pub open spec fn filtered_idx(items: Seq<ItemView>, f: Seq<char>) -> Seq<int>
    decreases items.len(),
{
    if items.len() == 0 {
        seq![]
    } else {
        filtered_idx(items.drop_last(), f) + (if item_matches(items.last(), f) {
            seq![items.len() - 1]
        } else {
            Seq::<int>::empty()
        })
    }
}

/// Every filtered index addresses an item.
pub proof fn lemma_filtered_idx_bounds(items: Seq<ItemView>, f: Seq<char>)
    ensures
        forall|j: int|
            0 <= j < filtered_idx(items, f).len() ==> 0 <= #[trigger] filtered_idx(items, f)[j]
                < items.len(),
    decreases items.len(),
{
    if items.len() > 0 {
        lemma_filtered_idx_bounds(items.drop_last(), f);
        let pre = filtered_idx(items.drop_last(), f);
        assert forall|j: int| 0 <= j < filtered_idx(items, f).len() implies 0
            <= #[trigger] filtered_idx(items, f)[j] < items.len() by {
            if j < pre.len() {
                assert(filtered_idx(items, f)[j] == pre[j]);
            }
        }
    }
}

/// Whether the lower-cased `hay` contains the already lower-cased
/// `needle`.
fn contains_lower(hay: &str, needle_low: &Vec<char>) -> (b: bool)
    ensures
        b == contains_sub(lower(hay@), needle_low@),
{
    let hs = lower_chars(&chars_of(hay));
    let n = hs.len();
    let m = needle_low.len();
    if m > n {
        proof {
            assert(!contains_sub(lower(hay@), needle_low@));
        }
        return false;
    }
    let mut k: usize = 0;
    while k <= n - m
        invariant
            m <= n,
            n == hs@.len(),
            hs@ == lower(hay@),
            m == needle_low@.len(),
            k <= n - m + 1,
            forall|k2: int|
                0 <= k2 < k ==> #[trigger] hs@.subrange(k2, k2 + needle_low@.len())
                    != needle_low@,
        decreases n - m - k + 1,
    {
        let mut j: usize = 0;
        let mut hit = true;
        while j < m
            invariant
                j <= m,
                k + m <= n,
                n == hs@.len(),
                m == needle_low@.len(),
                hit ==> forall|j2: int| 0 <= j2 < j ==> hs@[k + j2] == needle_low@[j2],
                !hit ==> hs@.subrange(k as int, k + needle_low@.len()) != needle_low@,
            decreases m - j,
        {
            if hs[k + j] != needle_low[j] {
                proof {
                    let jj = j as int;
                    assert(hs@.subrange(k as int, k + needle_low@.len())[jj] != needle_low@[jj]);
                }
                hit = false;
                j = m;
            } else {
                j += 1;
            }
        }
        if hit {
            proof {
                assert(hs@.subrange(k as int, k + needle_low@.len()) =~= needle_low@);
            }
            return true;
        }
        proof {
            if m == 0 {
                assert(hs@.subrange(k as int, k as int) =~= needle_low@);
            }
        }
        k += 1;
    }
    proof {
        assert(!contains_sub(lower(hay@), needle_low@));
    }
    false
}

/// The indices of the items matching the filter, in order.
pub fn filter_items(items: &Vec<SelectItem>, filter: &Vec<char>) -> (r: Vec<usize>)
    ensures
        r@.map_values(|u: usize| u as int) == filtered_idx(items_view(items@), filter@),
{
    let fl = lower_chars(filter);
    let empty = filter.len() == 0;
    let mut r: Vec<usize> = Vec::new();
    let mut i: usize = 0;
    while i < items.len()
        invariant
            i <= items@.len(),
            fl@ == lower(filter@),
            empty == (filter@.len() == 0),
            r@.map_values(|u: usize| u as int) == filtered_idx(
                items_view(items@.take(i as int)),
                filter@,
            ),
        decreases items@.len() - i,
    {
        let ghost prev = items_view(items@.take(i as int));
        let ghost cur = items_view(items@.take(i + 1));
        proof {
            assert(cur.drop_last() =~= prev);
            assert(cur.last() == items@[i as int]@);
        }
        let m = empty || contains_lower(items[i].name.as_str(), &fl) || contains_lower(
            items[i].description.as_str(),
            &fl,
        );
        proof {
            assert(m == item_matches(items@[i as int]@, filter@));
        }
        if m {
            r.push(i);
            proof {
                assert(r@.map_values(|u: usize| u as int) =~= r@.drop_last().map_values(
                    |u: usize| u as int,
                ) + seq![i as int]);
                assert(r@.map_values(|u: usize| u as int) =~= filtered_idx(cur, filter@));
            }
        } else {
            proof {
                assert(filtered_idx(cur, filter@) =~= filtered_idx(prev, filter@));
            }
        }
        i += 1;
    }
    proof {
        assert(items@.take(items@.len() as int) =~= items@);
    }
    r
}

/// The transient state of the selection dialog.
pub struct SelectState {
    /// The live filter query, as typed.
    pub filter: Vec<char>,
    /// The highlighted position within the filtered view.
    pub selected: usize,
}

/// The selection index clamped to a filtered view of `n` entries: the last
/// entry when it ran past the end, and 0 when the view is empty.
pub open spec fn clamp_sel(sel: int, n: int) -> int {
    if n > 0 {
        if sel >= n {
            n - 1
        } else {
            sel
        }
    } else {
        0
    }
}

impl SelectState {
    /// The selection always lies inside the filtered view, and rests at 0
    /// when the view is empty.
    pub open spec fn wf(self, items: Seq<ItemView>) -> bool {
        let n = filtered_idx(items, self.filter@).len();
        if n > 0 {
            self.selected < n
        } else {
            self.selected == 0
        }
    }

    /// A fresh dialog: empty filter, first entry highlighted.
    pub fn new() -> (r: SelectState)
        ensures
            r.filter@ == Seq::<char>::empty(),
            r.selected == 0,
            forall|items: Seq<ItemView>| r.wf(items),
    {
        SelectState { filter: Vec::new(), selected: 0 }
    }
}

/// One transition of the selection dialog on one key.
pub open spec fn select_step(
    s: SelectState,
    items: Seq<ItemView>,
    key: KeyEvent,
    s2: SelectState,
    r: Option<AppResult>,
) -> bool {
    let fi = filtered_idx(items, s.filter@);
    if key.code == KeyCode::Enter {
        if s.selected < fi.len() {
            s2 == s && (match r {
                Some(AppResult::Submit(v)) => v@ == items[fi[s.selected as int]].value,
                _ => false,
            })
        } else {
            s2 == s && r is None
        }
    } else if key.code == KeyCode::Esc {
        s2 == s && r == Some(AppResult::Cancel)
    } else if key.code == KeyCode::Char('c') && key.ctrl {
        s2 == s && r == Some(AppResult::Cancel)
    } else if key.code == KeyCode::Up || key.code == KeyCode::Char('k') || (key.code
        == KeyCode::Char('p') && key.ctrl) {
        s2 == (SelectState {
            selected: if s.selected > 0 {
                (s.selected - 1) as usize
            } else {
                0
            },
            ..s
        }) && r is None
    } else if key.code == KeyCode::Down || key.code == KeyCode::Char('j') || (key.code
        == KeyCode::Char('n') && key.ctrl) {
        s2 == (SelectState {
            selected: if s.selected + 1 < fi.len() {
                (s.selected + 1) as usize
            } else {
                s.selected
            },
            ..s
        }) && r is None
    } else {
        match key.code {
            KeyCode::Char(c) => if !key.ctrl && !key.alt {
                let f2 = s.filter@.push(c);
                &&& s2.filter@ == f2
                &&& s2.selected == clamp_sel(s.selected as int, filtered_idx(items, f2).len() as int)
                &&& r is None
            } else {
                s2 == s && r is None
            },
            KeyCode::Backspace => {
                let f2 = if s.filter@.len() > 0 {
                    s.filter@.drop_last()
                } else {
                    s.filter@
                };
                &&& s2.filter@ == f2
                &&& s2.selected == clamp_sel(s.selected as int, filtered_idx(items, f2).len() as int)
                &&& r is None
            },
            _ => s2 == s && r is None,
        }
    }
}

impl SelectState {
    /// Handle one key event: navigation moves the highlight within the
    /// filtered view without wrapping, Enter submits the highlighted
    /// item's value, Escape and Control+C cancel, printable characters
    /// extend the filter and Backspace shortens it, re-clamping the
    /// highlight. The transition is exactly [`select_step`], and the
    /// highlight always stays inside the filtered view.
    pub fn handle_key(&mut self, items: &Vec<SelectItem>, key: KeyEvent) -> (r: Option<AppResult>)
        requires
            old(self).wf(items_view(items@)),
        ensures
            final(self).wf(items_view(items@)),
            select_step(*old(self), items_view(items@), key, *final(self), r),
    {
        let ghost iv = items_view(items@);
        let fi = filter_items(items, &self.filter);
        proof {
            assert(fi@.len() == filtered_idx(iv, self.filter@).len());
        }
        if key.code == KeyCode::Enter {
            if self.selected < fi.len() {
                let idx = fi[self.selected];
                proof {
                    lemma_filtered_idx_bounds(iv, self.filter@);
                    assert(fi@.map_values(|u: usize| u as int)[self.selected as int] == idx as int);
                    assert(iv[idx as int] == items@[idx as int]@);
                }
                return Some(AppResult::Submit(items[idx].value.clone()));
            }
            return None;
        }
        if key.code == KeyCode::Esc {
            return Some(AppResult::Cancel);
        }
        if key.code == KeyCode::Char('c') && key.ctrl {
            return Some(AppResult::Cancel);
        }
        if key.code == KeyCode::Up || key.code == KeyCode::Char('k') || (key.code
            == KeyCode::Char('p') && key.ctrl) {
            if self.selected > 0 {
                self.selected = self.selected - 1;
            }
            return None;
        }
        if key.code == KeyCode::Down || key.code == KeyCode::Char('j') || (key.code
            == KeyCode::Char('n') && key.ctrl) {
            if fi.len() > 0 && self.selected < fi.len() - 1 {
                self.selected = self.selected + 1;
            }
            return None;
        }
        match key.code {
            KeyCode::Char(c) => {
                if !key.ctrl && !key.alt {
                    self.filter.push(c);
                    let fi2 = filter_items(items, &self.filter);
                    if self.selected >= fi2.len() {
                        self.selected = if fi2.len() > 0 {
                            fi2.len() - 1
                        } else {
                            0
                        };
                    }
                }
                None
            },
            KeyCode::Backspace => {
                if self.filter.len() > 0 {
                    self.filter.pop();
                    proof {
                        assert(self.filter@ =~= old(self).filter@.drop_last());
                    }
                }
                let fi2 = filter_items(items, &self.filter);
                if self.selected >= fi2.len() {
                    self.selected = if fi2.len() > 0 {
                        fi2.len() - 1
                    } else {
                        0
                    };
                }
                None
            },
            _ => None,
        }
    }
}

} // verus!
