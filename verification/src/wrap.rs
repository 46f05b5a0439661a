//! Character-based soft wrapping of the input buffer.
//!
//! The buffer is cut into visual rows: each logical line starts a new row,
//! and a logical line longer than the effective width is cut into chunks of
//! exactly that width (the last chunk may be shorter). The effective width
//! is the render width minus the width of the prompt prefix; when that
//! leaves no room, each logical line becomes a single row.

use vstd::prelude::*;
use crate::strutil::{chars_of, substring_chars};
use crate::text::{line_end_from, lemma_line_end_from};

verus! {

/// One visual row of the wrapped buffer.
pub struct WrappedLine {
    /// The characters shown on this row.
    pub text: String,
    /// The logical line this row belongs to.
    pub logical_line: usize,
    /// Whether this row is the first row of its logical line.
    pub is_first: bool,
    /// The position in the buffer where this row starts.
    pub start_pos: usize,
}

/// The mathematical image of a [`WrappedLine`].
pub struct RowView {
    pub text: Seq<char>,
    pub logical_line: int,
    pub is_first: bool,
    pub start_pos: int,
}

impl View for WrappedLine {
    type V = RowView;

    open spec fn view(&self) -> RowView {
        RowView {
            text: self.text@,
            logical_line: self.logical_line as int,
            is_first: self.is_first,
            start_pos: self.start_pos as int,
        }
    }
}

/// The views of a sequence of rows.
pub open spec fn views_of(rows: Seq<WrappedLine>) -> Seq<RowView> {
    rows.map_values(|wl: WrappedLine| wl@)
}

/// The width left for buffer text once the prompt prefix is drawn.
pub open spec fn effective_width(width: int, prefix_width: int) -> int {
    if width > prefix_width {
        width - prefix_width
    } else {
        0
    }
}

/// The rows of one logical line `line` starting at buffer position `off`:
/// chunks of exactly `w` characters, the last one at most `w`; the whole
/// line as a single row when `w` leaves no room.
pub open spec fn chunk_rows(line: Seq<char>, w: int, ll: int, off: int, first: bool) -> Seq<
    RowView,
>
    decreases line.len(),
{
    if w < 1 || line.len() <= w {
        seq![RowView { text: line, logical_line: ll, is_first: first, start_pos: off }]
    } else {
        seq![
            RowView {
                text: line.take(w),
                logical_line: ll,
                is_first: first,
                start_pos: off,
            },
        ] + chunk_rows(line.skip(w), w, ll, off + w, false)
    }
}

/// The rows of the buffer suffix that starts at position `i` on logical
/// line `ll`.
pub open spec fn wrap_from(t: Seq<char>, w: int, i: int, ll: int) -> Seq<RowView>
    decreases t.len() - i when 0 <= i <= t.len() via wrap_from_dec
{
    let e = line_end_from(t, i);
    let rows = chunk_rows(t.subrange(i, e), w, ll, i, true);
    if e >= t.len() {
        rows
    } else {
        rows + wrap_from(t, w, e + 1, ll + 1)
    }
}

#[via_fn]
proof fn wrap_from_dec(t: Seq<char>, w: int, i: int, ll: int) {
    lemma_line_end_from(t, i);
}

/// The full wrapped layout of the buffer at the given render width and
/// prompt prefix width.
pub open spec fn wrap_spec(t: Seq<char>, width: int, prefix_width: int) -> Seq<RowView> {
    wrap_from(t, effective_width(width, prefix_width), 0, 0)
}

/// Wrap the buffer for rendering. Rows appear in buffer order; the
/// resulting layout is exactly [`wrap_spec`].
pub fn wrap_text(text: &str, width: usize, prefix_width: usize) -> (r: Vec<WrappedLine>)
    requires
        text@.len() < usize::MAX,
    ensures
        views_of(r@) == wrap_spec(text@, width as int, prefix_width as int),
{
    let ghost t = text@;
    let cs = chars_of(text);
    let n = cs.len();
    let eff: usize = if width > prefix_width {
        width - prefix_width
    } else {
        0
    };
    let ghost w = effective_width(width as int, prefix_width as int);
    let mut rows: Vec<WrappedLine> = Vec::new();
    let mut i: usize = 0;
    let mut ll: usize = 0;
    while i <= n
        invariant
            i <= n + 1,
            n == t.len() < usize::MAX,
            cs@ == t,
            eff == w,
            ll <= i,
            i <= n ==> views_of(rows@) + wrap_from(t, w, i as int, ll as int) == wrap_from(
                t,
                w,
                0,
                0,
            ),
            i == n + 1 ==> views_of(rows@) == wrap_from(t, w, 0, 0),
        decreases n + 1 - i,
    {
        // find the end of the logical line that starts at i
        let mut e: usize = i;
        while e < n && cs[e] != '\n'
            invariant
                i <= e <= n,
                n == t.len(),
                cs@ == t,
                line_end_from(t, i as int) == line_end_from(t, e as int),
            decreases n - e,
        {
            e += 1;
        }
        proof {
            lemma_line_end_from(t, e as int);
            assert(line_end_from(t, i as int) == e);
        }
        let ghost rest = if e < n {
            wrap_from(t, w, e as int + 1, ll as int + 1)
        } else {
            Seq::<RowView>::empty()
        };
        proof {
            assert(wrap_from(t, w, i as int, ll as int) == chunk_rows(
                t.subrange(i as int, e as int),
                w,
                ll as int,
                i as int,
                true,
            ) + rest) by {
                if e == n {
                    assert(wrap_from(t, w, i as int, ll as int) =~= chunk_rows(
                        t.subrange(i as int, e as int),
                        w,
                        ll as int,
                        i as int,
                        true,
                    ) + rest);
                }
            }
        }
        // emit the chunks of this line
        let mut pos: usize = i;
        let mut first: bool = true;
        while eff >= 1 && e - pos > eff
            invariant
                i <= pos <= e <= n,
                n == t.len(),
                cs@ == t,
                eff == w,
                views_of(rows@) + chunk_rows(
                    t.subrange(pos as int, e as int),
                    w,
                    ll as int,
                    pos as int,
                    first,
                ) + rest == wrap_from(t, w, 0, 0),
            decreases e - pos,
        {
            let chunk = substring_chars(&cs, pos, pos + eff);
            rows.push(
                WrappedLine { text: chunk, logical_line: ll, is_first: first, start_pos: pos },
            );
            proof {
                let line = t.subrange(pos as int, e as int);
                assert(line.take(w) =~= t.subrange(pos as int, pos + w));
                assert(line.skip(w) =~= t.subrange(pos + w, e as int));
                assert(views_of(rows@) =~= views_of(rows@.drop_last()) + seq![
                    rows@.last()@,
                ]);
                assert(views_of(rows@) + chunk_rows(
                    t.subrange(pos + w, e as int),
                    w,
                    ll as int,
                    pos + w,
                    false,
                ) + rest =~= views_of(rows@.drop_last()) + chunk_rows(
                    line,
                    w,
                    ll as int,
                    pos as int,
                    first,
                ) + rest);
            }
            pos += eff;
            first = false;
        }
        let tail = substring_chars(&cs, pos, e);
        rows.push(WrappedLine { text: tail, logical_line: ll, is_first: first, start_pos: pos });
        proof {
            let line = t.subrange(pos as int, e as int);
            assert(chunk_rows(line, w, ll as int, pos as int, first) == seq![
                RowView {
                    text: line,
                    logical_line: ll as int,
                    is_first: first,
                    start_pos: pos as int,
                },
            ]);
            assert(views_of(rows@) =~= views_of(rows@.drop_last()) + seq![rows@.last()@]);
            assert(views_of(rows@) + rest =~= views_of(rows@.drop_last()) + chunk_rows(
                line,
                w,
                ll as int,
                pos as int,
                first,
            ) + rest);
        }
        if e < n {
            i = e + 1;
            ll = ll + 1;
        } else {
            i = n + 1;
            proof {
                assert(views_of(rows@) + rest =~= views_of(rows@));
            }
        }
    }
    rows
}

/// Whether a row's span of the buffer contains position `p`. A row spans
/// from its start up to and including its end, so a position at the seam of
/// two rows belongs to the earlier one.
pub open spec fn row_covers(row: RowView, p: int) -> bool {
    row.start_pos <= p <= row.start_pos + row.text.len()
}

/// Whether some row of `rows` covers position `p`.
pub open spec fn covered(rows: Seq<RowView>, p: int) -> bool
    decreases rows.len(),
{
    rows.len() > 0 && (row_covers(rows[0], p) || covered(rows.drop_first(), p))
}

/// The index of the first row covering `p`.
pub open spec fn visual_row_of(rows: Seq<RowView>, p: int) -> int
    decreases rows.len(),
{
    if rows.len() == 0 {
        0
    } else if row_covers(rows[0], p) {
        0
    } else {
        1 + visual_row_of(rows.drop_first(), p)
    }
}

/// The offset of `p` within the first row covering it.
pub open spec fn visual_col_of(rows: Seq<RowView>, p: int) -> int
    decreases rows.len(),
{
    if rows.len() == 0 {
        0
    } else if row_covers(rows[0], p) {
        p - rows[0].start_pos
    } else {
        visual_col_of(rows.drop_first(), p)
    }
}

/// Coverage splits over concatenation.
proof fn lemma_covered_concat(a: Seq<RowView>, b: Seq<RowView>, p: int)
    ensures
        covered(a + b, p) <==> (covered(a, p) || covered(b, p)),
        !covered(a, p) ==> visual_row_of(a + b, p) == a.len() + visual_row_of(b, p),
        !covered(a, p) ==> visual_col_of(a + b, p) == visual_col_of(b, p),
    decreases a.len(),
{
    if a.len() == 0 {
        assert(a + b =~= b);
    } else {
        assert((a + b).drop_first() =~= a.drop_first() + b);
        assert((a + b)[0] == a[0]);
        lemma_covered_concat(a.drop_first(), b, p);
    }
}

/// The rows of one logical line cover every position in its span.
proof fn lemma_chunk_rows_cover(line: Seq<char>, w: int, ll: int, off: int, first: bool, p: int)
    requires
        off <= p <= off + line.len(),
    ensures
        covered(chunk_rows(line, w, ll, off, first), p),
    decreases line.len(),
{
    if !(w < 1 || line.len() <= w) {
        if p <= off + w {
        } else {
            let head = seq![
                RowView { text: line.take(w), logical_line: ll, is_first: first, start_pos: off },
            ];
            let rest = chunk_rows(line.skip(w), w, ll, off + w, false);
            lemma_chunk_rows_cover(line.skip(w), w, ll, off + w, false, p);
            lemma_covered_concat(head, rest, p);
        }
    }
}

/// The wrapped layout of a buffer suffix covers every position in it.
proof fn lemma_wrap_from_cover(t: Seq<char>, w: int, i: int, ll: int, p: int)
    requires
        0 <= i <= t.len(),
        i <= p <= t.len(),
    ensures
        covered(wrap_from(t, w, i, ll), p),
    decreases t.len() - i,
{
    lemma_line_end_from(t, i);
    let e = line_end_from(t, i);
    let line = t.subrange(i, e);
    let rows = chunk_rows(line, w, ll, i, true);
    if e >= t.len() {
        lemma_chunk_rows_cover(line, w, ll, i, true, p);
    } else {
        if p <= e {
            lemma_chunk_rows_cover(line, w, ll, i, true, p);
            lemma_covered_concat(rows, wrap_from(t, w, e + 1, ll + 1), p);
        } else {
            lemma_wrap_from_cover(t, w, e + 1, ll + 1, p);
            lemma_covered_concat(rows, wrap_from(t, w, e + 1, ll + 1), p);
        }
    }
}

/// The visual (row, column) of a buffer position in the wrapped layout:
/// the first row whose span contains the position, and the offset within
/// that row.
pub fn cursor_to_visual_pos(text: &str, cursor_pos: usize, width: usize, prefix_width: usize) -> (r:
    (usize, usize))
    requires
        text@.len() < usize::MAX,
        cursor_pos <= text@.len(),
    ensures
        r.0 == visual_row_of(wrap_spec(text@, width as int, prefix_width as int), cursor_pos as int),
        r.1 == visual_col_of(wrap_spec(text@, width as int, prefix_width as int), cursor_pos as int),
        r.0 < wrap_spec(text@, width as int, prefix_width as int).len(),
{
    let ghost rws = wrap_spec(text@, width as int, prefix_width as int);
    let ghost p = cursor_pos as int;
    let rows = wrap_text(text, width, prefix_width);
    proof {
        lemma_wrap_from_cover(text@, effective_width(width as int, prefix_width as int), 0, 0, p);
        assert(rws.skip(0) =~= rws);
    }
    let mut k: usize = 0;
    while k < rows.len()
        invariant
            k <= rows@.len(),
            rws == wrap_spec(text@, width as int, prefix_width as int),
            views_of(rows@) == rws,
            covered(rws.skip(k as int), p),
            visual_row_of(rws, p) == k + visual_row_of(rws.skip(k as int), p),
            visual_col_of(rws, p) == visual_col_of(rws.skip(k as int), p),
            cursor_pos == p,
        decreases rows@.len() - k,
    {
        proof {
            assert(rws.skip(k as int)[0] == rws[k as int]);
        }
        let start = rows[k].start_pos;
        let len = rows[k].text.unicode_len();
        if start <= cursor_pos && cursor_pos - start <= len {
            proof {
                assert(row_covers(rws[k as int], p));
                assert(visual_row_of(rws.skip(k as int), p) == 0);
                assert(visual_col_of(rws.skip(k as int), p) == p - start);
            }
            return (k, cursor_pos - start);
        }
        proof {
            assert(rws.skip(k as int).drop_first() =~= rws.skip(k as int + 1));
        }
        k += 1;
    }
    proof {
        assert(rws.skip(rows@.len() as int) =~= Seq::<RowView>::empty());
        assert(false);
    }
    (0, 0)
}

/// The number of visual rows the buffer wraps into.
pub fn count_visual_lines(text: &str, width: usize, prefix_width: usize) -> (r: usize)
    requires
        text@.len() < usize::MAX,
    ensures
        r == wrap_spec(text@, width as int, prefix_width as int).len(),
{
    let rows = wrap_text(text, width, prefix_width);
    rows.len()
}

/// The scroll offset after following the cursor: unchanged while the
/// cursor's visual row lies inside the window of `visible_lines` rows
/// starting at the offset, otherwise moved the least amount that brings
/// the row back inside.
pub open spec fn scrolled_to(vr: int, scroll: int, visible_lines: int) -> int {
    if vr < scroll {
        vr
    } else if vr >= scroll + visible_lines {
        vr - visible_lines + 1
    } else {
        scroll
    }
}

/// Keep the cursor's visual row inside the visible window.
pub fn update_scroll_for_cursor(
    text: &str,
    cursor_pos: usize,
    scroll_offset: &mut usize,
    visible_lines: usize,
    text_width: usize,
    prefix_width: usize,
)
    requires
        text@.len() < usize::MAX,
        cursor_pos <= text@.len(),
        visible_lines >= 1,
    ensures
        *final(scroll_offset) == scrolled_to(
            visual_row_of(
                wrap_spec(text@, text_width as int, prefix_width as int),
                cursor_pos as int,
            ),
            *old(scroll_offset) as int,
            visible_lines as int,
        ),
{
    let (vr, _) = cursor_to_visual_pos(text, cursor_pos, text_width, prefix_width);
    if vr < *scroll_offset {
        *scroll_offset = vr;
    } else if vr - *scroll_offset >= visible_lines {
        *scroll_offset = vr - visible_lines + 1;
    }
}

/// The buffer text a sequence of rows stands for: row texts joined in
/// order, with a newline wherever the next row starts a new logical line.
pub open spec fn reassemble(rows: Seq<RowView>) -> Seq<char>
    decreases rows.len(),
{
    if rows.len() == 0 {
        seq![]
    } else {
        rows[0].text + (if rows.len() > 1 && rows[1].is_first {
            seq!['\n']
        } else {
            Seq::<char>::empty()
        }) + reassemble(rows.drop_first())
    }
}

/// The rows of one logical line are nonempty and start with the row marked
/// by `first`.
proof fn lemma_chunk_rows_first(line: Seq<char>, w: int, ll: int, off: int, first: bool)
    ensures
        chunk_rows(line, w, ll, off, first).len() >= 1,
        chunk_rows(line, w, ll, off, first)[0].is_first == first,
{
}

/// Reassembling the rows of one logical line followed by the rows of later
/// lines yields the line itself, a separating newline, and the rest.
proof fn lemma_reassemble_chunks(
    line: Seq<char>,
    w: int,
    ll: int,
    off: int,
    first: bool,
    rest: Seq<RowView>,
)
    requires
        rest.len() > 0 ==> rest[0].is_first,
    ensures
        reassemble(chunk_rows(line, w, ll, off, first) + rest) == line + (if rest.len() > 0 {
            seq!['\n'] + reassemble(rest)
        } else {
            Seq::<char>::empty()
        }),
    decreases line.len(),
{
    if w < 1 || line.len() <= w {
        let row = RowView { text: line, logical_line: ll, is_first: first, start_pos: off };
        let rows = seq![row] + rest;
        assert(rows[0] == row);
        assert(rows.drop_first() =~= rest);
        if rest.len() > 0 {
            assert(rows[1] == rest[0]);
            assert(reassemble(rows) =~= line + (seq!['\n'] + reassemble(rest)));
        } else {
            assert(rows.len() == 1);
            assert(reassemble(rows.drop_first()) =~= Seq::<char>::empty());
            assert(reassemble(rows) =~= line);
        }
    } else {
        let row = RowView { text: line.take(w), logical_line: ll, is_first: first, start_pos: off };
        let chunk_rest = chunk_rows(line.skip(w), w, ll, off + w, false);
        lemma_chunk_rows_first(line.skip(w), w, ll, off + w, false);
        let rows = seq![row] + chunk_rest + rest;
        assert(chunk_rows(line, w, ll, off, first) + rest =~= rows);
        assert(rows[0] == row);
        assert(rows[1] == chunk_rest[0]);
        assert(!rows[1].is_first);
        assert(rows.drop_first() =~= chunk_rest + rest);
        lemma_reassemble_chunks(line.skip(w), w, ll, off + w, false, rest);
        if rest.len() > 0 {
            assert(reassemble(rows) =~= line.take(w) + (line.skip(w) + (seq!['\n']
                + reassemble(rest))));
            assert(line.take(w) + (line.skip(w) + (seq!['\n'] + reassemble(rest))) =~= line + (seq![
                '\n',
            ] + reassemble(rest)));
        } else {
            assert(reassemble(rows) =~= line.take(w) + line.skip(w));
            assert(line.take(w) + line.skip(w) =~= line);
        }
    }
}

/// The wrapped layout of a buffer suffix is nonempty and starts with a row
/// that opens a logical line.
proof fn lemma_wrap_from_first(t: Seq<char>, w: int, i: int, ll: int)
    requires
        0 <= i <= t.len(),
    ensures
        wrap_from(t, w, i, ll).len() >= 1,
        wrap_from(t, w, i, ll)[0].is_first,
{
    lemma_line_end_from(t, i);
    let e = line_end_from(t, i);
    let line = t.subrange(i, e);
    lemma_chunk_rows_first(line, w, ll, i, true);
    if e < t.len() {
        assert((chunk_rows(line, w, ll, i, true) + wrap_from(t, w, e + 1, ll + 1))[0] == chunk_rows(
            line,
            w,
            ll,
            i,
            true,
        )[0]);
    }
}

/// Reassembling the wrapped layout of a buffer suffix yields that suffix.
proof fn lemma_wrap_from_reassemble(t: Seq<char>, w: int, i: int, ll: int)
    requires
        0 <= i <= t.len(),
    ensures
        reassemble(wrap_from(t, w, i, ll)) == t.subrange(i, t.len() as int),
    decreases t.len() - i,
{
    lemma_line_end_from(t, i);
    let e = line_end_from(t, i);
    let line = t.subrange(i, e);
    let rows = chunk_rows(line, w, ll, i, true);
    if e >= t.len() {
        assert(rows + Seq::<RowView>::empty() =~= rows);
        lemma_reassemble_chunks(line, w, ll, i, true, Seq::<RowView>::empty());
        assert(line + Seq::<char>::empty() =~= line);
    } else {
        let rest = wrap_from(t, w, e + 1, ll + 1);
        lemma_wrap_from_first(t, w, e + 1, ll + 1);
        lemma_reassemble_chunks(line, w, ll, i, true, rest);
        lemma_wrap_from_reassemble(t, w, e + 1, ll + 1);
        assert(t[e] == '\n');
        assert(line + (seq!['\n'] + t.subrange(e + 1, t.len() as int)) =~= t.subrange(
            i,
            t.len() as int,
        ));
    }
}

/// Wrapping loses nothing: for any width, the rows of the wrapped layout,
/// joined in order with a newline between logical lines, give back the
/// buffer exactly.
pub proof fn lemma_wrap_reassemble(t: Seq<char>, width: int, prefix_width: int)
    ensures
        reassemble(wrap_spec(t, width, prefix_width)) == t,
{
    lemma_wrap_from_reassemble(t, effective_width(width, prefix_width), 0, 0);
    assert(t.subrange(0, t.len() as int) =~= t);
}

} // verus!
