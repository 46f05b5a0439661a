//! Line and column arithmetic for the multi-line input buffer.
//!
//! A buffer is a sequence of characters; logical lines are the maximal runs
//! between `'\n'` separators. Positions are character indices in
//! `[0, len]`, so every position is a valid insertion point.

use vstd::prelude::*;
use crate::strutil::chars_of;

verus! {

/// The logical line that position `p` lies on: the number of newline
/// characters strictly before `p`.
pub open spec fn line_idx(t: Seq<char>, p: int) -> int
    decreases p,
{
    if p <= 0 {
        0
    } else if t[p - 1] == '\n' {
        line_idx(t, p - 1) + 1
    } else {
        line_idx(t, p - 1)
    }
}

/// The column of position `p`: its distance back to the start of its
/// logical line.
pub open spec fn col_idx(t: Seq<char>, p: int) -> int
    decreases p,
{
    if p <= 0 {
        0
    } else if t[p - 1] == '\n' {
        0
    } else {
        col_idx(t, p - 1) + 1
    }
}

/// The number of newline characters in the whole buffer.
pub open spec fn newline_count(t: Seq<char>) -> int {
    line_idx(t, t.len() as int)
}

/// The position of the first newline at or after `i`, or the buffer end.
pub open spec fn line_end_from(t: Seq<char>, i: int) -> int
    decreases t.len() - i,
    when 0 <= i <= t.len()
{
    if i >= t.len() {
        t.len() as int
    } else if t[i] == '\n' {
        i
    } else {
        line_end_from(t, i + 1)
    }
}

/// The position where logical line `l` starts: 0 for the first line, one
/// past the previous line's terminating newline for the others.
pub open spec fn line_start(t: Seq<char>, l: int) -> int
    decreases l,
{
    if l <= 0 {
        0
    } else {
        let prev = line_start(t, l - 1);
        if 0 <= prev <= t.len() {
            line_end_from(t, prev) + 1
        } else {
            t.len() as int + 1
        }
    }
}

/// The position that (`line`, `col`) resolves to: the start of `line` plus
/// `col`, clamped to the line's length; the buffer end when `line` is past
/// the last line.
pub open spec fn cursor_of(t: Seq<char>, line: int, col: int) -> int {
    if line > newline_count(t) {
        t.len() as int
    } else {
        let s = line_start(t, line);
        let e = line_end_from(t, s);
        if col <= e - s {
            s + col
        } else {
            e
        }
    }
}

/// Line and column indices never exceed the position they are taken at.
pub proof fn lemma_line_col_bounds(t: Seq<char>, p: int)
    requires
        0 <= p,
    ensures
        0 <= line_idx(t, p) <= p,
        0 <= col_idx(t, p) <= p,
    decreases p,
{
    if p > 0 {
        lemma_line_col_bounds(t, p - 1);
    }
}

/// The line index is monotonic in the position.
pub proof fn lemma_line_idx_monotonic(t: Seq<char>, p: int, q: int)
    requires
        0 <= p <= q,
    ensures
        line_idx(t, p) <= line_idx(t, q),
    decreases q,
{
    if p < q {
        lemma_line_idx_monotonic(t, p, q - 1);
    }
}

/// `line_end_from` stays within the buffer and marks the first newline at
/// or after its argument.
pub proof fn lemma_line_end_from(t: Seq<char>, i: int)
    requires
        0 <= i <= t.len(),
    ensures
        i <= line_end_from(t, i) <= t.len(),
        forall|j: int| i <= j < line_end_from(t, i) ==> t[j] != '\n',
        line_end_from(t, i) < t.len() ==> t[line_end_from(t, i)] == '\n',
    decreases t.len() - i,
{
    if i < t.len() && t[i] != '\n' {
        lemma_line_end_from(t, i + 1);
    }
}

/// Scanning for the line end may start anywhere before the first newline.
pub proof fn lemma_line_end_from_skip(t: Seq<char>, i: int, k: int)
    requires
        0 <= i <= k <= t.len(),
        forall|j: int| i <= j < k ==> t[j] != '\n',
    ensures
        line_end_from(t, i) == line_end_from(t, k),
    decreases k - i,
{
    if i < k {
        lemma_line_end_from_skip(t, i + 1, k);
    }
}

/// The start of the line that `p` lies on is `p` minus its column, and no
/// newline lies between that start and `p`.
pub proof fn lemma_line_start_of(t: Seq<char>, p: int)
    requires
        0 <= p <= t.len(),
    ensures
        line_start(t, line_idx(t, p)) == p - col_idx(t, p),
        forall|j: int| p - col_idx(t, p) <= j < p ==> t[j] != '\n',
    decreases p,
{
    lemma_line_col_bounds(t, p);
    if p > 0 {
        lemma_line_start_of(t, p - 1);
        lemma_line_col_bounds(t, p - 1);
        if t[p - 1] == '\n' {
            let l = line_idx(t, p - 1);
            let s = line_start(t, l);
            assert(s == p - 1 - col_idx(t, p - 1));
            lemma_line_end_from_skip(t, s, p - 1);
            assert(line_end_from(t, p - 1) == p - 1);
            assert(line_start(t, l + 1) == p);
        }
    }
}

/// Round trip: the (line, column) pair of a position resolves back to that
/// same position.
pub proof fn lemma_line_col_round_trip(t: Seq<char>, p: int)
    requires
        0 <= p <= t.len(),
    ensures
        cursor_of(t, line_idx(t, p), col_idx(t, p)) == p,
{
    let l = line_idx(t, p);
    let c = col_idx(t, p);
    lemma_line_col_bounds(t, p);
    lemma_line_idx_monotonic(t, p, t.len() as int);
    lemma_line_start_of(t, p);
    let s = line_start(t, l);
    lemma_line_end_from_skip(t, s, p);
    lemma_line_end_from(t, p);
}

/// The number of logical lines in the buffer: one more than the number of
/// newline separators, so the empty buffer has one (empty) line.
pub fn count_lines(text: &str) -> (r: usize)
    requires
        text@.len() < usize::MAX,
    ensures
        r == newline_count(text@) + 1,
{
    let cs = chars_of(text);
    let n = cs.len();
    let mut count: usize = 0;
    let mut i: usize = 0;
    while i < n
        invariant
            i <= n,
            n == text@.len() < usize::MAX,
            cs@ == text@,
            count == line_idx(text@, i as int),
        decreases n - i,
    {
        proof {
            lemma_line_col_bounds(text@, i + 1);
        }
        if cs[i] == '\n' {
            count += 1;
        }
        i += 1;
    }
    proof {
        lemma_line_col_bounds(text@, text@.len() as int);
    }
    count + 1
}

/// The (line, column) pair of position `pos` in the buffer.
pub fn cursor_to_line_col(text: &str, pos: usize) -> (r: (usize, usize))
    requires
        pos <= text@.len(),
    ensures
        r.0 == line_idx(text@, pos as int),
        r.1 == col_idx(text@, pos as int),
{
    let cs = chars_of(text);
    let mut line: usize = 0;
    let mut col: usize = 0;
    let mut i: usize = 0;
    while i < pos
        invariant
            i <= pos,
            pos <= text@.len(),
            cs@ == text@,
            line == line_idx(text@, i as int),
            col == col_idx(text@, i as int),
        decreases pos - i,
    {
        proof {
            lemma_line_col_bounds(text@, i + 1);
        }
        if cs[i] == '\n' {
            line += 1;
            col = 0;
        } else {
            col += 1;
        }
        i += 1;
    }
    (line, col)
}

/// The position that (`target_line`, `target_col`) resolves to: the column
/// is clamped to the line's length, and a line past the end of the buffer
/// resolves to the buffer end.
pub fn line_col_to_cursor(text: &str, target_line: usize, target_col: usize) -> (r: usize)
    ensures
        r == cursor_of(text@, target_line as int, target_col as int),
        r <= text@.len(),
{
    let ghost t = text@;
    let cs = chars_of(text);
    let n = cs.len();
    let mut i: usize = 0;
    let mut l: usize = 0;
    while i < n && l < target_line
        invariant
            0 <= i <= n,
            n == t.len(),
            cs@ == t,
            l <= target_line,
            l == line_idx(t, i as int),
            l == target_line ==> i == line_start(t, l as int),
            l < target_line ==> col_idx(t, i as int) == i - line_start(t, l as int),
            l < target_line ==> line_start(t, l as int) <= i,
        decreases n - i,
    {
        proof {
            lemma_line_col_bounds(t, i + 1);
            lemma_line_start_of(t, i + 1);
        }
        if cs[i] == '\n' {
            l += 1;
        }
        i += 1;
    }
    if l < target_line {
        // the buffer ran out before the target line: it is past the last line
        proof {
            lemma_line_idx_monotonic(t, 0, t.len() as int);
            assert(newline_count(t) == line_idx(t, n as int) == l < target_line);
        }
        return n;
    }
    // i is the start of the target line; scan to its end
    proof {
        lemma_line_idx_monotonic(t, i as int, t.len() as int);
        lemma_line_end_from(t, i as int);
    }
    let mut e: usize = i;
    while e < n && cs[e] != '\n'
        invariant
            i <= e <= n,
            n == t.len(),
            cs@ == t,
            line_end_from(t, i as int) == line_end_from(t, e as int),
        decreases n - e,
    {
        e += 1;
    }
    proof {
        lemma_line_end_from(t, e as int);
        assert(line_end_from(t, e as int) == e);
    }
    if target_col <= e - i {
        i + target_col
    } else {
        e
    }
}

/// The length in characters of logical line `line_no`, or 0 when the buffer
/// has no such line.
pub fn get_line_length(text: &str, line_no: usize) -> (r: usize)
    ensures
        r == if line_no <= newline_count(text@) {
            line_end_from(text@, line_start(text@, line_no as int)) - line_start(
                text@,
                line_no as int,
            )
        } else {
            0
        },
{
    let ghost t = text@;
    let cs = chars_of(text);
    let n = cs.len();
    let mut i: usize = 0;
    let mut l: usize = 0;
    while i < n && l < line_no
        invariant
            0 <= i <= n,
            n == t.len(),
            cs@ == t,
            l <= line_no,
            l == line_idx(t, i as int),
            l == line_no ==> i == line_start(t, l as int),
            l < line_no ==> col_idx(t, i as int) == i - line_start(t, l as int),
            l < line_no ==> line_start(t, l as int) <= i,
        decreases n - i,
    {
        proof {
            lemma_line_col_bounds(t, i + 1);
            lemma_line_start_of(t, i + 1);
        }
        if cs[i] == '\n' {
            l += 1;
        }
        i += 1;
    }
    if l < line_no {
        proof {
            lemma_line_idx_monotonic(t, 0, t.len() as int);
            assert(newline_count(t) == line_idx(t, n as int) == l < line_no);
        }
        return 0;
    }
    proof {
        lemma_line_idx_monotonic(t, i as int, t.len() as int);
        lemma_line_end_from(t, i as int);
    }
    let mut e: usize = i;
    while e < n && cs[e] != '\n'
        invariant
            i <= e <= n,
            n == t.len(),
            cs@ == t,
            line_end_from(t, i as int) == line_end_from(t, e as int),
        decreases n - e,
    {
        e += 1;
    }
    proof {
        lemma_line_end_from(t, e as int);
    }
    e - i
}

} // verus!
