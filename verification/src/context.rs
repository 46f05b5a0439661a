//! Editor context: the file, cursor and selection the editor was invoked
//! with, and the expansion of `@`-placeholders in prompt text.
//!
//! The surrounding program reads the selection payload file and collects
//! the command-line values; this module only formats and substitutes.

use vstd::prelude::*;
use crate::strutil::{chars_of, push_range, string_from_chars};
use vstd::string::StringExecFns;
use crate::digits::{dec_digits, u32_to_string};

verus! {

/// Editor context captured at invocation.
#[derive(Debug, Clone, Default)]
pub struct Context {
    /// Current file path.
    pub file: Option<String>,
    /// Cursor line (1-based).
    pub line: Option<u32>,
    /// Cursor column (1-based).
    pub column: Option<u32>,
    /// Selection text content.
    pub selection: Option<String>,
    /// Selection start line (1-based).
    pub selection_start: Option<u32>,
    /// Selection end line (1-based).
    pub selection_end: Option<u32>,
    /// File language.
    pub language: Option<String>,
}

/// The mathematical image of a [`Context`].
pub struct ContextView {
    pub file: Option<Seq<char>>,
    pub line: Option<u32>,
    pub column: Option<u32>,
    pub selection: Option<Seq<char>>,
    pub selection_start: Option<u32>,
    pub selection_end: Option<u32>,
    pub language: Option<Seq<char>>,
}

impl View for Context {
    type V = ContextView;

    open spec fn view(&self) -> ContextView {
        ContextView {
            file: match self.file {
                Some(f) => Some(f@),
                None => None,
            },
            line: self.line,
            column: self.column,
            selection: match self.selection {
                Some(s) => Some(s@),
                None => None,
            },
            selection_start: self.selection_start,
            selection_end: self.selection_end,
            language: match self.language {
                Some(l) => Some(l@),
                None => None,
            },
        }
    }
}

/// The file reference: `@` followed by the path.
pub open spec fn file_ref_spec(file: Seq<char>) -> Seq<char> {
    seq!['@'] + file
}

/// The location reference: the selection range when one is present, else
/// the cursor line (with the column when known), else just the file.
pub open spec fn location_spec(c: ContextView) -> Option<Seq<char>> {
    match c.file {
        None => None,
        Some(file) => Some(
            if c.selection_start is Some && c.selection_end is Some {
                file_ref_spec(file) + seq![' ', 'L'] + dec_digits(
                    c.selection_start->0 as int,
                ) + seq!['-', 'L'] + dec_digits(c.selection_end->0 as int)
            } else if c.line is Some {
                if c.column is Some {
                    file_ref_spec(file) + seq![' ', 'L'] + dec_digits(c.line->0 as int) + seq![
                        ':',
                        'C',
                    ] + dec_digits(c.column->0 as int)
                } else {
                    file_ref_spec(file) + seq![' ', 'L'] + dec_digits(c.line->0 as int)
                }
            } else {
                file_ref_spec(file)
            },
        ),
    }
}

/// The selection block: the location reference followed by the selection
/// text in a fenced block.
pub open spec fn selection_spec(c: ContextView) -> Option<Seq<char>> {
    match (c.selection, location_spec(c)) {
        (Some(sel), Some(loc)) => Some(
            loc + seq!['\n', '`', '`', '`', '\n'] + sel + seq!['\n', '`', '`', '`'],
        ),
        _ => None,
    }
}

/// The placeholder pairs the context can resolve, in display order:
/// `@this`, `@buffer`, `@selection`, each present only when defined.
pub open spec fn placeholders_spec(c: ContextView) -> Seq<(Seq<char>, Seq<char>)> {
    (match location_spec(c) {
        Some(l) => seq![("@this"@, l)],
        None => Seq::<(Seq<char>, Seq<char>)>::empty(),
    }) + (match c.file {
        Some(f) => seq![("@buffer"@, file_ref_spec(f))],
        None => Seq::<(Seq<char>, Seq<char>)>::empty(),
    }) + (match selection_spec(c) {
        Some(s) => seq![("@selection"@, s)],
        None => Seq::<(Seq<char>, Seq<char>)>::empty(),
    })
}

/// `s` with every occurrence of `pat` replaced by `sub`, scanning left to
/// right without overlap.
pub open spec fn replaced(s: Seq<char>, pat: Seq<char>, sub: Seq<char>) -> Seq<char>
    decreases s.len(),
    when pat.len() > 0
{
    if s.len() < pat.len() {
        s
    } else if s.take(pat.len() as int) == pat {
        sub + replaced(s.skip(pat.len() as int), pat, sub)
    } else {
        seq![s[0]] + replaced(s.drop_first(), pat, sub)
    }
}

/// The prompt after placeholder expansion: `@this` becomes the location
/// reference, `@buffer` the file reference, and `@selection` the fenced
/// selection block — each only when the context provides it.
pub open spec fn expand_spec(c: ContextView, prompt: Seq<char>) -> Seq<char> {
    let r1 = match location_spec(c) {
        Some(this) => replaced(prompt, "@this"@, this),
        None => prompt,
    };
    let r2 = match c.file {
        Some(file) => replaced(r1, "@buffer"@, file_ref_spec(file)),
        None => r1,
    };
    match selection_spec(c) {
        Some(sel) => replaced(r2, "@selection"@, sel),
        None => r2,
    }
}

/// Whether the window of `cs` at `i` equals `pat`.
fn window_eq(cs: &Vec<char>, i: usize, pat: &Vec<char>) -> (b: bool)
    requires
        i <= cs@.len(),
    ensures
        b == (i + pat@.len() <= cs@.len() && cs@.subrange(i as int, i + pat@.len()) == pat@),
{
    let m = pat.len();
    if cs.len() - i < m {
        return false;
    }
    let mut j: usize = 0;
    while j < m
        invariant
            j <= m,
            i + m <= cs@.len() <= usize::MAX,
            m == pat@.len(),
            forall|j2: int| 0 <= j2 < j ==> cs@[i + j2] == pat@[j2],
        decreases m - j,
    {
        if cs[i + j] != pat[j] {
            proof {
                let jj = j as int;
                assert(cs@.subrange(i as int, i + pat@.len())[jj] != pat@[jj]);
            }
            return false;
        }
        j += 1;
    }
    proof {
        assert(cs@.subrange(i as int, i + pat@.len()) =~= pat@);
    }
    true
}

/// `s` with every occurrence of `pat` replaced by `sub`.
pub fn replace_all(s: &str, pat: &str, sub: &str) -> (r: String)
    requires
        pat@.len() > 0,
    ensures
        r@ == replaced(s@, pat@, sub@),
{
    let cs = chars_of(s);
    let ps = chars_of(pat);
    let ss = chars_of(sub);
    let n = cs.len();
    let m = ps.len();
    let mut out: Vec<char> = Vec::new();
    let mut i: usize = 0;
    proof {
        assert(s@.skip(0) =~= s@);
        assert(Seq::<char>::empty() + replaced(s@, pat@, sub@) =~= replaced(s@, pat@, sub@));
    }
    while i < n
        invariant
            i <= n,
            n == s@.len(),
            m == pat@.len() > 0,
            cs@ == s@,
            ps@ == pat@,
            ss@ == sub@,
            replaced(s@, pat@, sub@) == out@ + replaced(s@.skip(i as int), pat@, sub@),
        decreases n - i,
    {
        let ghost rest = s@.skip(i as int);
        if window_eq(&cs, i, &ps) {
            proof {
                assert(rest.take(pat@.len() as int) =~= s@.subrange(i as int, i + pat@.len()));
                assert(rest.skip(pat@.len() as int) =~= s@.skip(i + pat@.len()));
            }
            push_range(&mut out, &ss, 0, ss.len());
            proof {
                assert(ss@.subrange(0, ss@.len() as int) =~= ss@);
            }
            i = i + m;
        } else {
            proof {
                assert(rest.len() >= pat@.len() ==> rest.take(pat@.len() as int) =~= s@.subrange(
                    i as int,
                    i + pat@.len(),
                ));
                assert(rest[0] == s@[i as int]);
                assert(rest.drop_first() =~= s@.skip(i + 1));
            }
            out.push(cs[i]);
            i = i + 1;
        }
    }
    proof {
        assert(s@.skip(n as int) =~= Seq::<char>::empty());
    }
    string_from_chars(&out)
}

impl Context {
    /// The `@path` reference for the context's file, when one is set.
    pub fn format_file(&self) -> (r: Option<String>)
        ensures
            r is Some <==> self@.file is Some,
            r matches Some(s) ==> s@ == file_ref_spec(self@.file->0),
    {
        match &self.file {
            Some(f) => {
                proof {
                    reveal_strlit("@");
                }
                let mut s = String::new();
                s.append("@");
                s.append(f.as_str());
                proof {
                    assert(s@ =~= file_ref_spec(self@.file->0));
                }
                Some(s)
            },
            None => None,
        }
    }

    /// The location reference for the context: `@file L10-L20` for a
    /// selection range, `@file L42:C10` or `@file L42` for a cursor, and
    /// `@file` when only the file is known. `None` without a file.
    pub fn format_location(&self) -> (r: Option<String>)
        ensures
            r is Some <==> self@.file is Some,
            r matches Some(s) ==> Some(s@) == location_spec(self@),
    {
        let file = match &self.file {
            Some(f) => f,
            None => {
                return None;
            },
        };
        proof {
            reveal_strlit("@");
            reveal_strlit(" L");
            reveal_strlit("-L");
            reveal_strlit(":C");
        }
        let mut s = String::new();
        s.append("@");
        s.append(file.as_str());
        if self.selection_start.is_some() && self.selection_end.is_some() {
            let start = match self.selection_start {
                Some(v) => v,
                None => 0,
            };
            let end = match self.selection_end {
                Some(v) => v,
                None => 0,
            };
            s.append(" L");
            s.append(u32_to_string(start).as_str());
            s.append("-L");
            s.append(u32_to_string(end).as_str());
            proof {
                assert(s@ =~= location_spec(self@)->0);
            }
            return Some(s);
        }
        if let Some(line) = self.line {
            s.append(" L");
            s.append(u32_to_string(line).as_str());
            if let Some(col) = self.column {
                s.append(":C");
                s.append(u32_to_string(col).as_str());
            }
            proof {
                assert(s@ =~= location_spec(self@)->0);
            }
            return Some(s);
        }
        proof {
            assert(s@ =~= location_spec(self@)->0);
        }
        Some(s)
    }

    /// The `@this` replacement: the location reference.
    pub fn format_this(&self) -> (r: Option<String>)
        ensures
            r is Some <==> self@.file is Some,
            r matches Some(s) ==> Some(s@) == location_spec(self@),
    {
        self.format_location()
    }

    /// The `@buffer` replacement: the file reference.
    pub fn format_buffer(&self) -> (r: Option<String>)
        ensures
            r is Some <==> self@.file is Some,
            r matches Some(s) ==> s@ == file_ref_spec(self@.file->0),
    {
        self.format_file()
    }

    /// The `@selection` replacement: the location reference followed by
    /// the selection text in a fenced block. `None` without selection
    /// text or without a file.
    pub fn format_selection(&self) -> (r: Option<String>)
        ensures
            r is Some <==> (self@.selection is Some && self@.file is Some),
            r matches Some(s) ==> Some(s@) == selection_spec(self@),
    {
        let sel = match &self.selection {
            Some(s) => s,
            None => {
                return None;
            },
        };
        let loc = match self.format_location() {
            Some(l) => l,
            None => {
                return None;
            },
        };
        proof {
            reveal_strlit("\n```\n");
            reveal_strlit("\n```");
        }
        let mut s = loc;
        s.append("\n```\n");
        s.append(sel.as_str());
        s.append("\n```");
        proof {
            assert(s@ =~= selection_spec(self@)->0);
        }
        Some(s)
    }

    /// Expand the context placeholders in a prompt: `@this`, `@buffer`
    /// and `@selection` are each replaced when the context provides them,
    /// and left as they stand otherwise.
    pub fn expand(&self, prompt: &str) -> (r: String)
        ensures
            r@ == expand_spec(self@, prompt@),
    {
        proof {
            reveal_strlit("@this");
            reveal_strlit("@buffer");
            reveal_strlit("@selection");
        }
        let mut result = prompt.to_owned();
        if let Some(this) = self.format_this() {
            result = replace_all(result.as_str(), "@this", this.as_str());
        }
        if let Some(buffer) = self.format_buffer() {
            result = replace_all(result.as_str(), "@buffer", buffer.as_str());
        }
        if let Some(selection) = self.format_selection() {
            result = replace_all(result.as_str(), "@selection", selection.as_str());
        }
        result
    }

    /// The placeholder pairs offered to the input dialog: each
    /// replacement name the context can resolve, with its value, in a
    /// fixed order.
    pub fn list_placeholders(&self) -> (r: Vec<(String, String)>)
        ensures
            r@.map_values(|p: (String, String)| (p.0@, p.1@)) == placeholders_spec(self@),
    {
        let mut r: Vec<(String, String)> = Vec::new();
        if let Some(this) = self.format_this() {
            r.push(("@this".to_owned(), this));
        }
        if let Some(buffer) = self.format_buffer() {
            r.push(("@buffer".to_owned(), buffer));
        }
        if let Some(selection) = self.format_selection() {
            r.push(("@selection".to_owned(), selection));
        }
        proof {
            assert(r@.map_values(|p: (String, String)| (p.0@, p.1@)) =~~= placeholders_spec(
                self@,
            ));
        }
        r
    }

    /// Whether the context carries a file.
    pub fn has_file(&self) -> (r: bool)
        ensures
            r == (self@.file is Some),
    {
        self.file.is_some()
    }

    /// Whether the context carries a selection.
    pub fn has_selection(&self) -> (r: bool)
        ensures
            r == (self@.selection is Some || self@.selection_start is Some),
    {
        self.selection.is_some() || self.selection_start.is_some()
    }
}

} // verus!
