//! The command-line grammar of the bridge.
//!
//! The surrounding program hands the raw argument strings in; this module
//! parses them. The grammar: option flags may appear anywhere after the
//! program name — `-p`/`--port` (a port number), `-f`/`--file`,
//! `-l`/`--line`, `-c`/`--column`, `--selection-file`,
//! `--selection-start`, `--selection-end`, `--cwd`, `--language` and
//! `--theme` each take the following argument as their value, while
//! `--debug` and `--no-anim` stand alone. The first bare word names the
//! command: `ask` with an optional initial text, `select`, `prompt` with
//! a required text (and `-s`/`--submit` allowed), or `status`. Anything
//! else — an unknown flag, a missing value, an unparsable number, a
//! second positional, a missing command — rejects the whole line.

use vstd::prelude::*;
use crate::digits::{parsed_u16, parsed_u32, parse_u16, parse_u32};
use crate::strutil::{chars_of, str_eq};

verus! {

/// The command the bridge was asked to run.
#[derive(Debug)]
pub enum Command {
    /// Open the input dialog, pre-filled with `initial`.
    Ask { initial: String },
    /// Open the selection menu.
    Select,
    /// Send a prompt without a dialog.
    Prompt { text: String, submit: bool },
    /// Report the discovered server.
    Status,
}

/// The mathematical image of a [`Command`].
pub enum CmdView {
    Ask { initial: Seq<char> },
    Select,
    Prompt { text: Seq<char>, submit: bool },
    Status,
}

impl View for Command {
    type V = CmdView;

    open spec fn view(&self) -> CmdView {
        match self {
            Command::Ask { initial } => CmdView::Ask { initial: initial@ },
            Command::Select => CmdView::Select,
            Command::Prompt { text, submit } => CmdView::Prompt { text: text@, submit: *submit },
            Command::Status => CmdView::Status,
        }
    }
}

/// Parsed command-line arguments.
#[derive(Debug)]
pub struct Cli {
    /// Connect to a specific port, skipping discovery.
    pub port: Option<u16>,
    /// Current file path.
    pub file: Option<String>,
    /// Cursor line (1-based).
    pub line: Option<u32>,
    /// Cursor column (1-based).
    pub column: Option<u32>,
    /// Path to a file holding the selection text.
    pub selection_file: Option<String>,
    /// Selection start line (1-based).
    pub selection_start: Option<u32>,
    /// Selection end line (1-based).
    pub selection_end: Option<u32>,
    /// Working directory for server discovery.
    pub cwd: Option<String>,
    /// File language.
    pub language: Option<String>,
    /// Whether debug logging is on.
    pub debug: bool,
    /// UI theme name.
    pub theme: String,
    /// Whether animations are off.
    pub no_anim: bool,
    /// The command to run.
    pub command: Command,
}

/// The mathematical image of a [`Cli`].
pub struct CliView {
    pub port: Option<u16>,
    pub file: Option<Seq<char>>,
    pub line: Option<u32>,
    pub column: Option<u32>,
    pub selection_file: Option<Seq<char>>,
    pub selection_start: Option<u32>,
    pub selection_end: Option<u32>,
    pub cwd: Option<Seq<char>>,
    pub language: Option<Seq<char>>,
    pub debug: bool,
    pub theme: Seq<char>,
    pub no_anim: bool,
    pub command: CmdView,
}

impl View for Cli {
    type V = CliView;

    open spec fn view(&self) -> CliView {
        CliView {
            port: self.port,
            file: match self.file {
                Some(f) => Some(f@),
                None => None,
            },
            line: self.line,
            column: self.column,
            selection_file: match self.selection_file {
                Some(f) => Some(f@),
                None => None,
            },
            selection_start: self.selection_start,
            selection_end: self.selection_end,
            cwd: match self.cwd {
                Some(c) => Some(c@),
                None => None,
            },
            language: match self.language {
                Some(l) => Some(l@),
                None => None,
            },
            debug: self.debug,
            theme: self.theme@,
            no_anim: self.no_anim,
            command: self.command@,
        }
    }
}

/// Which command word has been seen.
#[derive(Debug, Clone, Copy, PartialEq, Eq, Structural)]
pub enum CmdKind {
    Ask,
    Select,
    Prompt,
    Status,
}

/// The values gathered while scanning the arguments.
struct Acc {
    port: Option<u16>,
    file: Option<String>,
    line: Option<u32>,
    column: Option<u32>,
    selection_file: Option<String>,
    selection_start: Option<u32>,
    selection_end: Option<u32>,
    cwd: Option<String>,
    language: Option<String>,
    debug: bool,
    theme: Option<String>,
    no_anim: bool,
    cmd: Option<CmdKind>,
    arg: Option<String>,
    submit: bool,
}

/// The mathematical image of an [`Acc`].
pub struct AccView {
    pub port: Option<u16>,
    pub file: Option<Seq<char>>,
    pub line: Option<u32>,
    pub column: Option<u32>,
    pub selection_file: Option<Seq<char>>,
    pub selection_start: Option<u32>,
    pub selection_end: Option<u32>,
    pub cwd: Option<Seq<char>>,
    pub language: Option<Seq<char>>,
    pub debug: bool,
    pub theme: Option<Seq<char>>,
    pub no_anim: bool,
    pub cmd: Option<CmdKind>,
    pub arg: Option<Seq<char>>,
    pub submit: bool,
}

impl View for Acc {
    type V = AccView;

    closed spec fn view(&self) -> AccView {
        AccView {
            port: self.port,
            file: match self.file {
                Some(f) => Some(f@),
                None => None,
            },
            line: self.line,
            column: self.column,
            selection_file: match self.selection_file {
                Some(f) => Some(f@),
                None => None,
            },
            selection_start: self.selection_start,
            selection_end: self.selection_end,
            cwd: match self.cwd {
                Some(c) => Some(c@),
                None => None,
            },
            language: match self.language {
                Some(l) => Some(l@),
                None => None,
            },
            debug: self.debug,
            theme: match self.theme {
                Some(t) => Some(t@),
                None => None,
            },
            no_anim: self.no_anim,
            cmd: self.cmd,
            arg: match self.arg {
                Some(a) => Some(a@),
                None => None,
            },
            submit: self.submit,
        }
    }
}

/// Nothing gathered yet; submission defaults on.
pub open spec fn init_acc() -> AccView {
    AccView {
        port: None,
        file: None,
        line: None,
        column: None,
        selection_file: None,
        selection_start: None,
        selection_end: None,
        cwd: None,
        language: None,
        debug: false,
        theme: None,
        no_anim: false,
        cmd: None,
        arg: None,
        submit: true,
    }
}

/// Scan the remaining tokens into the accumulator, or reject the line.
pub open spec fn parse_rest(toks: Seq<Seq<char>>, acc: AccView) -> Option<AccView>
    decreases toks.len(),
{
    if toks.len() == 0 {
        Some(acc)
    } else {
        let t = toks[0];
        let rest = toks.drop_first();
        if t == "-p"@ || t == "--port"@ {
            if toks.len() >= 2 && parsed_u16(toks[1]) is Some {
                parse_rest(toks.skip(2), AccView { port: parsed_u16(toks[1]), ..acc })
            } else {
                None
            }
        } else if t == "-f"@ || t == "--file"@ {
            if toks.len() >= 2 {
                parse_rest(toks.skip(2), AccView { file: Some(toks[1]), ..acc })
            } else {
                None
            }
        } else if t == "-l"@ || t == "--line"@ {
            if toks.len() >= 2 && parsed_u32(toks[1]) is Some {
                parse_rest(toks.skip(2), AccView { line: parsed_u32(toks[1]), ..acc })
            } else {
                None
            }
        } else if t == "-c"@ || t == "--column"@ {
            if toks.len() >= 2 && parsed_u32(toks[1]) is Some {
                parse_rest(toks.skip(2), AccView { column: parsed_u32(toks[1]), ..acc })
            } else {
                None
            }
        } else if t == "--selection-file"@ {
            if toks.len() >= 2 {
                parse_rest(toks.skip(2), AccView { selection_file: Some(toks[1]), ..acc })
            } else {
                None
            }
        } else if t == "--selection-start"@ {
            if toks.len() >= 2 && parsed_u32(toks[1]) is Some {
                parse_rest(toks.skip(2), AccView { selection_start: parsed_u32(toks[1]), ..acc })
            } else {
                None
            }
        } else if t == "--selection-end"@ {
            if toks.len() >= 2 && parsed_u32(toks[1]) is Some {
                parse_rest(toks.skip(2), AccView { selection_end: parsed_u32(toks[1]), ..acc })
            } else {
                None
            }
        } else if t == "--cwd"@ {
            if toks.len() >= 2 {
                parse_rest(toks.skip(2), AccView { cwd: Some(toks[1]), ..acc })
            } else {
                None
            }
        } else if t == "--language"@ {
            if toks.len() >= 2 {
                parse_rest(toks.skip(2), AccView { language: Some(toks[1]), ..acc })
            } else {
                None
            }
        } else if t == "--theme"@ {
            if toks.len() >= 2 {
                parse_rest(toks.skip(2), AccView { theme: Some(toks[1]), ..acc })
            } else {
                None
            }
        } else if t == "--debug"@ {
            parse_rest(rest, AccView { debug: true, ..acc })
        } else if t == "--no-anim"@ {
            parse_rest(rest, AccView { no_anim: true, ..acc })
        } else if t == "-s"@ || t == "--submit"@ {
            if acc.cmd == Some(CmdKind::Prompt) {
                parse_rest(rest, AccView { submit: true, ..acc })
            } else {
                None
            }
        } else if t.len() > 0 && t[0] == '-' {
            None
        } else {
            match acc.cmd {
                None => if t == "ask"@ {
                    parse_rest(rest, AccView { cmd: Some(CmdKind::Ask), ..acc })
                } else if t == "select"@ {
                    parse_rest(rest, AccView { cmd: Some(CmdKind::Select), ..acc })
                } else if t == "prompt"@ {
                    parse_rest(rest, AccView { cmd: Some(CmdKind::Prompt), ..acc })
                } else if t == "status"@ {
                    parse_rest(rest, AccView { cmd: Some(CmdKind::Status), ..acc })
                } else {
                    None
                },
                Some(k) => if acc.arg is None && (k == CmdKind::Ask || k == CmdKind::Prompt) {
                    parse_rest(rest, AccView { arg: Some(t), ..acc })
                } else {
                    None
                },
            }
        }
    }
}

/// The parsed line a gathered accumulator denotes, once the whole line
/// has been scanned.
pub open spec fn finish(acc: AccView) -> Option<CliView> {
    let theme = match acc.theme {
        Some(th) => th,
        None => "hacker"@,
    };
    let cmd = match acc.cmd {
        None => None,
        Some(CmdKind::Ask) => Some(
            CmdView::Ask {
                initial: match acc.arg {
                    Some(a) => a,
                    None => Seq::<char>::empty(),
                },
            },
        ),
        Some(CmdKind::Select) => Some(CmdView::Select),
        Some(CmdKind::Prompt) => match acc.arg {
            Some(tx) => Some(CmdView::Prompt { text: tx, submit: acc.submit }),
            None => None,
        },
        Some(CmdKind::Status) => Some(CmdView::Status),
    };
    match cmd {
        None => None,
        Some(c) => Some(
            CliView {
                port: acc.port,
                file: acc.file,
                line: acc.line,
                column: acc.column,
                selection_file: acc.selection_file,
                selection_start: acc.selection_start,
                selection_end: acc.selection_end,
                cwd: acc.cwd,
                language: acc.language,
                debug: acc.debug,
                theme,
                no_anim: acc.no_anim,
                command: c,
            },
        ),
    }
}

/// The views of the raw argument strings.
pub open spec fn arg_views(args: Seq<String>) -> Seq<Seq<char>> {
    args.map_values(|s: String| s@)
}

/// The parsed command line: the arguments after the program name are
/// scanned, and the line is rejected without a program name, without a
/// command word, or on any malformed token.
pub open spec fn parse_cli(args: Seq<Seq<char>>) -> Option<CliView> {
    if args.len() == 0 {
        None
    } else {
        match parse_rest(args.drop_first(), init_acc()) {
            None => None,
            Some(acc) => finish(acc),
        }
    }
}

impl Cli {
    /// Parse the raw argument strings (the program name first), returning
    /// `None` when the line does not follow the grammar.
    #[verifier::rlimit(100)]
    pub fn parse_args(args: &Vec<String>) -> (r: Option<Cli>)
        ensures
            match r {
                Some(c) => parse_cli(arg_views(args@)) == Some(c@),
                None => parse_cli(arg_views(args@)) is None,
            },
    {
        let ghost toks = arg_views(args@);
        let n = args.len();
        if n == 0 {
            return None;
        }
        let mut acc = Acc {
            port: None,
            file: None,
            line: None,
            column: None,
            selection_file: None,
            selection_start: None,
            selection_end: None,
            cwd: None,
            language: None,
            debug: false,
            theme: None,
            no_anim: false,
            cmd: None,
            arg: None,
            submit: true,
        };
        let mut i: usize = 1;
        proof {
            assert(toks.drop_first() =~= toks.skip(1));
        }
        while i < n
            invariant
                1 <= i <= n,
                n == args@.len(),
                toks == arg_views(args@),
                parse_rest(toks.skip(i as int), acc@) == parse_rest(toks.drop_first(), init_acc()),
            decreases n - i,
        {
            let ghost rem = toks.skip(i as int);
            proof {
                assert(rem[0] == args@[i as int]@);
                assert(rem.drop_first() =~= toks.skip(i + 1));
                if i + 1 < n {
                    assert(rem[1] == args@[i + 1]@);
                    assert(rem.skip(2) =~= toks.skip(i + 2));
                }
            }
            let t = args[i].as_str();
            if str_eq(t, "-p") || str_eq(t, "--port") {
                if i + 1 >= n {
                    return None;
                }
                let v = match parse_u16(&chars_of(args[i + 1].as_str())) {
                    Some(v) => v,
                    None => {
                        return None;
                    },
                };
                acc.port = Some(v);
                i = i + 2;
            } else if str_eq(t, "-f") || str_eq(t, "--file") {
                if i + 1 >= n {
                    return None;
                }
                acc.file = Some(args[i + 1].clone());
                i = i + 2;
            } else if str_eq(t, "-l") || str_eq(t, "--line") {
                if i + 1 >= n {
                    return None;
                }
                let v = match parse_u32(&chars_of(args[i + 1].as_str())) {
                    Some(v) => v,
                    None => {
                        return None;
                    },
                };
                acc.line = Some(v);
                i = i + 2;
            } else if str_eq(t, "-c") || str_eq(t, "--column") {
                if i + 1 >= n {
                    return None;
                }
                let v = match parse_u32(&chars_of(args[i + 1].as_str())) {
                    Some(v) => v,
                    None => {
                        return None;
                    },
                };
                acc.column = Some(v);
                i = i + 2;
            } else if str_eq(t, "--selection-file") {
                if i + 1 >= n {
                    return None;
                }
                acc.selection_file = Some(args[i + 1].clone());
                i = i + 2;
            } else if str_eq(t, "--selection-start") {
                if i + 1 >= n {
                    return None;
                }
                let v = match parse_u32(&chars_of(args[i + 1].as_str())) {
                    Some(v) => v,
                    None => {
                        return None;
                    },
                };
                acc.selection_start = Some(v);
                i = i + 2;
            } else if str_eq(t, "--selection-end") {
                if i + 1 >= n {
                    return None;
                }
                let v = match parse_u32(&chars_of(args[i + 1].as_str())) {
                    Some(v) => v,
                    None => {
                        return None;
                    },
                };
                acc.selection_end = Some(v);
                i = i + 2;
            } else if str_eq(t, "--cwd") {
                if i + 1 >= n {
                    return None;
                }
                acc.cwd = Some(args[i + 1].clone());
                i = i + 2;
            } else if str_eq(t, "--language") {
                if i + 1 >= n {
                    return None;
                }
                acc.language = Some(args[i + 1].clone());
                i = i + 2;
            } else if str_eq(t, "--theme") {
                if i + 1 >= n {
                    return None;
                }
                acc.theme = Some(args[i + 1].clone());
                i = i + 2;
            } else if str_eq(t, "--debug") {
                acc.debug = true;
                i = i + 1;
            } else if str_eq(t, "--no-anim") {
                acc.no_anim = true;
                i = i + 1;
            } else if str_eq(t, "-s") || str_eq(t, "--submit") {
                if !matches!(acc.cmd, Some(CmdKind::Prompt)) {
                    return None;
                }
                acc.submit = true;
                i = i + 1;
            } else if t.unicode_len() > 0 && t.get_char(0) == '-' {
                return None;
            } else {
                match acc.cmd {
                    None => {
                        if str_eq(t, "ask") {
                            acc.cmd = Some(CmdKind::Ask);
                        } else if str_eq(t, "select") {
                            acc.cmd = Some(CmdKind::Select);
                        } else if str_eq(t, "prompt") {
                            acc.cmd = Some(CmdKind::Prompt);
                        } else if str_eq(t, "status") {
                            acc.cmd = Some(CmdKind::Status);
                        } else {
                            return None;
                        }
                    },
                    Some(k) => {
                        if acc.arg.is_none() && (matches!(k, CmdKind::Ask) || matches!(
                            k,
                            CmdKind::Prompt,
                        )) {
                            acc.arg = Some(args[i].clone());
                        } else {
                            return None;
                        }
                    },
                }
                i = i + 1;
            }
        }
        proof {
            assert(toks.skip(n as int) =~= Seq::<Seq<char>>::empty());
        }
        // the whole line scanned; assemble the result
        let theme = match acc.theme {
            Some(th) => th,
            None => "hacker".to_owned(),
        };
        let command = match acc.cmd {
            None => {
                return None;
            },
            Some(CmdKind::Ask) => Command::Ask {
                initial: match acc.arg {
                    Some(a) => a,
                    None => String::new(),
                },
            },
            Some(CmdKind::Select) => {
                Command::Select
            },
            Some(CmdKind::Prompt) => {
                match acc.arg {
                    Some(tx) => Command::Prompt { text: tx, submit: acc.submit },
                    None => {
                        return None;
                    },
                }
            },
            Some(CmdKind::Status) => Command::Status,
        };
        Some(
            Cli {
                port: acc.port,
                file: acc.file,
                line: acc.line,
                column: acc.column,
                selection_file: acc.selection_file,
                selection_start: acc.selection_start,
                selection_end: acc.selection_end,
                cwd: acc.cwd,
                language: acc.language,
                debug: acc.debug,
                theme,
                no_anim: acc.no_anim,
                command,
            },
        )
    }

    /// Whether the line carries selection context.
    pub fn has_selection(&self) -> (r: bool)
        ensures
            r == (self@.selection_file is Some || self@.selection_start is Some),
    {
        self.selection_file.is_some() || self.selection_start.is_some()
    }

    /// Whether the line carries cursor context.
    pub fn has_cursor(&self) -> (r: bool)
        ensures
            r == (self@.line is Some),
    {
        self.line.is_some()
    }

    /// Whether the line carries a file.
    pub fn has_file(&self) -> (r: bool)
        ensures
            r == (self@.file is Some),
    {
        self.file.is_some()
    }
}

} // verus!
