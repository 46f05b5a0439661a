//! Data about a discovered assistant server, and extraction of its port
//! from a process command line.
//!
//! Process enumeration and the HTTP validation round trip live in the
//! surrounding program; it hands each candidate's command line to
//! [`extract_port_from_cmdline`] as a plain string.

use vstd::prelude::*;
use crate::strutil::{chars_of, chars_eq, chars_prefix, push_range};
use crate::digits::{parsed_u16, parse_u16};

verus! {

/// A discovered assistant server.
#[derive(Debug, Clone)]
pub struct Server {
    /// Process ID, 0 when not tracked.
    pub pid: u32,
    /// HTTP server port.
    pub port: u16,
    /// Working directory of the server.
    pub cwd: String,
}

/// The server's answer about its working directory.
#[derive(Debug)]
pub struct PathResponse {
    pub directory: Option<String>,
    pub worktree: Option<String>,
}

/// An agent the server offers.
#[derive(Debug, Clone)]
pub struct Agent {
    pub name: String,
    pub description: String,
    /// `"primary"` or `"subagent"`.
    pub mode: String,
}

/// A custom command the server offers.
#[derive(Debug, Clone)]
pub struct Command {
    pub name: String,
    pub description: String,
    pub template: String,
    pub agent: Option<String>,
}

/// The mathematical image of an [`Agent`].
#[verifier::ext_equal]
pub struct AgentView {
    pub name: Seq<char>,
    pub description: Seq<char>,
    pub mode: Seq<char>,
}

impl View for Agent {
    type V = AgentView;

    open spec fn view(&self) -> AgentView {
        AgentView { name: self.name@, description: self.description@, mode: self.mode@ }
    }
}

/// The mathematical image of a [`Command`].
#[verifier::ext_equal]
pub struct CommandView {
    pub name: Seq<char>,
    pub description: Seq<char>,
    pub template: Seq<char>,
    pub agent: Option<Seq<char>>,
}

impl View for Command {
    type V = CommandView;

    open spec fn view(&self) -> CommandView {
        CommandView {
            name: self.name@,
            description: self.description@,
            template: self.template@,
            agent: match self.agent {
                Some(a) => Some(a@),
                None => None,
            },
        }
    }
}

/// Whether `c` separates command-line tokens.
pub open spec fn is_ws(c: char) -> bool {
    c == ' ' || c == '\t' || c == '\n' || c == '\r'
}

/// The position of the first separator at or after `i`, or the end.
pub open spec fn token_end(s: Seq<char>, i: int) -> int
    decreases s.len() - i,
    when 0 <= i <= s.len()
{
    if i >= s.len() {
        s.len() as int
    } else if is_ws(s[i]) {
        i
    } else {
        token_end(s, i + 1)
    }
}

/// `token_end` stays within the buffer and past non-separators.
pub proof fn lemma_token_end(s: Seq<char>, i: int)
    requires
        0 <= i <= s.len(),
    ensures
        i <= token_end(s, i) <= s.len(),
        i < s.len() && !is_ws(s[i]) ==> token_end(s, i) > i,
    decreases s.len() - i,
{
    if i < s.len() && !is_ws(s[i]) {
        lemma_token_end(s, i + 1);
    }
}

/// The whitespace-separated tokens of the suffix of `s` starting at `i`.
pub open spec fn split_ws(s: Seq<char>, i: int) -> Seq<Seq<char>>
    decreases s.len() - i when 0 <= i <= s.len() via split_ws_dec
{
    if i >= s.len() {
        seq![]
    } else if is_ws(s[i]) {
        split_ws(s, i + 1)
    } else {
        seq![s.subrange(i, token_end(s, i))] + split_ws(s, token_end(s, i))
    }
}

#[via_fn]
proof fn split_ws_dec(s: Seq<char>, i: int) {
    lemma_token_end(s, i);
}

/// The token `--port`.
pub open spec fn port_flag() -> Seq<char> {
    seq!['-', '-', 'p', 'o', 'r', 't']
}

/// The token prefix `--port=`.
pub open spec fn port_flag_eq() -> Seq<char> {
    seq!['-', '-', 'p', 'o', 'r', 't', '=']
}

/// The port announced by a token list: the first place where a `--port`
/// token is followed by a parsable port number, or a `--port=` token
/// carries one; announcements that do not parse are passed over.
pub open spec fn port_of_tokens(toks: Seq<Seq<char>>) -> Option<u16>
    decreases toks.len(),
{
    if toks.len() == 0 {
        None
    } else if toks[0] == port_flag() && toks.len() >= 2 && parsed_u16(toks[1]) is Some {
        parsed_u16(toks[1])
    } else if toks[0].len() >= 7 && toks[0].take(7) == port_flag_eq() && parsed_u16(
        toks[0].skip(7),
    ) is Some {
        parsed_u16(toks[0].skip(7))
    } else {
        port_of_tokens(toks.drop_first())
    }
}

/// The views of a token list.
pub open spec fn tok_views(ts: Seq<Vec<char>>) -> Seq<Seq<char>> {
    ts.map_values(|t: Vec<char>| t@)
}

/// Extract the port number from a process command line: the first
/// `--port <number>` or `--port=<number>` announcement that parses as a
/// sixteen-bit number.
pub fn extract_port_from_cmdline(cmdline: &str) -> (r: Option<u16>)
    ensures
        r == port_of_tokens(split_ws(cmdline@, 0)),
{
    let ghost s = cmdline@;
    let cs = chars_of(cmdline);
    let n = cs.len();
    // tokenize on whitespace
    let mut toks: Vec<Vec<char>> = Vec::new();
    let mut i: usize = 0;
    proof {
        assert(Seq::<Seq<char>>::empty() + split_ws(s, 0) =~= split_ws(s, 0));
    }
    while i < n
        invariant
            i <= n,
            n == s.len(),
            cs@ == s,
            tok_views(toks@) + split_ws(s, i as int) == split_ws(s, 0),
        decreases n - i,
    {
        let c = cs[i];
        if c == ' ' || c == '\t' || c == '\n' || c == '\r' {
            i += 1;
        } else {
            proof {
                lemma_token_end(s, i as int);
            }
            let mut e: usize = i;
            while e < n && !(cs[e] == ' ' || cs[e] == '\t' || cs[e] == '\n' || cs[e] == '\r')
                invariant
                    i <= e <= n,
                    n == s.len(),
                    cs@ == s,
                    token_end(s, i as int) == token_end(s, e as int),
                decreases n - e,
            {
                e += 1;
            }
            proof {
                assert(token_end(s, e as int) == e);
            }
            let mut tok: Vec<char> = Vec::new();
            push_range(&mut tok, &cs, i, e);
            proof {
                assert(tok@ =~= s.subrange(i as int, e as int));
            }
            toks.push(tok);
            proof {
                assert(tok_views(toks@) =~= tok_views(toks@.drop_last()) + seq![
                    s.subrange(i as int, e as int),
                ]);
                assert(tok_views(toks@) + split_ws(s, e as int) =~= tok_views(toks@.drop_last())
                    + split_ws(s, i as int));
            }
            i = e;
        }
    }
    proof {
        assert(split_ws(s, n as int) =~= Seq::<Seq<char>>::empty());
        assert(tok_views(toks@) + split_ws(s, n as int) =~= tok_views(toks@));
    }
    // scan the tokens for a port announcement
    let flag = chars_of("--port");
    let flag_eq = chars_of("--port=");
    proof {
        reveal_strlit("--port");
        reveal_strlit("--port=");
        assert(flag@ =~= port_flag());
        assert(flag_eq@ =~= port_flag_eq());
    }
    let m = toks.len();
    let mut k: usize = 0;
    proof {
        assert(tok_views(toks@).skip(0) =~= tok_views(toks@));
    }
    while k < m
        invariant
            k <= m,
            m == toks@.len(),
            s == cmdline@,
            flag@ == port_flag(),
            flag_eq@ == port_flag_eq(),
            tok_views(toks@) == split_ws(s, 0),
            port_of_tokens(split_ws(s, 0)) == port_of_tokens(tok_views(toks@).skip(k as int)),
        decreases m - k,
    {
        let ghost rest = tok_views(toks@).skip(k as int);
        proof {
            assert(rest[0] == toks@[k as int]@);
            assert(rest.drop_first() =~= tok_views(toks@).skip(k + 1));
        }
        if chars_eq(&toks[k], &flag) {
            if k + 1 < m {
                proof {
                    assert(rest[1] == toks@[k + 1]@);
                }
                match parse_u16(&toks[k + 1]) {
                    Some(p) => {
                        return Some(p);
                    },
                    None => {},
                }
            }
        } else if chars_prefix(&toks[k], &flag_eq) {
            let mut restv: Vec<char> = Vec::new();
            push_range(&mut restv, &toks[k], 7, toks[k].len());
            proof {
                assert(restv@ =~= toks@[k as int]@.skip(7));
            }
            match parse_u16(&restv) {
                Some(p) => {
                    return Some(p);
                },
                None => {},
            }
        }
        k += 1;
    }
    proof {
        assert(tok_views(toks@).skip(m as int) =~= Seq::<Seq<char>>::empty());
    }
    None
}

} // verus!
