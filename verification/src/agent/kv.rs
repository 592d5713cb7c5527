//! Saved sessions: the commands that save, list, resume, delete and strip
//! them.

pub mod catalog;
pub mod handle;
pub mod identity;
pub mod store;

use crate::text;
use crate::text::{chars_of, has_at, str_eq, substring, trim_range};
use vstd::prelude::*;
use vstd::string::*;

verus! {

/// Where the sessions lie below the home directory.
pub open spec fn cache_dir(home: Option<&str>) -> Seq<char> {
    let h = if crate::agent::write::given(home) {
        home->0@
    } else {
        "."@
    };
    if h.last() == '/' {
        h + ".ds4/kvcache"@
    } else {
        h + "/"@ + ".ds4/kvcache"@
    }
}

/// Where the sessions lie; the current directory stands for a missing home.
pub fn cache_dir_from_home(home: Option<&str>) -> (r: String)
    ensures
        r@ == cache_dir(home),
{
    let h = match home {
        Some(h) if h.unicode_len() > 0 => h,
        _ => ".",
    };
    proof {
        reveal_strlit(".");
    }
    let cs = chars_of(h);
    let mut r = String::from_str(h);
    if cs[cs.len() - 1] != '/' {
        r.append("/");
    }
    r.append(".ds4/kvcache");
    r
}

/// A command about saved sessions.
#[derive(Debug, PartialEq, Eq)]
pub enum SlashCmd {
    Save,
    List,
    Switch(String),
    Del(String),
    Strip(String),
}

/// [`SlashCmd`] as plain values.
pub enum Slash {
    Save,
    List,
    Switch(Seq<char>),
    Del(Seq<char>),
    Strip(Seq<char>),
}

impl View for SlashCmd {
    type V = Slash;

    open spec fn view(&self) -> Slash {
        match self {
            SlashCmd::Save => Slash::Save,
            SlashCmd::List => Slash::List,
            SlashCmd::Switch(s) => Slash::Switch(s@),
            SlashCmd::Del(s) => Slash::Del(s@),
            SlashCmd::Strip(s) => Slash::Strip(s@),
        }
    }
}

/// What stands behind the command `name`: nothing, or something behind a space
/// or a tab.
pub open spec fn slash_arg(cmd: Seq<char>, name: Seq<char>) -> Option<Seq<char>> {
    if !text::stands_at(cmd, name, 0) {
        None
    } else {
        let rest = cmd.skip(name.len() as int);
        if rest.len() == 0 {
            Some(rest)
        } else if rest[0] != ' ' && rest[0] != '\t' {
            None
        } else {
            Some(text::trimmed(rest))
        }
    }
}

/// The command that a line holds, or the complaint that its argument is
/// missing; `None` where it holds no such command.
pub open spec fn slash_of(line: Seq<char>) -> Option<Result<Slash, Seq<char>>> {
    let cmd = text::trimmed(line);
    if cmd == "/save"@ {
        Some(Ok(Slash::Save))
    } else if cmd == "/list"@ {
        Some(Ok(Slash::List))
    } else if slash_arg(cmd, "/switch"@) is Some {
        Some(
            if slash_arg(cmd, "/switch"@)->0.len() == 0 {
                Err("usage: /switch <sha-prefix>"@)
            } else {
                Ok(Slash::Switch(slash_arg(cmd, "/switch"@)->0))
            },
        )
    } else if slash_arg(cmd, "/del"@) is Some {
        Some(
            if slash_arg(cmd, "/del"@)->0.len() == 0 {
                Err("usage: /del <sha-prefix>"@)
            } else {
                Ok(Slash::Del(slash_arg(cmd, "/del"@)->0))
            },
        )
    } else if slash_arg(cmd, "/strip"@) is Some {
        Some(
            if slash_arg(cmd, "/strip"@)->0.len() == 0 {
                Err("usage: /strip <sha-prefix>"@)
            } else {
                Ok(Slash::Strip(slash_arg(cmd, "/strip"@)->0))
            },
        )
    } else {
        None
    }
}

/// `r` is what `model` states.
pub open spec fn slash_matches(
    r: Option<Result<SlashCmd, &'static str>>,
    model: Option<Result<Slash, Seq<char>>>,
) -> bool {
    match (r, model) {
        (None, None) => true,
        (Some(Ok(c)), Some(Ok(m))) => c@ == m,
        (Some(Err(e)), Some(Err(x))) => e@ == x,
        _ => false,
    }
}

fn arg_of(cmd: &[char], name: &str) -> (r: Option<String>)
    ensures
        match (r, slash_arg(cmd@, name@)) {
            (None, None) => true,
            (Some(s), Some(m)) => s@ == m,
            _ => false,
        },
{
    let cs = chars_of(name);
    if !has_at(cmd, cs.as_slice(), 0) {
        return None;
    }
    let n: usize = cmd.len();
    let k: usize = cs.len();
    let ghost rest = cmd@.skip(k as int);
    if k == n {
        let r = String::new();
        assert(r@ =~= rest);
        return Some(r);
    }
    assert(rest[0] == cmd@[k as int]);
    if cmd[k] != ' ' && cmd[k] != '\t' {
        return None;
    }
    let (a, b) = trim_range(cmd, k, n);
    assert(cmd@.subrange(k as int, n as int) =~= rest);
    Some(substring(cmd, a, b))
}

/// The command that a line holds.
pub fn parse_slash(line: &str) -> (r: Option<Result<SlashCmd, &'static str>>)
    ensures
        slash_matches(r, slash_of(line@)),
{
    let all = chars_of(line);
    let n: usize = all.len();
    let (a, b) = trim_range(all.as_slice(), 0, n);
    assert(all@.subrange(0, n as int) =~= line@);
    let cmd = substring(all.as_slice(), a, b);
    if str_eq(cmd.as_str(), "/save") {
        return Some(Ok(SlashCmd::Save));
    }
    if str_eq(cmd.as_str(), "/list") {
        return Some(Ok(SlashCmd::List));
    }
    let cs = chars_of(cmd.as_str());
    if let Some(rest) = arg_of(cs.as_slice(), "/switch") {
        return Some(
            if rest.as_str().unicode_len() == 0 {
                Err("usage: /switch <sha-prefix>")
            } else {
                Ok(SlashCmd::Switch(rest))
            },
        );
    }
    if let Some(rest) = arg_of(cs.as_slice(), "/del") {
        return Some(
            if rest.as_str().unicode_len() == 0 {
                Err("usage: /del <sha-prefix>")
            } else {
                Ok(SlashCmd::Del(rest))
            },
        );
    }
    if let Some(rest) = arg_of(cs.as_slice(), "/strip") {
        return Some(
            if rest.as_str().unicode_len() == 0 {
                Err("usage: /strip <sha-prefix>")
            } else {
                Ok(SlashCmd::Strip(rest))
            },
        );
    }
    None
}

} // verus!
