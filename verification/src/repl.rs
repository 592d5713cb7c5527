//! The commands of the interactive prompt.

use crate::num;
use crate::num::parse_i32;
use crate::text;
use crate::text::{chars_of, has_at, is_ascii_white, str_eq, substring, trim_range};
use vstd::prelude::*;
use vstd::slice::slice_subrange;
use vstd::string::*;

verus! {

/// The list of the commands.
pub const REPL_HELP: &'static str = "Commands:\n  /help          Show this help.\n  /think         Use normal thinking mode.\n  /think-max     Use Think Max only when context is at least 393216 tokens.\n  /nothink       Disable thinking mode.\n  /ctx N         Set context size for following prompts.\n  /power N       Set GPU duty cycle percentage, 1..100.\n  /read FILE     Read a prompt from FILE and run it.\n  /quit, /exit   Leave the prompt.\n  Ctrl+C         Stop generation and return to the prompt.\n";

/// What a line asks for.
#[derive(Debug, PartialEq, Eq)]
pub enum ReplLine {
    Help,
    Think,
    ThinkMax,
    NoThink,
    Ctx(i32),
    Power(Option<i32>),
    Read(String),
    Quit,
    Prompt(String),
    Empty,
}

/// Why a line is refused.
#[derive(Debug, PartialEq, Eq)]
pub enum ReplError {
    UnknownCommand(String),
    CtxNeedsPositive,
    PowerRange,
    ReadNeedsPath,
}

/// A [`ReplLine`] as plain values.
pub enum Line {
    Help,
    Think,
    ThinkMax,
    NoThink,
    Ctx(i32),
    Power(Option<i32>),
    Read(Seq<char>),
    Quit,
    Prompt(Seq<char>),
    Empty,
}

/// A [`ReplError`] as plain values.
pub enum Refusal {
    UnknownCommand(Seq<char>),
    CtxNeedsPositive,
    PowerRange,
    ReadNeedsPath,
}

impl View for ReplLine {
    type V = Line;

    open spec fn view(&self) -> Line {
        match *self {
            ReplLine::Help => Line::Help,
            ReplLine::Think => Line::Think,
            ReplLine::ThinkMax => Line::ThinkMax,
            ReplLine::NoThink => Line::NoThink,
            ReplLine::Ctx(n) => Line::Ctx(n),
            ReplLine::Power(n) => Line::Power(n),
            ReplLine::Read(s) => Line::Read(s@),
            ReplLine::Quit => Line::Quit,
            ReplLine::Prompt(s) => Line::Prompt(s@),
            ReplLine::Empty => Line::Empty,
        }
    }
}

impl View for ReplError {
    type V = Refusal;

    open spec fn view(&self) -> Refusal {
        match *self {
            ReplError::UnknownCommand(s) => Refusal::UnknownCommand(s@),
            ReplError::CtxNeedsPositive => Refusal::CtxNeedsPositive,
            ReplError::PowerRange => Refusal::PowerRange,
            ReplError::ReadNeedsPath => Refusal::ReadNeedsPath,
        }
    }
}

impl ReplError {
    pub open spec fn spec_message(self) -> Seq<char> {
        match self@ {
            Refusal::UnknownCommand(cmd) => "ds4: unknown command: "@ + cmd
                + "\nds4: type /help for commands\n"@,
            Refusal::CtxNeedsPositive => "ds4: /ctx needs a positive integer\n"@,
            Refusal::PowerRange => "ds4: /power must be between 1 and 100\n"@,
            Refusal::ReadNeedsPath => "ds4: /read needs a file path\n"@,
        }
    }

    /// What is printed for the refusal.
    pub fn message(&self) -> (r: String)
        ensures
            r@ == self.spec_message(),
    {
        match self {
            ReplError::UnknownCommand(cmd) => {
                let mut r = String::from_str("ds4: unknown command: ");
                r.append(cmd.as_str());
                r.append("\nds4: type /help for commands\n");
                r
            },
            ReplError::CtxNeedsPositive => String::from_str(
                "ds4: /ctx needs a positive integer\n",
            ),
            ReplError::PowerRange => String::from_str("ds4: /power must be between 1 and 100\n"),
            ReplError::ReadNeedsPath => String::from_str("ds4: /read needs a file path\n"),
        }
    }
}

/// `s` without the white space around it.
pub fn trim_inplace(s: &str) -> (r: String)
    ensures
        r@ == text::trimmed(s@),
{
    let c = chars_of(s);
    assert(c@.subrange(0, c@.len() as int) =~= c@);
    let (a, b) = trim_range(c.as_slice(), 0, c.len());
    substring(c.as_slice(), a, b)
}

/// What follows the command `name` in `cmd`: nothing, or white space and then
/// the argument. `None` where `cmd` is another command.
pub open spec fn argument_of(cmd: Seq<char>, name: Seq<char>) -> Option<Seq<char>> {
    if !text::stands_at(cmd, name, 0) {
        None
    } else {
        let rest = cmd.skip(name.len() as int);
        if rest.len() == 0 {
            Some(seq![])
        } else if text::is_ascii_space(rest[0]) {
            Some(text::trimmed(rest))
        } else {
            None
        }
    }
}

/// The bounds in `cmd` of what follows the command `name`.
fn strip_command(cmd: &[char], name: &str) -> (r: Option<(usize, usize)>)
    ensures
        match (r, argument_of(cmd@, name@)) {
            (Some(p), Some(rest)) => p.0 <= p.1 <= cmd@.len() && cmd@.subrange(
                p.0 as int,
                p.1 as int,
            ) == rest,
            (None, None) => true,
            _ => false,
        },
{
    let p = chars_of(name);
    if !has_at(cmd, p.as_slice(), 0) {
        return None;
    }
    let n: usize = cmd.len();
    let from: usize = p.len();
    proof {
        assert(cmd@.subrange(from as int, n as int) =~= cmd@.skip(from as int));
        assert(cmd@.subrange(n as int, n as int) =~= seq![]);
    }
    if from == n {
        return Some((n, n));
    }
    assert(cmd@.skip(from as int)[0] == cmd@[from as int]);
    if is_ascii_white(cmd[from]) {
        return Some(trim_range(cmd, from, n));
    }
    None
}

/// What the trimmed line `cmd` asks for.
pub open spec fn command(cmd: Seq<char>) -> Result<Line, Refusal> {
    if cmd.len() == 0 {
        Ok(Line::Empty)
    } else if cmd == "/help"@ {
        Ok(Line::Help)
    } else if cmd == "/think"@ {
        Ok(Line::Think)
    } else if cmd == "/think-max"@ {
        Ok(Line::ThinkMax)
    } else if cmd == "/nothink"@ {
        Ok(Line::NoThink)
    } else if cmd == "/quit"@ || cmd == "/exit"@ {
        Ok(Line::Quit)
    } else if argument_of(cmd, "/power"@) is Some {
        let rest = argument_of(cmd, "/power"@)->0;
        if rest.len() == 0 {
            Ok(Line::Power(None))
        } else {
            match num::i32_value(rest) {
                Some(v) if 1 <= v <= 100 => Ok(Line::Power(Some(v))),
                _ => Err(Refusal::PowerRange),
            }
        }
    } else if argument_of(cmd, "/ctx"@) is Some {
        match num::i32_value(argument_of(cmd, "/ctx"@)->0) {
            Some(v) if v > 0 => Ok(Line::Ctx(v)),
            _ => Err(Refusal::CtxNeedsPositive),
        }
    } else if argument_of(cmd, "/read"@) is Some {
        let rest = argument_of(cmd, "/read"@)->0;
        if rest.len() == 0 {
            Err(Refusal::ReadNeedsPath)
        } else {
            Ok(Line::Read(rest))
        }
    } else if cmd[0] == '/' {
        Err(Refusal::UnknownCommand(cmd))
    } else {
        Ok(Line::Prompt(cmd))
    }
}

/// `r` is what `model` states.
pub open spec fn line_matches(
    r: Result<ReplLine, ReplError>,
    model: Result<Line, Refusal>,
) -> bool {
    match (r, model) {
        (Ok(a), Ok(b)) => a@ == b,
        (Err(e), Err(x)) => e@ == x,
        _ => false,
    }
}

/// What the line asks for.
pub fn parse_repl_line(line: &str) -> (r: Result<ReplLine, ReplError>)
    ensures
        line_matches(r, command(text::trimmed(line@))),
{
    let cmd = trim_inplace(line);
    let s = cmd.as_str();
    let c = chars_of(s);
    if c.len() == 0 {
        return Ok(ReplLine::Empty);
    }
    if str_eq(s, "/help") {
        return Ok(ReplLine::Help);
    }
    if str_eq(s, "/think") {
        return Ok(ReplLine::Think);
    }
    if str_eq(s, "/think-max") {
        return Ok(ReplLine::ThinkMax);
    }
    if str_eq(s, "/nothink") {
        return Ok(ReplLine::NoThink);
    }
    if str_eq(s, "/quit") || str_eq(s, "/exit") {
        return Ok(ReplLine::Quit);
    }
    if let Some((a, b)) = strip_command(c.as_slice(), "/power") {
        if a == b {
            return Ok(ReplLine::Power(None));
        }
        return match parse_i32(slice_subrange(c.as_slice(), a, b)) {
            Some(v) => if 1 <= v && v <= 100 {
                Ok(ReplLine::Power(Some(v)))
            } else {
                Err(ReplError::PowerRange)
            },
            None => Err(ReplError::PowerRange),
        };
    }
    if let Some((a, b)) = strip_command(c.as_slice(), "/ctx") {
        return match parse_i32(slice_subrange(c.as_slice(), a, b)) {
            Some(v) => if v > 0 {
                Ok(ReplLine::Ctx(v))
            } else {
                Err(ReplError::CtxNeedsPositive)
            },
            None => Err(ReplError::CtxNeedsPositive),
        };
    }
    if let Some((a, b)) = strip_command(c.as_slice(), "/read") {
        if a == b {
            return Err(ReplError::ReadNeedsPath);
        }
        return Ok(ReplLine::Read(substring(c.as_slice(), a, b)));
    }
    if c[0] == '/' {
        return Err(ReplError::UnknownCommand(cmd));
    }
    Ok(ReplLine::Prompt(cmd))
}

/// The thinking modes as the prompt reports them.
#[derive(Debug, Clone, Copy, PartialEq, Eq, Structural)]
pub enum ThinkRepl {
    High,
    Max,
    HighBelowCtx,
    Disabled,
}

pub open spec fn think_message(mode: ThinkRepl) -> Seq<char> {
    match mode {
        ThinkRepl::High => "Thinking mode: high."@,
        ThinkRepl::Max => "Thinking mode: max."@,
        ThinkRepl::HighBelowCtx => "Thinking mode: high (ctx below 393216)."@,
        ThinkRepl::Disabled => "Thinking mode: none."@,
    }
}

/// What is printed for a thinking mode.
pub fn think_mode_message(mode: ThinkRepl) -> (r: &'static str)
    ensures
        r@ == think_message(mode),
{
    match mode {
        ThinkRepl::High => "Thinking mode: high.",
        ThinkRepl::Max => "Thinking mode: max.",
        ThinkRepl::HighBelowCtx => "Thinking mode: high (ctx below 393216).",
        ThinkRepl::Disabled => "Thinking mode: none.",
    }
}

/// The least context in which the highest thinking mode works.
pub const THINK_MAX_MIN_CTX: i32 = 393216;

/// Whether the highest thinking mode works in a context of `ctx`.
pub fn think_max_active(ctx: i32) -> (r: bool)
    ensures
        r == (ctx >= THINK_MAX_MIN_CTX),
{
    ctx >= THINK_MAX_MIN_CTX
}

/// The white space around a line does not matter.
pub proof fn law_trimming_is_idempotent(s: Seq<char>)
    ensures
        text::trimmed(text::trimmed(s)) == text::trimmed(s),
{
    let a = text::trim_start(s);
    lemma_trim_start(s);
    lemma_trim_end(a);
    let b = text::trim_end(a);
    if b.len() > 0 {
        assert(b[0] == a[0]);
    }
}

proof fn lemma_trim_start(s: Seq<char>)
    ensures
        text::trim_start(s).len() > 0 ==> !text::is_space(text::trim_start(s)[0]),
    decreases s.len(),
{
    if s.len() > 0 && text::is_space(s[0]) {
        lemma_trim_start(s.skip(1));
    }
}

proof fn lemma_trim_end(s: Seq<char>)
    ensures
        text::trim_end(s).len() > 0 ==> !text::is_space(text::trim_end(s).last()),
        text::trim_end(s).len() <= s.len(),
        forall|i: int| 0 <= i < text::trim_end(s).len() ==> text::trim_end(s)[i] == s[i],
    decreases s.len(),
{
    if s.len() > 0 && text::is_space(s.last()) {
        lemma_trim_end(s.drop_last());
        assert forall|i: int| 0 <= i < text::trim_end(s).len() implies text::trim_end(s)[i]
            == s[i] by {
            assert(s.drop_last()[i] == s[i]);
        }
    }
}

} // verus!
