//! Asking before a file is changed.

use crate::text::chars_of;
use vstd::prelude::*;
use vstd::string::*;

verus! {

/// What is answered where the user refuses.
pub const DENIED_WRITE: &'static str = "Tool error: user denied write\n";

pub const DENIED_EDIT: &'static str = "Tool error: user denied edit\n";

/// Whether there is a user to ask.
#[derive(Clone, Copy, Debug, PartialEq, Eq, Structural)]
pub enum Approval {
    NonInteractive,
    Interactive,
}

/// Whether a change goes ahead at once, or what the user is asked first.
#[derive(Debug)]
pub enum Permission {
    Granted,
    MustAsk(String),
}

/// `p` asks `prompt` where there is a user.
pub open spec fn permission_for(approval: Approval, prompt: Seq<char>, p: Permission) -> bool {
    match p {
        Permission::Granted => approval == Approval::NonInteractive,
        Permission::MustAsk(s) => approval == Approval::Interactive && s@ == prompt,
    }
}

pub open spec fn write_prompt(path: Seq<char>) -> Seq<char> {
    "Write "@ + path + "? (y/n) "@
}

pub open spec fn edit_prompt(path: Seq<char>) -> Seq<char> {
    "Edit "@ + path + "? (y/n) "@
}

fn prompt_for(verb: &str, path: &str) -> (r: String)
    ensures
        r@ == verb@ + path@ + "? (y/n) "@,
{
    let mut r = String::from_str(verb);
    r.append(path);
    r.append("? (y/n) ");
    r
}

impl Approval {
    /// Whether the file at `path` may be written.
    pub fn allow_write(self, path: &str) -> (r: Permission)
        ensures
            permission_for(self, write_prompt(path@), r),
    {
        match self {
            Approval::NonInteractive => Permission::Granted,
            Approval::Interactive => Permission::MustAsk(prompt_for("Write ", path)),
        }
    }

    /// Whether the file at `path` may be edited.
    pub fn allow_edit(self, path: &str) -> (r: Permission)
        ensures
            permission_for(self, edit_prompt(path@), r),
    {
        match self {
            Approval::NonInteractive => Permission::Granted,
            Approval::Interactive => Permission::MustAsk(prompt_for("Edit ", path)),
        }
    }
}

/// The first place from `i` on that holds neither a space nor a tab.
pub open spec fn after_blanks(line: Seq<char>, i: int) -> int
    decreases line.len() - i,
{
    if 0 <= i < line.len() && (line[i] == ' ' || line[i] == '\t') {
        after_blanks(line, i + 1)
    } else {
        i
    }
}

/// What a line answers: its first letter decides.
pub open spec fn answer_of(line: Seq<char>) -> Option<bool> {
    let i = after_blanks(line, 0);
    if i >= line.len() {
        None
    } else if line[i] == 'y' || line[i] == 'Y' {
        Some(true)
    } else if line[i] == 'n' || line[i] == 'N' {
        Some(false)
    } else {
        None
    }
}

/// What a line answers, if it answers anything.
pub fn parse_yes_no_line(line: &str) -> (r: Option<bool>)
    ensures
        r == answer_of(line@),
{
    let cs = chars_of(line);
    let mut i: usize = 0;
    while i < cs.len() && (cs[i] == ' ' || cs[i] == '\t')
        invariant
            i <= cs@.len(),
            after_blanks(cs@, 0) == after_blanks(cs@, i as int),
        decreases cs@.len() - i,
    {
        i += 1;
    }
    if i >= cs.len() {
        None
    } else if cs[i] == 'y' || cs[i] == 'Y' {
        Some(true)
    } else if cs[i] == 'n' || cs[i] == 'N' {
        Some(false)
    } else {
        None
    }
}

/// What came of asking once.
#[derive(Debug)]
pub enum AskEvent {
    /// The question could not be shown, or the answer not be read.
    Failed,
    /// The input has ended.
    Ended,
    Line(String),
}

/// The answer, or `None` where the question is asked again.
pub open spec fn reaction(e: AskEvent) -> Option<bool> {
    match e {
        AskEvent::Failed => Some(false),
        AskEvent::Ended => Some(false),
        AskEvent::Line(s) => answer_of(s@),
    }
}

/// The answer, or `None` where the question is asked again.
pub fn react(e: &AskEvent) -> (r: Option<bool>)
    ensures
        r == reaction(*e),
{
    match e {
        AskEvent::Failed => Some(false),
        AskEvent::Ended => Some(false),
        AskEvent::Line(s) => parse_yes_no_line(s.as_str()),
    }
}

/// The number of the first event from `i` on that answers; the number of
/// events where none does.
pub open spec fn first_reaction(events: Seq<AskEvent>, i: int) -> int
    decreases events.len() - i,
{
    if i < 0 || i >= events.len() || reaction(events[i]) is Some {
        i
    } else {
        first_reaction(events, i + 1)
    }
}

/// Asks until an event answers. Gives the answer, which is no where the events
/// run out, and how often the question was asked.
pub fn prompt_yes_no(events: &[AskEvent]) -> (r: (bool, usize))
    ensures
        ({
            let k = first_reaction(events@, 0);
            if k < events@.len() {
                r.0 == reaction(events@[k])->0 && r.1 == k + 1
            } else {
                !r.0 && r.1 == events@.len()
            }
        }),
{
    let n: usize = events.len();
    let mut i: usize = 0;
    while i < n
        invariant
            n == events@.len(),
            i <= n,
            first_reaction(events@, 0) == first_reaction(events@, i as int),
        decreases n - i,
    {
        if let Some(answer) = react(&events[i]) {
            return (answer, i + 1);
        }
        i += 1;
    }
    (false, n)
}

/// Where there is a user, nothing goes ahead without asking; where there is
/// none, nobody is asked.
pub proof fn law_asking(approval: Approval, prompt: Seq<char>, p: Permission)
    requires
        permission_for(approval, prompt, p),
    ensures
        approval == Approval::Interactive <==> p is MustAsk,
{
}

/// Only a line that begins with a y allows.
pub proof fn law_only_yes_allows(e: AskEvent)
    ensures
        reaction(e) == Some(true) ==> (e matches AskEvent::Line(s) && ({
            let i = after_blanks(s@, 0);
            i < s@.len() && (s@[i] == 'y' || s@[i] == 'Y')
        })),
{
}

} // verus!
