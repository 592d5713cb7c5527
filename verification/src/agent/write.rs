//! The tool that writes a file.

use crate::agent::approval;
use crate::agent::approval::{Approval, Permission};
use crate::text;
use crate::text::push_u64;
use vstd::prelude::*;
use vstd::string::*;
use vstd::utf8::*;

verus! {

/// The name of the tool.
pub const WRITE: &'static str = "write";

/// What a call comes to before the file is touched.
#[derive(Debug)]
pub enum WriteStep {
    /// It is answered at once.
    Answer(&'static str),
    /// The file is written, once that is permitted.
    Write(Permission),
}

/// `o` is there and not empty.
pub open spec fn given(o: Option<&str>) -> bool {
    o is Some && o->0@.len() > 0
}

/// What a call comes to. A wrong call is answered without asking.
pub fn plan_write(path: Option<&str>, content: Option<&str>, approval: Approval) -> (r: WriteStep)
    ensures
        match r {
            WriteStep::Answer(s) => if !given(path) {
                s@ == "Tool error: write requires path\n"@
            } else {
                content is None && s@ == "Tool error: write requires content\n"@
            },
            WriteStep::Write(p) => given(path) && content is Some && approval::permission_for(
                approval,
                approval::write_prompt(path->0@),
                p,
            ),
        },
{
    let path = match path {
        Some(path) if path.unicode_len() > 0 => path,
        _ => {
            return WriteStep::Answer("Tool error: write requires path\n");
        },
    };
    if content.is_none() {
        return WriteStep::Answer("Tool error: write requires content\n");
    }
    WriteStep::Write(approval.allow_write(path))
}

/// How the writing went.
#[derive(Debug)]
pub enum WriteOutcome {
    /// The user refused.
    Denied,
    OpenFailed(String),
    WriteFailed(String),
    Written,
}

/// The answer of the tool after the writing.
pub open spec fn write_answer(
    path: Seq<char>,
    content: Seq<char>,
    outcome: WriteOutcome,
) -> Seq<char> {
    match outcome {
        WriteOutcome::Denied => approval::DENIED_WRITE@,
        WriteOutcome::OpenFailed(e) => "Tool error: open for write failed: "@ + e@ + "\n"@,
        WriteOutcome::WriteFailed(e) => "Tool error: write failed: "@ + e@ + "\n"@,
        WriteOutcome::Written => "Wrote "@ + text::decimal(encode_utf8(content).len())
            + " bytes to "@ + path + "\n"@,
    }
}

/// The answer of the tool after the writing.
pub fn write_result(path: &str, content: &str, outcome: &WriteOutcome) -> (r: String)
    ensures
        r@ == write_answer(path@, content@, *outcome),
{
    match outcome {
        WriteOutcome::Denied => String::from_str(approval::DENIED_WRITE),
        WriteOutcome::OpenFailed(e) => {
            let mut r = String::from_str("Tool error: open for write failed: ");
            r.append(e.as_str());
            r.append("\n");
            r
        },
        WriteOutcome::WriteFailed(e) => {
            let mut r = String::from_str("Tool error: write failed: ");
            r.append(e.as_str());
            r.append("\n");
            r
        },
        WriteOutcome::Written => {
            let mut r = String::from_str("Wrote ");
            push_u64(&mut r, content.as_bytes().len() as u64);
            r.append(" bytes to ");
            r.append(path);
            r.append("\n");
            r
        },
    }
}

} // verus!
