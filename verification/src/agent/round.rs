//! A tool block carried out call by call, with results that are bytes.

use crate::agent::bash::{BASH, BASH_STATUS, BASH_STOP};
use crate::agent::edit::EDIT;
use crate::agent::search::SEARCH;
use crate::agent::web_tools;
use crate::agent::web_tools::{read_block, ToolCall};
use crate::bytes::{push_bytes, push_text};
use crate::text;
use crate::text::{push_u64, str_eq};
use vstd::prelude::*;
use vstd::string::*;
use vstd::utf8::*;

verus! {

/// The tools that work on this machine.
#[derive(Clone, Copy, Debug, PartialEq, Eq, Structural)]
pub enum LocalTool {
    Write,
    Edit,
    Search,
    /// One of the three shell tools.
    Shell,
}

pub open spec fn local_tool_of(name: Seq<char>) -> Option<LocalTool> {
    if name == crate::agent::write::WRITE@ {
        Some(LocalTool::Write)
    } else if name == EDIT@ {
        Some(LocalTool::Edit)
    } else if name == SEARCH@ {
        Some(LocalTool::Search)
    } else if name == BASH@ || name == BASH_STATUS@ || name == BASH_STOP@ {
        Some(LocalTool::Shell)
    } else {
        None
    }
}

/// The tool that `name` names, if it works on this machine.
pub fn local_tool(name: &str) -> (r: Option<LocalTool>)
    ensures
        r == local_tool_of(name@),
{
    if str_eq(name, crate::agent::write::WRITE) {
        Some(LocalTool::Write)
    } else if str_eq(name, EDIT) {
        Some(LocalTool::Edit)
    } else if str_eq(name, SEARCH) {
        Some(LocalTool::Search)
    } else if str_eq(name, BASH) || str_eq(name, BASH_STATUS) || str_eq(name, BASH_STOP) {
        Some(LocalTool::Shell)
    } else {
        None
    }
}

/// `b`, ended by a line break unless it is empty or has one.
pub open spec fn ended(b: Seq<u8>) -> Seq<u8> {
    if b.len() > 0 && b.last() != 0x0a {
        b.push(0x0au8)
    } else {
        b
    }
}

/// The heading of the result of call `n` of the tool `name`.
pub open spec fn heading(n: nat, name: Seq<char>) -> Seq<char> {
    "Tool result "@ + text::decimal(n) + " ("@ + name + "):\n"@
}

/// What the model is shown of the first `n` results.
pub open spec fn results_text(calls: Seq<web_tools::Call>, results: Seq<Seq<u8>>, n: nat) -> Seq<u8>
    decreases n,
{
    if n == 0 {
        if calls.len() == 0 {
            encode_utf8("Tool error: empty tool call block\n"@)
        } else {
            seq![]
        }
    } else {
        results_text(calls, results, (n - 1) as nat) + (encode_utf8(heading(n, calls[n - 1].name))
            + ended(results[n - 1]))
    }
}

/// A tool block that is being carried out.
pub struct Round {
    pub visible: Vec<u8>,
    pub calls: Vec<ToolCall>,
    /// The calls that have their results.
    pub done: usize,
    /// What the model is shown of those.
    pub observation: Vec<u8>,
}

impl Round {
    pub open spec fn call_views(self) -> Seq<web_tools::Call> {
        web_tools::call_views(self.calls@)
    }

    /// The round has come to `results`, one per call that is done.
    pub open spec fn came_to(self, results: Seq<Seq<u8>>) -> bool {
        &&& self.done == results.len() <= self.calls@.len()
        &&& self.observation@ == results_text(self.call_views(), results, self.done as nat)
    }

    /// Begins the round of the tool block in `raw`.
    pub fn open(raw: &[u8]) -> (r: Result<Round, String>)
        ensures
            match (r, web_tools::block_of(raw@)) {
                (Ok(x), Ok(m)) => x.visible@ == m.0 && x.call_views() == m.1 && x.came_to(seq![]),
                (Err(e), Err(x)) => e@ == x,
                _ => false,
            },
    {
        match read_block(raw) {
            Err(e) => Err(e),
            Ok(block) => {
                let mut observation: Vec<u8> = Vec::new();
                if block.calls.len() == 0 {
                    push_text(&mut observation, "Tool error: empty tool call block\n");
                }
                assert(observation@ =~= results_text(
                    web_tools::call_views(block.calls@),
                    seq![],
                    0,
                ));
                Ok(Round { visible: block.visible, calls: block.calls, done: 0, observation })
            },
        }
    }

    /// The call that comes next, if any is left.
    pub fn next_call(&self) -> (r: Option<&ToolCall>)
        requires
            self.done <= self.calls@.len(),
        ensures
            match r {
                Some(c) => self.done < self.calls@.len() && *c == self.calls@[self.done as int],
                None => self.done == self.calls@.len(),
            },
    {
        if self.done < self.calls.len() {
            Some(&self.calls[self.done])
        } else {
            None
        }
    }

    /// The next call gave `result`.
    pub fn answered(&mut self, result: &[u8])
        requires
            old(self).done < old(self).calls@.len(),
        ensures
            final(self).visible@ == old(self).visible@,
            final(self).calls@ == old(self).calls@,
            final(self).done == old(self).done + 1,
            final(self).observation@ == old(self).observation@ + (encode_utf8(
                heading(final(self).done as nat, old(self).call_views()[old(self).done as int].name),
            ) + ended(result@)),
    {
        let n: usize = self.calls.len();
        let mut head = String::from_str("Tool result ");
        push_u64(&mut head, self.done as u64 + 1);
        head.append(" (");
        head.append(self.calls[self.done].name.as_str());
        head.append("):\n");
        let ghost before = self.observation@;
        let mut block: Vec<u8> = Vec::new();
        push_text(&mut block, head.as_str());
        push_bytes(&mut block, result);
        if result.len() > 0 && result[result.len() - 1] != 0x0a {
            block.push(0x0a);
        }
        assert(block@ =~= encode_utf8(head@) + ended(result@));
        push_bytes(&mut self.observation, block.as_slice());
        self.done = self.done + 1;
    }
}

/// What a round shows is fixed by its calls and their results, in order: one
/// more result adds its heading and its text behind what was shown before.
pub proof fn law_results_in_order(before: Round, after: Round, results: Seq<Seq<u8>>, result: Seq<u8>)
    requires
        before.came_to(results),
        before.done < before.calls@.len(),
        after.calls@ == before.calls@,
        after.done == before.done + 1,
        after.observation@ == before.observation@ + (encode_utf8(
            heading(after.done as nat, before.call_views()[before.done as int].name),
        ) + ended(result)),
    ensures
        after.came_to(results.push(result)),
{
    lemma_results_prefix(before.call_views(), results, result, before.done as nat);
}

proof fn lemma_results_prefix(
    calls: Seq<web_tools::Call>,
    results: Seq<Seq<u8>>,
    more: Seq<u8>,
    n: nat,
)
    requires
        n <= results.len(),
    ensures
        results_text(calls, results.push(more), n) == results_text(calls, results, n),
    decreases n,
{
    if n > 0 {
        lemma_results_prefix(calls, results, more, (n - 1) as nat);
    }
}

/// The tools of this machine, by their names.
pub proof fn law_local_tools_by_name(name: Seq<char>)
    ensures
        local_tool_of(name) == Some(LocalTool::Write) <==> name == "write"@,
        local_tool_of(name) == Some(LocalTool::Edit) <==> name == "edit"@,
        local_tool_of(name) == Some(LocalTool::Search) <==> name == "search"@,
        local_tool_of(name) == Some(LocalTool::Shell) <==> name == "bash"@ || name == "bash_status"@
            || name == "bash_stop"@,
{
    reveal_strlit("write");
    reveal_strlit("edit");
    reveal_strlit("search");
    reveal_strlit("bash");
    reveal_strlit("bash_status");
    reveal_strlit("bash_stop");
    assert("write"@.len() == 5 && "edit"@.len() == 4 && "search"@.len() == 6 && "bash"@.len() == 4);
    assert("bash_status"@.len() == 11 && "bash_stop"@.len() == 9);
    assert("edit"@[0] == 'e' && "bash"@[0] == 'b');
}

/// Each result stands under a line with its number and its tool, and ends its
/// line.
pub proof fn law_result_stands_under_its_heading(
    calls: Seq<web_tools::Call>,
    results: Seq<Seq<u8>>,
    n: nat,
)
    requires
        n < results.len(),
        n < calls.len(),
    ensures
        results_text(calls, results, n + 1) == results_text(calls, results, n) + (encode_utf8(
            "Tool result "@ + text::decimal(n + 1) + " ("@ + calls[n as int].name + "):\n"@,
        ) + (results[n as int] + (if results[n as int].len() > 0 && results[n as int].last()
            != 0x0a {
            seq![0x0au8]
        } else {
            seq![]
        }))),
        results_text(calls, results, 0).len() == 0,
{
    let r = results[n as int];
    assert(ended(r) =~= r + (if r.len() > 0 && r.last() != 0x0a {
        seq![0x0au8]
    } else {
        seq![]
    }));
}

} // verus!
