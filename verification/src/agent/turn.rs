//! A turn of the agent: what is told to the model, and the rounds of its
//! reply.

use crate::agent::options::{AgentArgs, ChatThinkMode};
use crate::agent::output;
use crate::agent::output::{project_bytes, TOOL_UNSUPPORTED_ERROR};
use crate::agent::web_tools;
use crate::agent::web_tools::{block_complete, has_block, ToolRound};
use crate::bytes;
use crate::text::{chars_of, substring, utf8_str};
use vstd::prelude::*;
use vstd::string::*;
use vstd::utf8::*;

verus! {

/// One part of what a conversation is made of.
#[derive(Debug)]
pub enum ChatPart {
    /// The start of a conversation.
    Begin,
    /// What sets the effort of the thinking.
    Effort(ChatThinkMode),
    /// Text with the chat's own markers in it.
    Rendered(String),
    /// A message.
    Message { role: &'static str, text: String },
    /// The start of a reply.
    AssistantPrefix(ChatThinkMode),
}

/// [`ChatPart`] as plain values.
pub enum Part {
    Begin,
    Effort(ChatThinkMode),
    Rendered(Seq<char>),
    Message { role: Seq<char>, text: Seq<char> },
    AssistantPrefix(ChatThinkMode),
}

impl View for ChatPart {
    type V = Part;

    open spec fn view(&self) -> Part {
        match self {
            ChatPart::Begin => Part::Begin,
            ChatPart::Effort(m) => Part::Effort(*m),
            ChatPart::Rendered(s) => Part::Rendered(s@),
            ChatPart::Message { role, text } => Part::Message { role: role@, text: text@ },
            ChatPart::AssistantPrefix(m) => Part::AssistantPrefix(*m),
        }
    }
}

pub open spec fn part_views(parts: Seq<ChatPart>) -> Seq<Part> {
    Seq::new(parts.len(), |i: int| parts[i]@)
}

/// What the model is told at first: how hard to think, the tools, and the
/// extra instructions, if there are any.
pub open spec fn system_parts(
    tools: Seq<char>,
    system: Seq<char>,
    think: ChatThinkMode,
) -> Seq<Part> {
    let head = seq![Part::Begin, Part::Effort(think), Part::Rendered(tools)];
    if system.len() == 0 {
        head
    } else {
        head.push(Part::Message { role: "system"@, text: "\n\n"@ + system })
    }
}

/// What the model is told at first.
pub fn build_system_transcript(tools: &str, args: &AgentArgs, think: ChatThinkMode) -> (r: Vec<
    ChatPart,
>)
    ensures
        part_views(r@) == system_parts(tools@, args.system@, think),
{
    let mut parts: Vec<ChatPart> = Vec::new();
    parts.push(ChatPart::Begin);
    parts.push(ChatPart::Effort(think));
    parts.push(ChatPart::Rendered(String::from_str(tools)));
    if args.system.as_str().unicode_len() != 0 {
        let mut extra = String::from_str("\n\n");
        extra.append(args.system.as_str());
        parts.push(ChatPart::Message { role: "system", text: extra });
    }
    assert(part_views(parts@) =~= system_parts(tools@, args.system@, think));
    parts
}

/// What tells the model the time.
pub open spec fn datetime_context(when: Seq<char>) -> Seq<char> {
    "Current local date and time at session start: "@ + when
        + ". Use this only when date or time matters."@
}

/// What tells the model the time.
pub fn format_datetime_context(when: &str) -> (r: String)
    ensures
        r@ == datetime_context(when@),
{
    let mut r = String::from_str("Current local date and time at session start: ");
    r.append(when);
    r.append(". Use this only when date or time matters.");
    r
}

/// What the model is told with a prompt.
pub fn append_user_turn(prompt: &str, when: &str, think: ChatThinkMode) -> (r: Vec<ChatPart>)
    ensures
        part_views(r@) == seq![
            Part::Message { role: "system"@, text: datetime_context(when@) },
            Part::Message { role: "user"@, text: prompt@ },
            Part::AssistantPrefix(think),
        ],
{
    let mut parts: Vec<ChatPart> = Vec::new();
    parts.push(ChatPart::Message { role: "system", text: format_datetime_context(when) });
    parts.push(ChatPart::Message { role: "user", text: String::from_str(prompt) });
    parts.push(ChatPart::AssistantPrefix(think));
    assert(part_views(parts@) =~= seq![
        Part::Message { role: "system"@, text: datetime_context(when@) },
        Part::Message { role: "user"@, text: prompt@ },
        Part::AssistantPrefix(think),
    ]);
    parts
}

/// `s` without the ends of lines at its end.
pub open spec fn without_line_ends(s: Seq<char>) -> Seq<char>
    decreases s.len(),
{
    if s.len() > 0 && (s.last() == '\r' || s.last() == '\n') {
        without_line_ends(s.drop_last())
    } else {
        s
    }
}

/// The time that a clock program printed, or `fallback` where it failed or
/// printed none.
pub open spec fn clock_text(success: bool, stdout: Seq<u8>, fallback: Seq<char>) -> Seq<char> {
    if success && valid_utf8(stdout) && without_line_ends(decode_utf8(stdout)).len() > 0 {
        without_line_ends(decode_utf8(stdout))
    } else {
        fallback
    }
}

/// The time that a clock program printed, or `fallback`.
pub fn validate_clock_output(success: bool, stdout: &[u8], fallback: &str) -> (r: String)
    ensures
        r@ == clock_text(success, stdout@, fallback@),
{
    if success {
        if let Some(s) = utf8_str(stdout) {
            let cs = chars_of(s);
            let mut n: usize = cs.len();
            assert(cs@.subrange(0, n as int) =~= cs@);
            while n > 0 && (cs[n - 1] == '\r' || cs[n - 1] == '\n')
                invariant
                    n <= cs@.len(),
                    without_line_ends(cs@) == without_line_ends(cs@.subrange(0, n as int)),
                decreases n,
            {
                assert(cs@.subrange(0, n as int).drop_last() =~= cs@.subrange(0, n - 1));
                n -= 1;
            }
            if n > 0 {
                return substring(cs.as_slice(), 0, n);
            }
        }
    }
    String::from_str(fallback)
}

/// A seed out of the time and the number of the process.
pub fn seed_of(seconds: u64, nanos: u32, process: u32) -> (r: u64)
    ensures
        r == seconds ^ ((process as u64) << 32u64) ^ (nanos as u64),
{
    seconds ^ ((process as u64) << 32u64) ^ (nanos as u64)
}

/// What a turn does next.
#[derive(Clone, Copy, Debug, PartialEq, Eq, Structural)]
pub enum TurnAction {
    /// Measure the room in the context, then begin a round.
    Begin,
    /// Sample a token.
    Sample,
    /// Evaluate the token and get its text.
    Eval(i32),
    /// End the reply in the conversation.
    Close,
    /// Carry out the tool block of the reply.
    Tools,
    /// Write the output.
    Done,
}

/// How many tokens a round may make: no more than `tokens`, and one place of
/// the context stays free.
pub open spec fn round_limit(tokens: i32, ctx: i32, pos: i32) -> int {
    let room = (if ctx - pos > i32::MAX {
        i32::MAX as int
    } else if ctx - pos < i32::MIN {
        i32::MIN as int
    } else {
        ctx - pos
    });
    let free = if room == i32::MIN {
        room
    } else {
        room - 1
    };
    let least = if tokens < free {
        tokens as int
    } else {
        free
    };
    if least > 0 {
        least
    } else {
        0
    }
}

/// A turn of the agent.
pub struct Turn {
    /// The most tokens of a round, as asked for.
    pub tokens: i32,
    /// The most tokens of this round.
    pub limit: i32,
    /// The tokens of this round.
    pub made: i32,
    /// The reply of this round.
    pub raw: Vec<u8>,
    /// What is shown of the turn.
    pub output: Vec<u8>,
    pub action: TurnAction,
}

impl Turn {
    pub open spec fn well_formed(self) -> bool {
        &&& 0 <= self.made
        &&& match self.action {
            TurnAction::Sample => self.made < self.limit,
            TurnAction::Eval(t) => self.made < self.limit && 0 <= t,
            TurnAction::Tools => web_tools::block_start(self.raw@) is Some,
            _ => true,
        }
    }

    /// Begins a turn.
    pub fn new(tokens: i32) -> (r: Turn)
        ensures
            r.well_formed(),
            r.tokens == tokens,
            r.output@.len() == 0,
            r.action == TurnAction::Begin,
    {
        Turn {
            tokens,
            limit: 0,
            made: 0,
            raw: Vec::new(),
            output: Vec::new(),
            action: TurnAction::Begin,
        }
    }

    /// Begins a round at position `pos` of a context of `ctx`.
    pub fn begin_round(&mut self, ctx: i32, pos: i32)
        requires
            old(self).well_formed(),
            old(self).action == TurnAction::Begin,
        ensures
            final(self).well_formed(),
            final(self).tokens == old(self).tokens,
            final(self).limit == round_limit(old(self).tokens, ctx, pos),
            final(self).made == 0,
            final(self).raw@.len() == 0,
            final(self).output@ == old(self).output@,
            final(self).action == if round_limit(old(self).tokens, ctx, pos) > 0 {
                TurnAction::Sample
            } else {
                TurnAction::Close
            },
    {
        let room: i64 = ctx as i64 - pos as i64;
        let free: i64 = if room > i32::MAX as i64 {
            i32::MAX as i64 - 1
        } else {
            room - 1
        };
        let least: i32 = if (self.tokens as i64) < free {
            self.tokens
        } else if free > 0 {
            free as i32
        } else {
            0
        };
        self.limit = if least > 0 {
            least
        } else {
            0
        };
        self.made = 0;
        self.raw = Vec::new();
        self.action = if self.limit > 0 {
            TurnAction::Sample
        } else {
            TurnAction::Close
        };
    }

    /// `token` was sampled; below 0 there was none. The token `eos` ends the
    /// reply.
    pub fn sampled(&mut self, token: i32, eos: i32) -> (r: Result<(), &'static str>)
        requires
            old(self).well_formed(),
            old(self).action == TurnAction::Sample,
        ensures
            final(self).well_formed(),
            match r {
                Err(e) => token < 0 && e@ == "failed to sample the next token"@ && *final(self)
                    == *old(self),
                Ok(_) => token >= 0 && *final(self) == (Turn {
                    action: if token == eos {
                        TurnAction::Close
                    } else {
                        TurnAction::Eval(token)
                    },
                    ..*old(self)
                }),
            },
    {
        if token < 0 {
            return Err("failed to sample the next token");
        }
        self.action = if token == eos {
            TurnAction::Close
        } else {
            TurnAction::Eval(token)
        };
        Ok(())
    }

    /// The token in hand was evaluated, and its text is `piece`. A complete
    /// tool block ends the reply.
    pub fn evaluated(&mut self, piece: &[u8])
        requires
            old(self).well_formed(),
            old(self).action is Eval,
        ensures
            final(self).well_formed(),
            final(self).tokens == old(self).tokens,
            final(self).limit == old(self).limit,
            final(self).made == old(self).made + 1,
            final(self).raw@ == old(self).raw@ + piece@,
            final(self).output@ == old(self).output@,
            final(self).action == if web_tools::complete(old(self).raw@ + piece@) || old(self).made
                + 1 >= old(self).limit {
                TurnAction::Close
            } else {
                TurnAction::Sample
            },
    {
        self.raw.extend_from_slice(piece);
        assert(self.raw@ =~= old(self).raw@ + piece@);
        self.made = self.made + 1;
        self.action = if block_complete(self.raw.as_slice()) || self.made >= self.limit {
            TurnAction::Close
        } else {
            TurnAction::Sample
        };
    }

    /// The reply has ended. One without a tool block is shown, and ends the
    /// turn.
    pub fn closed(&mut self)
        requires
            old(self).well_formed(),
            old(self).action == TurnAction::Close,
        ensures
            final(self).well_formed(),
            final(self).tokens == old(self).tokens,
            final(self).limit == old(self).limit,
            final(self).made == old(self).made,
            final(self).raw@ == old(self).raw@,
            if web_tools::block_start(old(self).raw@) is Some {
                final(self).action == TurnAction::Tools && final(self).output@ == old(
                    self,
                ).output@
            } else {
                final(self).action == TurnAction::Done && final(self).output@ == old(
                    self,
                ).output@ + output::projected(old(self).raw@)
            },
    {
        proof {
            lemma_block_opens(self.raw@);
        }
        if has_block(self.raw.as_slice()) {
            self.action = TurnAction::Tools;
        } else {
            match project_bytes(self.raw.as_slice()) {
                Ok(shown) => {
                    self.output.extend_from_slice(shown.as_slice());
                    assert(self.output@ =~= old(self).output@ + output::projected(
                        old(self).raw@,
                    ));
                },
                Err(_) => {},
            }
            self.action = TurnAction::Done;
        }
    }

    /// The tool block was carried out, or could not be. Gives what is told to
    /// the model, which then replies again.
    pub fn tools_done(&mut self, round: Option<ToolRound>, think: ChatThinkMode) -> (r: Result<
        Vec<ChatPart>,
        &'static str,
    >)
        requires
            old(self).well_formed(),
            old(self).action == TurnAction::Tools,
        ensures
            final(self).well_formed(),
            final(self).tokens == old(self).tokens,
            match r {
                Err(e) => {
                    &&& round is None || output::opens_block(round->0.visible@)
                    &&& e@ == TOOL_UNSUPPORTED_ERROR@
                    &&& *final(self) == *old(self)
                },
                Ok(parts) => {
                    &&& round is Some && !output::opens_block(round->0.visible@)
                    &&& final(self).action == TurnAction::Begin
                    &&& final(self).raw == old(self).raw
                    &&& final(self).limit == old(self).limit
                    &&& final(self).made == old(self).made
                    &&& final(self).output@ == old(self).output@ + output::projected(
                        round->0.visible@,
                    )
                    &&& part_views(parts@) == seq![
                        Part::Message { role: "tool"@, text: round->0.observation@ },
                        Part::AssistantPrefix(think),
                    ]
                },
            },
    {
        match round {
            None => Err(TOOL_UNSUPPORTED_ERROR),
            Some(round) => match project_bytes(round.visible.as_slice()) {
                Err(e) => Err(e),
                Ok(shown) => {
                    self.output.extend_from_slice(shown.as_slice());
                    self.action = TurnAction::Begin;
                    let ghost text = round.observation@;
                    let mut parts: Vec<ChatPart> = Vec::new();
                    parts.push(ChatPart::Message { role: "tool", text: round.observation });
                    parts.push(ChatPart::AssistantPrefix(think));
                    assert(part_views(parts@) =~= seq![
                        Part::Message { role: "tool"@, text },
                        Part::AssistantPrefix(think),
                    ]);
                    Ok(parts)
                },
            },
        }
    }
}

proof fn lemma_block_opens(raw: Seq<u8>)
    ensures
        web_tools::block_start(raw) is Some == output::opens_block(raw),
{
    bytes::lemma_first_at(raw, output::opener(), 0);
    bytes::lemma_first_at(raw, output::bare_opener(), 0);
}

/// A round never makes so many tokens that the context is full: one place
/// stays free.
pub proof fn law_round_leaves_room(tokens: i32, ctx: i32, pos: i32)
    requires
        0 <= pos < ctx,
    ensures
        0 <= round_limit(tokens, ctx, pos),
        pos + round_limit(tokens, ctx, pos) < ctx,
        tokens >= 0 ==> round_limit(tokens, ctx, pos) <= tokens,
{
}

/// A round makes as many tokens as were asked for, or as fill the context up to
/// its last place, whichever is fewer.
pub proof fn law_round_makes_what_it_may(tokens: i32, ctx: i32, pos: i32)
    requires
        0 <= pos < ctx,
        0 <= tokens,
    ensures
        tokens <= ctx - pos - 1 ==> round_limit(tokens, ctx, pos) == tokens,
        tokens >= ctx - pos - 1 ==> round_limit(tokens, ctx, pos) == ctx - pos - 1,
{
}

proof fn lemma_line_ends(s: Seq<char>, ends: Seq<char>)
    requires
        s.len() > 0,
        s.last() != '\r' && s.last() != '\n',
        forall|k: int| 0 <= k < ends.len() ==> #[trigger] ends[k] == '\r' || ends[k] == '\n',
    ensures
        without_line_ends(s + ends) == s,
    decreases ends.len(),
{
    if ends.len() > 0 {
        assert((s + ends).last() == ends[ends.len() - 1]);
        assert((s + ends).drop_last() =~= s + ends.drop_last());
        lemma_line_ends(s, ends.drop_last());
    } else {
        assert(s + ends =~= s);
    }
}

/// The time is what the clock program printed, without the ends of lines behind
/// it; where the program fails or prints no text it is `fallback`.
pub proof fn law_clock_is_read(
    printed: Seq<char>,
    ends: Seq<char>,
    other: Seq<u8>,
    fallback: Seq<char>,
)
    requires
        printed.len() > 0,
        printed.last() != '\r' && printed.last() != '\n',
        forall|k: int| 0 <= k < ends.len() ==> #[trigger] ends[k] == '\r' || ends[k] == '\n',
    ensures
        clock_text(true, encode_utf8(printed + ends), fallback) == printed,
        clock_text(false, other, fallback) == fallback,
        !valid_utf8(other) ==> clock_text(true, other, fallback) == fallback,
        clock_text(true, encode_utf8(seq![]), fallback) == fallback,
{
    encode_utf8_valid_utf8(printed + ends);
    encode_utf8_decode_utf8(printed + ends);
    encode_utf8_valid_utf8(seq![]);
    encode_utf8_decode_utf8(seq![]);
    lemma_line_ends(printed, ends);
}

} // verus!
