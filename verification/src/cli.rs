//! The command-line host: what a command line asks to be done, and the text
//! that is printed for it.

pub mod dump;
pub mod one_shot;
pub mod options;

pub use crate::cli::options::{parse_args, Shadow, ShadowArgs};

use crate::model::Backend;
use crate::text;
use crate::text::{push_hex_byte, push_i64, push_u64, starts_with};
use vstd::prelude::*;
use vstd::string::*;

verus! {

/// The text that opens a prompt which is already rendered.
pub open spec fn deepseek_bos() -> Seq<char> {
    "<｜begin▁of▁sentence｜>"@
}

/// Whether `prompt` is already rendered as a chat.
pub fn is_rendered_chat_prompt(prompt: &str) -> (r: bool)
    ensures
        r == text::stands_at(prompt@, deepseek_bos(), 0),
{
    starts_with(prompt, "<｜begin▁of▁sentence｜>")
}

/// The least of the two, and not below 0.
pub open spec fn limit(requested: int, room: int) -> int {
    let least = if requested < room {
        requested
    } else {
        room
    };
    if least > 0 {
        least
    } else {
        0
    }
}

/// `n` held to the range of an `i32`.
pub open spec fn saturated(n: int) -> int {
    if n > i32::MAX {
        i32::MAX as int
    } else if n < i32::MIN {
        i32::MIN as int
    } else {
        n
    }
}

fn saturating_difference(a: i32, b: i32) -> (r: i32)
    ensures
        r == saturated(a - b),
{
    let d: i64 = a as i64 - b as i64;
    if d > i32::MAX as i64 {
        i32::MAX
    } else if d < i32::MIN as i64 {
        i32::MIN
    } else {
        d as i32
    }
}

fn limited(requested: i32, room: i32) -> (r: i32)
    ensures
        r == limit(requested as int, room as int),
{
    let least: i32 = if requested < room {
        requested
    } else {
        room
    };
    if least > 0 {
        least
    } else {
        0
    }
}

/// How many tokens may be generated at position `pos` of a context of `ctx`.
pub fn generation_limit(ctx: i32, pos: i32, requested: i32) -> (r: i32)
    ensures
        r == limit(requested as int, saturated(ctx - pos)),
{
    limited(requested, saturating_difference(ctx, pos))
}

/// How many tokens may be sampled: each is evaluated, so one place stays free.
pub fn sampled_generation_limit(ctx: i32, pos: i32, requested: i32) -> (r: i32)
    ensures
        r == limit(requested as int, saturated(saturated(ctx - pos) - 1)),
{
    limited(requested, saturating_difference(saturating_difference(ctx, pos), 1))
}

/// Generation stays within the context, and sampling leaves one place free.
pub proof fn law_generation_stays_within_context(ctx: i32, pos: i32, requested: i32)
    requires
        0 <= pos <= ctx,
    ensures
        pos + limit(requested as int, saturated(ctx - pos)) <= ctx,
        pos < ctx ==> pos + limit(requested as int, saturated(saturated(ctx - pos) - 1)) < ctx,
        0 <= limit(requested as int, saturated(ctx - pos)),
        requested >= 0 ==> limit(requested as int, saturated(ctx - pos)) <= requested,
{
}

/// Where the prompt of a generation comes from.
#[derive(Clone, Copy, Debug, PartialEq, Eq, Structural)]
pub enum PromptSource {
    Text,
    File,
}

pub open spec fn no_prompt() -> Seq<char> {
    "one-shot generation requires -p or --prompt-file; REPL is not implemented"@
}

/// The source of the prompt, or why there is none.
pub open spec fn prompt_source_of(s: Shadow) -> Result<PromptSource, Seq<char>> {
    match (s.prompt, s.prompt_file) {
        (Some(_), None) => Ok(PromptSource::Text),
        (None, Some(_)) => Ok(PromptSource::File),
        (Some(_), Some(_)) => Err("specify only one prompt source"@),
        (None, None) => Err(no_prompt()),
    }
}

/// `r` is what `model` states.
pub open spec fn agrees<T>(r: Result<T, String>, model: Result<T, Seq<char>>) -> bool {
    match (r, model) {
        (Ok(a), Ok(b)) => a == b,
        (Err(e), Err(x)) => e@ == x,
        _ => false,
    }
}

/// The source of the prompt.
pub fn prompt_source(args: &ShadowArgs) -> (r: Result<PromptSource, String>)
    ensures
        agrees(r, prompt_source_of(args@)),
{
    reveal(ShadowArgs::model);
    match (&args.prompt, &args.prompt_file) {
        (Some(_), None) => Ok(PromptSource::Text),
        (None, Some(_)) => Ok(PromptSource::File),
        (Some(_), Some(_)) => Err(String::from_str("specify only one prompt source")),
        (None, None) => Err(
            String::from_str(
                "one-shot generation requires -p or --prompt-file; REPL is not implemented",
            ),
        ),
    }
}

/// Why a one-shot generation is refused.
pub open spec fn one_shot_refusal(s: Shadow) -> Option<Seq<char>> {
    if s.prompt is None && s.prompt_file is None {
        Some(no_prompt())
    } else if s.mtp is Some || s.dspark is Some {
        Some("one-shot generation with --mtp/--dspark is not implemented in ds4-rs"@)
    } else {
        None
    }
}

/// Whether the options allow a one-shot generation.
pub fn validate_one_shot_args(args: &ShadowArgs) -> (r: Result<(), String>)
    ensures
        match (r, one_shot_refusal(args@)) {
            (Ok(_), None) => true,
            (Err(e), Some(m)) => e@ == m,
            _ => false,
        },
{
    reveal(ShadowArgs::model);
    if args.prompt.is_none() && args.prompt_file.is_none() {
        return Err(
            String::from_str(
                "one-shot generation requires -p or --prompt-file; REPL is not implemented",
            ),
        );
    }
    if args.mtp.is_some() || args.dspark.is_some() {
        return Err(
            String::from_str(
                "one-shot generation with --mtp/--dspark is not implemented in ds4-rs",
            ),
        );
    }
    Ok(())
}

/// What a command line asks to be done.
#[derive(Clone, Copy, Debug, PartialEq, Eq, Structural)]
pub enum RunAction {
    Help,
    SessionPlan,
    SessionPayload,
    Layout,
    BindNames,
    Identify,
    Inventory,
    BindPlan,
    Validate,
    Tokenize,
    Generate,
}

/// The action that the options ask for: the first that applies, in this order.
pub open spec fn action_of(s: Shadow) -> Result<RunAction, Seq<char>> {
    if s.help {
        Ok(RunAction::Help)
    } else if s.session_plan {
        if s.session_cmd is Some {
            Ok(RunAction::SessionPlan)
        } else {
            Err("--session-plan requires CMD"@)
        }
    } else if s.session_payload {
        if s.payload_cmd is Some {
            Ok(RunAction::SessionPayload)
        } else {
            Err("--session-payload requires CMD"@)
        }
    } else if s.layout {
        if s.layout_variant is Some {
            Ok(RunAction::Layout)
        } else {
            Err("--layout requires VARIANT"@)
        }
    } else if s.bind_names && !s.bind_plan {
        if s.bind_names_variant is Some {
            Ok(RunAction::BindNames)
        } else {
            Err("--bind-names requires VARIANT"@)
        }
    } else if s.model is None {
        Err("missing -m/--model (or pass --help)"@)
    } else if s.identify {
        Ok(RunAction::Identify)
    } else if s.inventory {
        Ok(RunAction::Inventory)
    } else if s.bind_plan {
        Ok(RunAction::BindPlan)
    } else if s.validate {
        Ok(RunAction::Validate)
    } else if s.tokenize {
        if s.tok_family is Some {
            Ok(RunAction::Tokenize)
        } else {
            Err(" --tokenize requires FAMILY"@)
        }
    } else {
        Ok(RunAction::Generate)
    }
}

/// The action that the options ask for.
pub fn run_action(args: &ShadowArgs) -> (r: Result<RunAction, String>)
    ensures
        agrees(r, action_of(args@)),
{
    reveal(ShadowArgs::model);
    if args.help {
        return Ok(RunAction::Help);
    }
    if args.session_plan {
        return if args.session_cmd.is_some() {
            Ok(RunAction::SessionPlan)
        } else {
            Err(String::from_str("--session-plan requires CMD"))
        };
    }
    if args.session_payload {
        return if args.payload_cmd.is_some() {
            Ok(RunAction::SessionPayload)
        } else {
            Err(String::from_str("--session-payload requires CMD"))
        };
    }
    if args.layout {
        return if args.layout_variant.is_some() {
            Ok(RunAction::Layout)
        } else {
            Err(String::from_str("--layout requires VARIANT"))
        };
    }
    if args.bind_names && !args.bind_plan {
        return if args.bind_names_variant.is_some() {
            Ok(RunAction::BindNames)
        } else {
            Err(String::from_str("--bind-names requires VARIANT"))
        };
    }
    if args.model.is_none() {
        return Err(String::from_str("missing -m/--model (or pass --help)"));
    }
    if args.identify {
        return Ok(RunAction::Identify);
    }
    if args.inventory {
        return Ok(RunAction::Inventory);
    }
    if args.bind_plan {
        return Ok(RunAction::BindPlan);
    }
    if args.validate {
        return Ok(RunAction::Validate);
    }
    if args.tokenize {
        return if args.tok_family.is_some() {
            Ok(RunAction::Tokenize)
        } else {
            Err(String::from_str(" --tokenize requires FAMILY"))
        };
    }
    Ok(RunAction::Generate)
}

/// What a generation does once the model is open.
#[derive(Clone, Copy, Debug, PartialEq, Eq, Structural)]
pub enum GenerateAction {
    DumpLogprobs,
    Lifecycle,
    RawTokens,
    /// The session is opened and nothing more.
    OpenOnly,
    OneShot,
}

/// Raw tokens are asked for.
pub open spec fn raw_tokens(s: Shadow) -> bool {
    s.tokens.len() > 0 || s.predict > 0
}

/// What the generation does; refused without a prompt where it needs one.
pub open spec fn generate_action_of(s: Shadow) -> Result<GenerateAction, Seq<char>> {
    if s.prompt is Some && s.prompt_file is Some {
        Err("specify only one prompt source"@)
    } else if s.dump_logprobs is None && !s.lifecycle_only && !raw_tokens(s) && one_shot_refusal(s)
        is Some {
        Err(one_shot_refusal(s)->0)
    } else if s.dump_logprobs is Some && s.prompt is None && s.prompt_file is None {
        Err("--dump-logprobs requires -p or --prompt-file"@)
    } else if s.dump_logprobs is Some {
        Ok(GenerateAction::DumpLogprobs)
    } else if s.lifecycle_only {
        Ok(GenerateAction::Lifecycle)
    } else if s.tokens.len() > 0 {
        Ok(GenerateAction::RawTokens)
    } else if s.predict > 0 {
        Ok(GenerateAction::OpenOnly)
    } else {
        Ok(GenerateAction::OneShot)
    }
}

/// What the generation does.
pub fn generate_action(args: &ShadowArgs) -> (r: Result<GenerateAction, String>)
    ensures
        agrees(r, generate_action_of(args@)),
{
    reveal(ShadowArgs::model);
    if args.prompt.is_some() && args.prompt_file.is_some() {
        return Err(String::from_str("specify only one prompt source"));
    }
    let raw: bool = args.tokens.len() > 0 || args.predict > 0;
    if args.dump_logprobs.is_none() && !args.lifecycle_only && !raw {
        match validate_one_shot_args(args) {
            Ok(()) => {},
            Err(e) => {
                return Err(e);
            },
        }
    }
    if args.dump_logprobs.is_some() && args.prompt.is_none() && args.prompt_file.is_none() {
        return Err(String::from_str("--dump-logprobs requires -p or --prompt-file"));
    }
    if args.dump_logprobs.is_some() {
        return Ok(GenerateAction::DumpLogprobs);
    }
    if args.lifecycle_only {
        return Ok(GenerateAction::Lifecycle);
    }
    if args.tokens.len() > 0 {
        return Ok(GenerateAction::RawTokens);
    }
    if args.predict > 0 {
        return Ok(GenerateAction::OpenOnly);
    }
    Ok(GenerateAction::OneShot)
}

/// A one-shot generation always has exactly one prompt.
pub proof fn law_one_shot_has_a_prompt(s: Shadow)
    requires
        generate_action_of(s) == Ok::<GenerateAction, Seq<char>>(GenerateAction::OneShot)
            || generate_action_of(s) == Ok::<GenerateAction, Seq<char>>(
            GenerateAction::DumpLogprobs,
        ),
    ensures
        prompt_source_of(s) is Ok,
{
}

/// The line that reports an open session.
pub fn lifecycle_line(backend: Backend, ctx: i32, pos: i32) -> (r: String)
    ensures
        r@ == "lifecycle ok backend="@ + backend.spec_label() + " ctx="@ + text::signed_decimal(
            ctx as int,
        ) + " pos="@ + text::signed_decimal(pos as int),
{
    let mut r = String::from_str("lifecycle ok backend=");
    r.append(backend.label());
    r.append(" ctx=");
    push_i64(&mut r, ctx as i64);
    r.append(" pos=");
    push_i64(&mut r, pos as i64);
    r
}

/// The context of a dump: the one that was asked for, or one that grows to fit
/// the prompt and the output.
pub fn dump_context(args: &ShadowArgs, n_prompt: i32) -> (r: i32)
    requires
        !args.ctx_set ==> i32::MIN <= n_prompt + args.n_predict <= i32::MAX - 8,
    ensures
        r == if args.ctx_set || args.ctx > n_prompt + args.n_predict + 8 {
            args.ctx as int
        } else {
            n_prompt + args.n_predict + 8
        },
{
    if args.ctx_set {
        return args.ctx;
    }
    let grown: i32 = n_prompt + args.n_predict + 8;
    if args.ctx > grown {
        args.ctx
    } else {
        grown
    }
}

/// The most alternatives that a dump lists.
pub const TOP_K_CAP: usize = 128;

/// How many alternatives a dump lists: at least one, at most the cap.
pub fn dump_top_k(asked: i32) -> (r: usize)
    ensures
        r == if asked < 1 {
            1
        } else if asked > TOP_K_CAP {
            TOP_K_CAP as int
        } else {
            asked as int
        },
{
    if asked < 1 {
        1
    } else if asked > 128 {
        TOP_K_CAP
    } else {
        asked as usize
    }
}

/// How many tokens a dump generates: the last place stays free.
pub fn dump_limit(ctx: i32, pos: i32, requested: i32) -> (r: i32)
    requires
        i32::MIN <= ctx - pos <= i32::MAX,
    ensures
        r == if ctx - pos <= 1 {
            0
        } else if requested > ctx - pos - 1 {
            ctx - pos - 1
        } else {
            requested as int
        },
{
    let room: i32 = ctx - pos;
    if room <= 1 {
        0
    } else if requested > room - 1 {
        room - 1
    } else {
        requested
    }
}

/// The opening lines of a dump.
pub fn dump_header(n_prompt: i32, ctx: i32, k: usize) -> (r: String)
    ensures
        r@ == "{\n  \"source\":\"ds4\",\n  \"prompt_tokens\":"@ + text::signed_decimal(
            n_prompt as int,
        ) + ",\n  \"ctx\":"@ + text::signed_decimal(ctx as int) + ",\n  \"top_k\":"@
            + text::decimal(k as nat) + ",\n  \"steps\":[\n"@,
{
    let mut r = String::from_str("{\n  \"source\":\"ds4\",\n  \"prompt_tokens\":");
    push_i64(&mut r, n_prompt as i64);
    r.append(",\n  \"ctx\":");
    push_i64(&mut r, ctx as i64);
    r.append(",\n  \"top_k\":");
    push_u64(&mut r, k as u64);
    r.append(",\n  \"steps\":[\n");
    r
}

/// The closing lines of a dump.
pub fn dump_footer() -> (r: &'static str)
    ensures
        r@ == "\n  ]\n}\n"@,
{
    "\n  ]\n}\n"
}

/// One alternative of a dump: the token, its JSON form, and its two scores in
/// decimal.
pub struct ScoreText {
    pub id: i32,
    pub json: String,
    pub logit: String,
    pub logprob: String,
}

/// The alternatives from `i` on; one without a token ends the list.
pub open spec fn scores_text(scores: Seq<ScoreText>, i: int) -> Seq<char>
    decreases scores.len() - i,
{
    if i < 0 || i >= scores.len() || scores[i].id < 0 {
        seq![]
    } else {
        (if i > 0 {
            ","@
        } else {
            seq![]
        }) + ("{\"token\":"@ + scores[i].json@ + ",\"logit\":"@ + scores[i].logit@
            + ",\"logprob\":"@ + scores[i].logprob@ + "}"@) + scores_text(scores, i + 1)
    }
}

/// One step of a dump, with a comma in front of all but the first.
pub fn dump_step(generated: i32, selected: &str, scores: &[ScoreText]) -> (r: String)
    ensures
        r@ == (if generated > 0 {
            ",\n"@
        } else {
            seq![]
        }) + ("    {\"step\":"@ + text::signed_decimal(generated as int) + ",\"selected\":"@
            + selected@ + ",\"top_logprobs\":["@) + scores_text(scores@, 0) + "]}"@,
{
    let mut r = String::new();
    if generated > 0 {
        r.append(",\n");
    }
    let mut head = String::from_str("    {\"step\":");
    push_i64(&mut head, generated as i64);
    head.append(",\"selected\":");
    head.append(selected);
    head.append(",\"top_logprobs\":[");
    r.append(head.as_str());
    let ghost start = r@;
    let mut i: usize = 0;
    assert(start + scores_text(scores@, 0) =~= start + scores_text(scores@, i as int));
    while i < scores.len() && scores[i].id >= 0
        invariant
            i <= scores@.len(),
            start + scores_text(scores@, 0) == r@ + scores_text(scores@, i as int),
        decreases scores@.len() - i,
    {
        let ghost before = r@;
        if i > 0 {
            r.append(",");
        }
        let mut one = String::from_str("{\"token\":");
        one.append(scores[i].json.as_str());
        one.append(",\"logit\":");
        one.append(scores[i].logit.as_str());
        one.append(",\"logprob\":");
        one.append(scores[i].logprob.as_str());
        one.append("}");
        r.append(one.as_str());
        assert(before + scores_text(scores@, i as int) =~= r@ + scores_text(scores@, i + 1));
        i += 1;
    }
    assert(r@ + scores_text(scores@, i as int) =~= r@);
    r.append("]}");
    r
}

/// A byte within a JSON string.
pub open spec fn json_byte(b: u8) -> Seq<char> {
    if b == 0x22 {
        "\\\""@
    } else if b == 0x5c {
        "\\\\"@
    } else if 0x20 <= b <= 0x7e {
        seq![b as char]
    } else {
        "\\u00"@ + text::hex_byte(b)
    }
}

/// The first `n` of `bytes` within a JSON string.
pub open spec fn json_text(bytes: Seq<u8>, n: nat) -> Seq<char>
    decreases n,
{
    if n == 0 {
        seq![]
    } else {
        json_text(bytes, (n - 1) as nat) + json_byte(bytes[n - 1])
    }
}

/// The first `n` of `bytes` as a list of numbers.
pub open spec fn json_list(bytes: Seq<u8>, n: nat) -> Seq<char>
    decreases n,
{
    if n == 0 {
        seq![]
    } else if n == 1 {
        text::decimal(bytes[0] as nat)
    } else {
        json_list(bytes, (n - 1) as nat).push(',') + text::decimal(bytes[n - 1] as nat)
    }
}

/// A token as JSON: its id, its bytes as text, its bytes as numbers.
pub fn json_token(token: i32, bytes: &[u8]) -> (r: String)
    ensures
        r@ == "{\"id\":"@ + text::signed_decimal(token as int) + ",\"text\":\""@ + json_text(
            bytes@,
            bytes@.len(),
        ) + "\",\"bytes\":["@ + json_list(bytes@, bytes@.len()) + "]}"@,
{
    let mut shown = String::new();
    let mut list = String::new();
    let mut i: usize = 0;
    while i < bytes.len()
        invariant
            i <= bytes@.len(),
            shown@ == json_text(bytes@, i as nat),
            list@ == json_list(bytes@, i as nat),
        decreases bytes@.len() - i,
    {
        let b: u8 = bytes[i];
        let mut one = String::new();
        if b == 0x22 {
            one.append("\\\"");
        } else if b == 0x5c {
            one.append("\\\\");
        } else if 0x20 <= b && b <= 0x7e {
            one.push(b as char);
        } else {
            one.append("\\u00");
            push_hex_byte(&mut one, b);
        }
        assert(one@ =~= json_byte(b));
        shown.append(one.as_str());
        if i > 0 {
            list.push(',');
        }
        push_u64(&mut list, b as u64);
        i += 1;
    }
    let mut r = String::from_str("{\"id\":");
    push_i64(&mut r, token as i64);
    r.append(",\"text\":\"");
    r.append(shown.as_str());
    r.append("\",\"bytes\":[");
    r.append(list.as_str());
    r.append("]}");
    r
}

/// The help text of the program `name`.
pub open spec fn help(name: Seq<char>) -> Seq<char> {
    name
        + " — Rust shadow of the C host (same C inference core)\n"@
        + "\n"@
        + "Usage:\n"@
        + "  "@
        + name
        + " --help\n"@
        + "  "@
        + name
        + " -m MODEL --identify\n"@
        + "  "@
        + name
        + " -m MODEL --inventory\n"@
        + "  "@
        + name
        + " --bind-names VARIANT\n"@
        + "  "@
        + name
        + " --layout VARIANT\n"@
        + "  "@
        + name
        + " -m MODEL --bind-plan\n"@
        + "  "@
        + name
        + " -m MODEL --validate\n"@
        + "  "@
        + name
        + " -m MODEL --tokenize FAMILY CMD [ARG]\n"@
        + "  "@
        + name
        + " --session-plan CMD [ARGS...]\n"@
        + "  "@
        + name
        + " --session-payload CMD [ARGS...]\n"@
        + "  "@
        + name
        + " -m MODEL [--backend cuda|cpu|metal] [-c CTX] [--lifecycle]\n"@
        + "  "@
        + name
        + " -m MODEL (-p PROMPT | --prompt-file FILE) [-n N]\n"@
        + "      [--think|--nothink] [--temp F --top-p F --min-p F --seed N]\n"@
        + "  "@
        + name
        + " -m MODEL --token-ids 1,2,3 [--predict N]\n"@
        + "  "@
        + name
        + " -m MODEL [--mtp GGUF] [--dspark GGUF] ...\n"@
        + "  "@
        + name
        + " --cuda -m MODEL --temp 0 -n N [--nothink] --dump-logprobs F \\\n"@
        + "      --logprobs-top-k K (-p PROMPT | --prompt-file FILE)\n"@
        + "\n"@
        + "--mtp/--dspark attach the DeepSeek-only sibling support models; the host\n"@
        + "resolves each sibling bind catalog + expected layouts, native skips that\n"@
        + "sibling's name walk and layout check.\n"@
        + "--dump-logprobs mirrors the C CLI proof loop (chat-template encode via\n"@
        + "the engine, argmax decode, host stop set); ctx grows to fit prompt+n\n"@
        + "unless -c is explicit.\n"@
        + "One-shot sampling uses the native C sampler; an explicit --seed is\n"@
        + "reproducible across the C and Rust hosts.\n"@
        + "Thinking tags follow the C non-TTY byte contract; ANSI coloring is omitted.\n"@
        + "--tokens is the C-compatible output budget; --token-ids is the shadow-only\n"@
        + "raw token-ID diagnostic.\n"@
        + "\n"@
        + "--identify mmaps GGUF metadata only (no CUDA, no ds4_bridge_model_open).\n"@
        + "--inventory mmaps the tensor directory + split remap (no CUDA, no engine open).\n"@
        + "--bind-names dumps the host weights_bind catalog (no GGUF, no engine open).\n"@
        + "--layout dumps the host weights_validate_layout table (no GGUF, no engine open).\n"@
        + "--bind-plan resolves a catalog against the host inventory (no CUDA).\n"@
        + "With --bind-names VARIANT, --bind-plan uses that catalog (including\n"@
        + "mtp-flash / dspark-pro) instead of identifying the GGUF family.\n"@
        + "--validate runs host-owned config_validate (no CUDA, no engine open).\n"@
        + "VARIANT is flash|pro|solar-open2|motif3|exaone-moe|dots3-note\n"@
        + "or DeepSeek sibling mtp-flash|mtp-pro|dspark-flash|dspark-pro.\n"@
        + "--tokenize loads the host-owned GPT-2/BPE vocab (no engine open).\n"@
        + "--session-plan dumps the host session ledger (no engine open).\n"@
        + "--session-payload dumps the host DSV4 prefix codec (no engine open).\n"@
        + "FAMILY is deepseek4|motif3|solar-open2|exaone-moe|dots3-note.\n"@
        + "CMD is specials | encode HEX | render HEX | decode ID | stop ID.\n"@
}

/// The help text of the program `name`.
pub fn help_text(name: &str) -> (r: String)
    ensures
        r@ == help(name@),
{
    let mut r = String::from_str(name);
    r.append(" — Rust shadow of the C host (same C inference core)\n");
    r.append("\n");
    r.append("Usage:\n");
    r.append("  ");
    r.append(name);
    r.append(" --help\n");
    r.append("  ");
    r.append(name);
    r.append(" -m MODEL --identify\n");
    r.append("  ");
    r.append(name);
    r.append(" -m MODEL --inventory\n");
    r.append("  ");
    r.append(name);
    r.append(" --bind-names VARIANT\n");
    r.append("  ");
    r.append(name);
    r.append(" --layout VARIANT\n");
    r.append("  ");
    r.append(name);
    r.append(" -m MODEL --bind-plan\n");
    r.append("  ");
    r.append(name);
    r.append(" -m MODEL --validate\n");
    r.append("  ");
    r.append(name);
    r.append(" -m MODEL --tokenize FAMILY CMD [ARG]\n");
    r.append("  ");
    r.append(name);
    r.append(" --session-plan CMD [ARGS...]\n");
    r.append("  ");
    r.append(name);
    r.append(" --session-payload CMD [ARGS...]\n");
    r.append("  ");
    r.append(name);
    r.append(" -m MODEL [--backend cuda|cpu|metal] [-c CTX] [--lifecycle]\n");
    r.append("  ");
    r.append(name);
    r.append(" -m MODEL (-p PROMPT | --prompt-file FILE) [-n N]\n");
    r.append("      [--think|--nothink] [--temp F --top-p F --min-p F --seed N]\n");
    r.append("  ");
    r.append(name);
    r.append(" -m MODEL --token-ids 1,2,3 [--predict N]\n");
    r.append("  ");
    r.append(name);
    r.append(" -m MODEL [--mtp GGUF] [--dspark GGUF] ...\n");
    r.append("  ");
    r.append(name);
    r.append(" --cuda -m MODEL --temp 0 -n N [--nothink] --dump-logprobs F \\\n");
    r.append("      --logprobs-top-k K (-p PROMPT | --prompt-file FILE)\n");
    r.append("\n");
    r.append("--mtp/--dspark attach the DeepSeek-only sibling support models; the host\n");
    r.append("resolves each sibling bind catalog + expected layouts, native skips that\n");
    r.append("sibling's name walk and layout check.\n");
    r.append("--dump-logprobs mirrors the C CLI proof loop (chat-template encode via\n");
    r.append("the engine, argmax decode, host stop set); ctx grows to fit prompt+n\n");
    r.append("unless -c is explicit.\n");
    r.append("One-shot sampling uses the native C sampler; an explicit --seed is\n");
    r.append("reproducible across the C and Rust hosts.\n");
    r.append("Thinking tags follow the C non-TTY byte contract; ANSI coloring is omitted.\n");
    r.append("--tokens is the C-compatible output budget; --token-ids is the shadow-only\n");
    r.append("raw token-ID diagnostic.\n");
    r.append("\n");
    r.append("--identify mmaps GGUF metadata only (no CUDA, no ds4_bridge_model_open).\n");
    r.append("--inventory mmaps the tensor directory + split remap (no CUDA, no engine open).\n");
    r.append("--bind-names dumps the host weights_bind catalog (no GGUF, no engine open).\n");
    r.append("--layout dumps the host weights_validate_layout table (no GGUF, no engine open).\n");
    r.append("--bind-plan resolves a catalog against the host inventory (no CUDA).\n");
    r.append("With --bind-names VARIANT, --bind-plan uses that catalog (including\n");
    r.append("mtp-flash / dspark-pro) instead of identifying the GGUF family.\n");
    r.append("--validate runs host-owned config_validate (no CUDA, no engine open).\n");
    r.append("VARIANT is flash|pro|solar-open2|motif3|exaone-moe|dots3-note\n");
    r.append("or DeepSeek sibling mtp-flash|mtp-pro|dspark-flash|dspark-pro.\n");
    r.append("--tokenize loads the host-owned GPT-2/BPE vocab (no engine open).\n");
    r.append("--session-plan dumps the host session ledger (no engine open).\n");
    r.append("--session-payload dumps the host DSV4 prefix codec (no engine open).\n");
    r.append("FAMILY is deepseek4|motif3|solar-open2|exaone-moe|dots3-note.\n");
    r.append("CMD is specials | encode HEX | render HEX | decode ID | stop ID.\n");
    r
}

} // verus!
