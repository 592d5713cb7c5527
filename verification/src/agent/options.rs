//! The options of the agent.

use crate::args;
use crate::args::{
    parse_backend, parse_f32_range, parse_positive_i32, parse_positive_u64, Arg,
    F32_HUNDRED, F32_ONE, F32_TWENTIETH,
};
use crate::model::Backend;
use crate::text;
use crate::text::{push_i64, str_eq};
use vstd::prelude::*;
use vstd::string::*;

verus! {

/// How much the model thinks before it answers.
#[derive(Clone, Copy, Debug, PartialEq, Eq, Structural)]
pub enum ChatThinkMode {
    Disabled,
    Low,
    High,
    Max,
}

/// The options of the agent.
#[derive(Debug)]
pub struct AgentArgs {
    pub model: String,
    pub backend: Backend,
    pub ctx: i32,
    pub threads: i32,
    pub tokens: i32,
    pub prompt: Option<String>,
    pub system: String,
    /// The bits of 32-bit floats.
    pub temp: u32,
    pub top_p: u32,
    pub min_p: u32,
    pub seed: u64,
    pub think: ChatThinkMode,
    pub chdir: Option<String>,
    pub non_interactive: bool,
    pub help: bool,
}

/// [`AgentArgs`] as plain values.
pub struct Agent {
    pub model: Seq<char>,
    pub backend: Backend,
    pub ctx: i32,
    pub threads: i32,
    pub tokens: i32,
    pub prompt: Option<Seq<char>>,
    pub system: Seq<char>,
    pub temp: u32,
    pub top_p: u32,
    pub min_p: u32,
    pub seed: u64,
    pub think: ChatThinkMode,
    pub chdir: Option<Seq<char>>,
    pub non_interactive: bool,
    pub help: bool,
}

impl View for AgentArgs {
    type V = Agent;

    open spec fn view(&self) -> Agent {
        Agent {
            model: self.model@,
            backend: self.backend,
            ctx: self.ctx,
            threads: self.threads,
            tokens: self.tokens,
            prompt: args::opt_text(self.prompt),
            system: self.system@,
            temp: self.temp,
            top_p: self.top_p,
            min_p: self.min_p,
            seed: self.seed,
            think: self.think,
            chdir: args::opt_text(self.chdir),
            non_interactive: self.non_interactive,
            help: self.help,
        }
    }
}

/// What holds where no option says otherwise.
pub open spec fn defaults(backend: Backend) -> Agent {
    Agent {
        model: "ds4flash.gguf"@,
        backend,
        ctx: 100000,
        threads: 0,
        tokens: 50000,
        prompt: None,
        system: "You are a helpful coding assistant running inside ds4-agent."@,
        temp: F32_ONE,
        top_p: F32_ONE,
        min_p: F32_TWENTIETH,
        seed: 0,
        think: ChatThinkMode::Low,
        chdir: None,
        non_interactive: false,
        help: false,
    }
}

impl AgentArgs {
    /// What holds where no option says otherwise; `backend` is the one that
    /// the system prefers.
    pub fn with_backend(backend: Backend) -> (r: AgentArgs)
        ensures
            r@ == defaults(backend),
    {
        AgentArgs {
            model: String::from_str("ds4flash.gguf"),
            backend,
            ctx: 100000,
            threads: 0,
            tokens: 50000,
            prompt: None,
            system: String::from_str(
                "You are a helpful coding assistant running inside ds4-agent.",
            ),
            temp: F32_ONE,
            top_p: F32_ONE,
            min_p: F32_TWENTIETH,
            seed: 0,
            think: ChatThinkMode::Low,
            chdir: None,
            non_interactive: false,
            help: false,
        }
    }
}

/// The options.
#[derive(Clone, Copy, Debug, PartialEq, Eq, Structural)]
pub enum AgentOpt {
    Help,
    NonInteractive,
    Think(ChatThinkMode),
    Use(Backend),
    /// An option with a value.
    Valued(AgentValue),
    /// An option that the agent knows and does not carry out.
    Unsupported,
}

/// The options with a value.
#[derive(Clone, Copy, Debug, PartialEq, Eq, Structural)]
pub enum AgentValue {
    Prompt,
    Model,
    Ctx,
    Tokens,
    System,
    Temp,
    TopP,
    MinP,
    Seed,
    Backend,
    Threads,
    Chdir,
}

/// The option with a value that `s` spells.
pub open spec fn value_spelled(s: Seq<char>) -> Option<AgentValue> {
    if s == "-p"@ || s == "--prompt"@ {
        Some(AgentValue::Prompt)
    } else if s == "-m"@ || s == "--model"@ {
        Some(AgentValue::Model)
    } else if s == "-c"@ || s == "--ctx"@ {
        Some(AgentValue::Ctx)
    } else if s == "-n"@ || s == "--tokens"@ {
        Some(AgentValue::Tokens)
    } else if s == "-sys"@ || s == "--system"@ {
        Some(AgentValue::System)
    } else if s == "--temp"@ {
        Some(AgentValue::Temp)
    } else if s == "--top-p"@ {
        Some(AgentValue::TopP)
    } else if s == "--min-p"@ {
        Some(AgentValue::MinP)
    } else if s == "--seed"@ {
        Some(AgentValue::Seed)
    } else if s == "--backend"@ {
        Some(AgentValue::Backend)
    } else if s == "-t"@ || s == "--threads"@ {
        Some(AgentValue::Threads)
    } else if s == "--chdir"@ {
        Some(AgentValue::Chdir)
    } else {
        None
    }
}

fn find_value(s: &str) -> (r: Option<AgentValue>)
    ensures
        r == value_spelled(s@),
{
    if str_eq(s, "-p") || str_eq(s, "--prompt") {
        Some(AgentValue::Prompt)
    } else if str_eq(s, "-m") || str_eq(s, "--model") {
        Some(AgentValue::Model)
    } else if str_eq(s, "-c") || str_eq(s, "--ctx") {
        Some(AgentValue::Ctx)
    } else if str_eq(s, "-n") || str_eq(s, "--tokens") {
        Some(AgentValue::Tokens)
    } else if str_eq(s, "-sys") || str_eq(s, "--system") {
        Some(AgentValue::System)
    } else if str_eq(s, "--temp") {
        Some(AgentValue::Temp)
    } else if str_eq(s, "--top-p") {
        Some(AgentValue::TopP)
    } else if str_eq(s, "--min-p") {
        Some(AgentValue::MinP)
    } else if str_eq(s, "--seed") {
        Some(AgentValue::Seed)
    } else if str_eq(s, "--backend") {
        Some(AgentValue::Backend)
    } else if str_eq(s, "-t") || str_eq(s, "--threads") {
        Some(AgentValue::Threads)
    } else if str_eq(s, "--chdir") {
        Some(AgentValue::Chdir)
    } else {
        None
    }
}

/// `s` spells an option that the agent knows and does not carry out.
pub open spec fn is_unsupported(s: Seq<char>) -> bool {
    ||| s == "--trace"@
    ||| s == "--mtp"@
    ||| s == "--mtp-draft"@
    ||| s == "--mtp-margin"@
    ||| s == "--quality"@
    ||| s == "--power"@
    ||| s == "--warm-weights"@
    ||| s == "--dir-steering-file"@
    ||| s == "--dir-steering-ffn"@
    ||| s == "--dir-steering-attn"@
    ||| s == "--role"@
    ||| s == "--layers"@
    ||| s == "--listen"@
    ||| s == "--coordinator"@
    ||| s == "--dist-prefill-chunk"@
    ||| s == "--dist-prefill-window"@
    ||| s == "--dist-activation-bits"@
    ||| s == "--dist-replay-check"@
    ||| s == "--debug"@
}

fn unsupported(s: &str) -> (r: bool)
    ensures
        r == is_unsupported(s@),
{
    str_eq(s, "--trace") || str_eq(s, "--mtp") || str_eq(s, "--mtp-draft") || str_eq(
        s,
        "--mtp-margin",
    ) || str_eq(s, "--quality") || str_eq(s, "--power") || str_eq(s, "--warm-weights") || str_eq(
        s,
        "--dir-steering-file",
    ) || str_eq(s, "--dir-steering-ffn") || str_eq(s, "--dir-steering-attn") || str_eq(s, "--role")
        || str_eq(s, "--layers") || str_eq(s, "--listen") || str_eq(s, "--coordinator") || str_eq(
        s,
        "--dist-prefill-chunk",
    ) || str_eq(s, "--dist-prefill-window") || str_eq(s, "--dist-activation-bits") || str_eq(
        s,
        "--dist-replay-check",
    ) || str_eq(s, "--debug")
}

/// The option that `s` spells.
pub open spec fn option_spelled(s: Seq<char>) -> Option<AgentOpt> {
    if s == "-h"@ || s == "--help"@ {
        Some(AgentOpt::Help)
    } else if s == "--non-interactive"@ {
        Some(AgentOpt::NonInteractive)
    } else if s == "--think"@ {
        Some(AgentOpt::Think(ChatThinkMode::Low))
    } else if s == "--think-max"@ {
        Some(AgentOpt::Think(ChatThinkMode::High))
    } else if s == "--nothink"@ {
        Some(AgentOpt::Think(ChatThinkMode::Disabled))
    } else if s == "--cuda"@ {
        Some(AgentOpt::Use(Backend::Cuda))
    } else if s == "--metal"@ {
        Some(AgentOpt::Use(Backend::Metal))
    } else if s == "--cpu"@ {
        Some(AgentOpt::Use(Backend::Cpu))
    } else if value_spelled(s) is Some {
        Some(AgentOpt::Valued(value_spelled(s)->0))
    } else if is_unsupported(s) {
        Some(AgentOpt::Unsupported)
    } else {
        None
    }
}

fn find_option(s: &str) -> (r: Option<AgentOpt>)
    ensures
        r == option_spelled(s@),
{
    if str_eq(s, "-h") || str_eq(s, "--help") {
        Some(AgentOpt::Help)
    } else if str_eq(s, "--non-interactive") {
        Some(AgentOpt::NonInteractive)
    } else if str_eq(s, "--think") {
        Some(AgentOpt::Think(ChatThinkMode::Low))
    } else if str_eq(s, "--think-max") {
        Some(AgentOpt::Think(ChatThinkMode::High))
    } else if str_eq(s, "--nothink") {
        Some(AgentOpt::Think(ChatThinkMode::Disabled))
    } else if str_eq(s, "--cuda") {
        Some(AgentOpt::Use(Backend::Cuda))
    } else if str_eq(s, "--metal") {
        Some(AgentOpt::Use(Backend::Metal))
    } else if str_eq(s, "--cpu") {
        Some(AgentOpt::Use(Backend::Cpu))
    } else if let Some(v) = find_value(s) {
        Some(AgentOpt::Valued(v))
    } else if unsupported(s) {
        Some(AgentOpt::Unsupported)
    } else {
        None
    }
}

/// What an option with a value does, where the option was spelled `flag`.
pub open spec fn value_effect(
    a: Agent,
    o: AgentValue,
    flag: Seq<char>,
    v: Seq<char>,
    bits: Option<u32>,
) -> Result<Agent, Seq<char>> {
    let bad = Err(args::invalid_value(flag, v));
    match o {
        AgentValue::Prompt => Ok(Agent { prompt: Some(v), ..a }),
        AgentValue::Model => Ok(Agent { model: v, ..a }),
        AgentValue::System => Ok(Agent { system: v, ..a }),
        AgentValue::Chdir => Ok(Agent { chdir: Some(v), ..a }),
        AgentValue::Ctx => match args::positive_i32(v) {
            Some(ctx) => Ok(Agent { ctx, ..a }),
            None => bad,
        },
        AgentValue::Tokens => match args::positive_i32(v) {
            Some(tokens) => Ok(Agent { tokens, ..a }),
            None => bad,
        },
        AgentValue::Threads => match args::positive_i32(v) {
            Some(threads) => Ok(Agent { threads, ..a }),
            None => bad,
        },
        AgentValue::Temp => match args::float_value(bits, F32_HUNDRED) {
            Some(temp) => Ok(Agent { temp, ..a }),
            None => bad,
        },
        AgentValue::TopP => match args::float_value(bits, F32_ONE) {
            Some(top_p) => Ok(Agent { top_p, ..a }),
            None => bad,
        },
        AgentValue::MinP => match args::float_value(bits, F32_ONE) {
            Some(min_p) => Ok(Agent { min_p, ..a }),
            None => bad,
        },
        AgentValue::Seed => match args::positive_u64(v) {
            Some(seed) => Ok(Agent { seed, ..a }),
            None => bad,
        },
        AgentValue::Backend => match args::backend_named(v) {
            Some(backend) => Ok(Agent { backend, ..a }),
            None => Err("invalid backend: "@ + v),
        },
    }
}

/// The options of the arguments from `i` on, after the options `a`. Help ends
/// the reading.
pub open spec fn options_from(argv: Seq<Arg>, i: int, a: Agent) -> Result<Agent, Seq<char>>
    decreases argv.len() - i,
{
    if i < 0 || i >= argv.len() {
        Ok(a)
    } else {
        let flag = argv[i].text@;
        match option_spelled(flag) {
            Some(AgentOpt::Help) => Ok(Agent { help: true, ..a }),
            Some(AgentOpt::NonInteractive) => options_from(
                argv,
                i + 1,
                Agent { non_interactive: true, ..a },
            ),
            Some(AgentOpt::Think(think)) => options_from(argv, i + 1, Agent { think, ..a }),
            Some(AgentOpt::Use(backend)) => options_from(argv, i + 1, Agent { backend, ..a }),
            Some(AgentOpt::Valued(o)) => if i + 1 >= argv.len() {
                Err("missing value for "@ + flag)
            } else {
                match value_effect(a, o, flag, argv[i + 1].text@, argv[i + 1].f32_bits) {
                    Err(e) => Err(e),
                    Ok(after) => if i + 2 >= argv.len() {
                        Ok(after)
                    } else {
                        options_from(argv, i + 2, after)
                    },
                }
            },
            Some(AgentOpt::Unsupported) => Err(
                flag
                    + " is not implemented in the ds4-agent-rs one-turn shadow; use ./ds4-agent"@,
            ),
            None => Err("unknown option: "@ + flag),
        }
    }
}

/// The whole command line; the first argument is the program's name.
pub open spec fn command_line(argv: Seq<Arg>, backend: Backend) -> Result<Agent, Seq<char>> {
    match options_from(argv, 1, defaults(backend)) {
        Err(e) => Err(e),
        Ok(a) => if a.help {
            Ok(a)
        } else if !a.non_interactive {
            Err("this shadow requires --non-interactive"@)
        } else if a.prompt is None {
            Err("--non-interactive requires -p/--prompt in this one-turn shadow"@)
        } else {
            Ok(a)
        },
    }
}

/// `r` is what `model` states.
pub open spec fn args_match(
    r: Result<AgentArgs, String>,
    model: Result<Agent, Seq<char>>,
) -> bool {
    match (r, model) {
        (Ok(p), Ok(a)) => p@ == a,
        (Err(e), Err(x)) => e@ == x,
        _ => false,
    }
}

/// `r` and the options `after` are what `model` states.
pub open spec fn effect_matches(
    r: Result<(), String>,
    model: Result<Agent, Seq<char>>,
    after: Agent,
) -> bool {
    match (r, model) {
        (Ok(_), Ok(a)) => after == a,
        (Err(e), Err(x)) => e@ == x,
        _ => false,
    }
}

fn apply_text(p: &mut AgentArgs, o: AgentValue, v: &String)
    requires
        o == AgentValue::Prompt || o == AgentValue::Model || o == AgentValue::System || o
            == AgentValue::Chdir,
    ensures
        forall|flag: Seq<char>, bits: Option<u32>|
            value_effect(old(p)@, o, flag, v@, bits) == Ok::<Agent, Seq<char>>(final(p)@),
{
    match o {
        AgentValue::Prompt => {
            p.prompt = Some(v.clone());
        },
        AgentValue::Model => {
            p.model = v.clone();
        },
        AgentValue::System => {
            p.system = v.clone();
        },
        _ => {
            p.chdir = Some(v.clone());
        },
    }
}

fn apply_number(p: &mut AgentArgs, o: AgentValue, flag: &str, value: &Arg) -> (r: Result<
    (),
    String,
>)
    requires
        o == AgentValue::Ctx || o == AgentValue::Tokens || o == AgentValue::Threads || o
            == AgentValue::Seed,
    ensures
        effect_matches(
            r,
            value_effect(old(p)@, o, flag@, value.text@, value.f32_bits),
            final(p)@,
        ),
{
    let v = value.text.as_str();
    if o == AgentValue::Seed {
        return match parse_positive_u64(flag, v) {
            Ok(n) => {
                p.seed = n;
                Ok(())
            },
            Err(e) => Err(e),
        };
    }
    match parse_positive_i32(flag, v) {
        Err(e) => Err(e),
        Ok(n) => {
            match o {
                AgentValue::Ctx => {
                    p.ctx = n;
                },
                AgentValue::Tokens => {
                    p.tokens = n;
                },
                _ => {
                    p.threads = n;
                },
            }
            Ok(())
        },
    }
}

fn apply_float(p: &mut AgentArgs, o: AgentValue, flag: &str, value: &Arg) -> (r: Result<
    (),
    String,
>)
    requires
        o == AgentValue::Temp || o == AgentValue::TopP || o == AgentValue::MinP,
    ensures
        effect_matches(
            r,
            value_effect(old(p)@, o, flag@, value.text@, value.f32_bits),
            final(p)@,
        ),
{
    let max: u32 = if o == AgentValue::Temp {
        F32_HUNDRED
    } else {
        F32_ONE
    };
    match parse_f32_range(flag, value, max) {
        Err(e) => Err(e),
        Ok(x) => {
            match o {
                AgentValue::Temp => {
                    p.temp = x;
                },
                AgentValue::TopP => {
                    p.top_p = x;
                },
                _ => {
                    p.min_p = x;
                },
            }
            Ok(())
        },
    }
}

fn apply_value(p: &mut AgentArgs, o: AgentValue, flag: &str, value: &Arg) -> (r: Result<
    (),
    String,
>)
    ensures
        effect_matches(
            r,
            value_effect(old(p)@, o, flag@, value.text@, value.f32_bits),
            final(p)@,
        ),
{
    match o {
        AgentValue::Prompt | AgentValue::Model | AgentValue::System | AgentValue::Chdir => {
            apply_text(p, o, &value.text);
            Ok(())
        },
        AgentValue::Temp | AgentValue::TopP | AgentValue::MinP => apply_float(p, o, flag, value),
        AgentValue::Backend => match parse_backend(value.text.as_str(), "invalid backend: ") {
            Ok(b) => {
                p.backend = b;
                Ok(())
            },
            Err(e) => Err(e),
        },
        _ => apply_number(p, o, flag, value),
    }
}

fn joined(first: &str, second: &str) -> (r: String)
    ensures
        r@ == first@ + second@,
{
    let mut r = String::from_str(first);
    r.append(second);
    r
}

/// Reads the command line; the first argument is the program's name.
pub fn parse_args(argv: &[Arg], backend: Backend) -> (r: Result<AgentArgs, String>)
    ensures
        args_match(r, command_line(argv@, backend)),
{
    let mut p = AgentArgs::with_backend(backend);
    let n: usize = argv.len();
    let mut i: usize = 1;
    while i < n
        invariant
            1 <= i,
            n == argv@.len(),
            !p@.help,
            options_from(argv@, 1, defaults(backend)) == options_from(argv@, i as int, p@),
        decreases n - i,
    {
        let flag = argv[i].text.as_str();
        match find_option(flag) {
            Some(AgentOpt::Help) => {
                p.help = true;
                return Ok(p);
            },
            Some(AgentOpt::NonInteractive) => {
                p.non_interactive = true;
                i += 1;
            },
            Some(AgentOpt::Think(think)) => {
                p.think = think;
                i += 1;
            },
            Some(AgentOpt::Use(backend)) => {
                p.backend = backend;
                i += 1;
            },
            Some(AgentOpt::Valued(o)) => {
                if n - i <= 1 {
                    return Err(joined("missing value for ", flag));
                }
                match apply_value(&mut p, o, flag, &argv[i + 1]) {
                    Ok(()) => {},
                    Err(e) => {
                        return Err(e);
                    },
                }
                if n - i <= 2 {
                    assert(options_from(argv@, n as int, p@) == Ok::<Agent, Seq<char>>(p@));
                    i = n;
                } else {
                    i += 2;
                }
            },
            Some(AgentOpt::Unsupported) => {
                return Err(
                    joined(
                        flag,
                        " is not implemented in the ds4-agent-rs one-turn shadow; use ./ds4-agent",
                    ),
                );
            },
            None => {
                return Err(joined("unknown option: ", flag));
            },
        }
    }
    if !p.non_interactive {
        return Err(String::from_str("this shadow requires --non-interactive"));
    }
    if p.prompt.is_none() {
        return Err(
            String::from_str("--non-interactive requires -p/--prompt in this one-turn shadow"),
        );
    }
    Ok(p)
}

/// The least context for more than normal thinking.
pub const THINK_EFFORT_MIN_CONTEXT: i32 = 393216;

/// How much is thought: no more than normally in a small context.
pub open spec fn thinking(think: ChatThinkMode, ctx: int) -> ChatThinkMode {
    if (think == ChatThinkMode::High || think == ChatThinkMode::Max) && ctx
        < THINK_EFFORT_MIN_CONTEXT {
        ChatThinkMode::Low
    } else {
        think
    }
}

/// How much is thought with the options `args`.
pub fn effective_think(args: &AgentArgs) -> (r: ChatThinkMode)
    ensures
        r == thinking(args.think, args.ctx as int),
{
    if (args.think == ChatThinkMode::High || args.think == ChatThinkMode::Max) && args.ctx
        < THINK_EFFORT_MIN_CONTEXT {
        ChatThinkMode::Low
    } else {
        args.think
    }
}

/// The warning that the context is too small for the thinking asked for.
pub fn think_warning(name: &str, args: &AgentArgs) -> (r: Option<String>)
    ensures
        match r {
            Some(w) => args.think == ChatThinkMode::High && args.ctx < THINK_EFFORT_MIN_CONTEXT
                && w@ == name@ + ": warning: --think-max needs --ctx >= "@ + text::signed_decimal(
                THINK_EFFORT_MIN_CONTEXT as int,
            ) + "; ctx="@ + text::signed_decimal(args.ctx as int)
                + " uses normal thinking instead"@,
            None => args.think != ChatThinkMode::High || args.ctx >= THINK_EFFORT_MIN_CONTEXT,
        },
{
    if args.think == ChatThinkMode::High && effective_think(args) != ChatThinkMode::High {
        let mut w = String::from_str(name);
        w.append(": warning: --think-max needs --ctx >= ");
        push_i64(&mut w, THINK_EFFORT_MIN_CONTEXT as i64);
        w.append("; ctx=");
        push_i64(&mut w, args.ctx as i64);
        w.append(" uses normal thinking instead");
        Some(w)
    } else {
        None
    }
}

/// An accepted command line that does not ask for help is not interactive and
/// has a prompt.
pub proof fn law_accepted_options(argv: Seq<Arg>, backend: Backend)
    requires
        command_line(argv, backend) is Ok,
        !command_line(argv, backend)->Ok_0.help,
    ensures
        command_line(argv, backend)->Ok_0.non_interactive,
        command_line(argv, backend)->Ok_0.prompt is Some,
{
}

/// What help says behind the program's name.
pub const HELP_TAIL: &'static str = " --non-interactive -p TEXT [options]\n\nOne-turn ds4-agent shadow. Supports google_search, visit_page, read, more, and list. Use ./ds4-agent for other tools, interactive, KV, MTP, or distributed execution.\n\nOptions:\n-m, --model FILE        GGUF model path. Default: ds4flash.gguf\n-c, --ctx N            Context size. Default: 100000\n-n, --tokens N         Max generated tokens. Default: 50000\n-p, --prompt TEXT      Required one-turn prompt.\n--non-interactive      Required shadow mode.\n-sys, --system TEXT    Extra system prompt.\n--temp F               Sampling temperature. Default: 1\n--top-p F              Nucleus probability. Default: 1\n--min-p F              Min-p threshold. Default: 0.05\n--seed N               Nonzero sampling seed.\n--think                Normal thinking mode. Default.\n--think-max            High effort when ctx >= 393216.\n--nothink              Disable thinking.\n--backend NAME         metal, cuda, or cpu.\n--metal, --cuda, --cpu Select backend explicitly.\n-t, --threads N        CPU helper threads.\n--chdir DIR            Change directory before model load.\n-h, --help             Show this help.\n";

/// The help text of the program `name`.
pub fn help_text(name: &str) -> (r: String)
    ensures
        r@ == "Usage: "@ + name@ + HELP_TAIL@,
{
    let mut r = String::from_str("Usage: ");
    r.append(name);
    r.append(HELP_TAIL);
    r
}

proof fn lemma_spelled()
    ensures
        option_spelled("-h"@) == Some(AgentOpt::Help),
        option_spelled("--help"@) == Some(AgentOpt::Help),
        option_spelled("--non-interactive"@) == Some(AgentOpt::NonInteractive),
        option_spelled("--think"@) == Some(AgentOpt::Think(ChatThinkMode::Low)),
        option_spelled("--think-max"@) == Some(AgentOpt::Think(ChatThinkMode::High)),
        option_spelled("--nothink"@) == Some(AgentOpt::Think(ChatThinkMode::Disabled)),
        option_spelled("--cuda"@) == Some(AgentOpt::Use(Backend::Cuda)),
        option_spelled("--metal"@) == Some(AgentOpt::Use(Backend::Metal)),
        option_spelled("--cpu"@) == Some(AgentOpt::Use(Backend::Cpu)),
        option_spelled("-p"@) == Some(AgentOpt::Valued(AgentValue::Prompt)),
        option_spelled("--prompt"@) == Some(AgentOpt::Valued(AgentValue::Prompt)),
        option_spelled("-m"@) == Some(AgentOpt::Valued(AgentValue::Model)),
        option_spelled("--model"@) == Some(AgentOpt::Valued(AgentValue::Model)),
        option_spelled("-c"@) == Some(AgentOpt::Valued(AgentValue::Ctx)),
        option_spelled("--ctx"@) == Some(AgentOpt::Valued(AgentValue::Ctx)),
        option_spelled("-n"@) == Some(AgentOpt::Valued(AgentValue::Tokens)),
        option_spelled("--tokens"@) == Some(AgentOpt::Valued(AgentValue::Tokens)),
        option_spelled("-sys"@) == Some(AgentOpt::Valued(AgentValue::System)),
        option_spelled("--system"@) == Some(AgentOpt::Valued(AgentValue::System)),
        option_spelled("--temp"@) == Some(AgentOpt::Valued(AgentValue::Temp)),
        option_spelled("--top-p"@) == Some(AgentOpt::Valued(AgentValue::TopP)),
        option_spelled("--min-p"@) == Some(AgentOpt::Valued(AgentValue::MinP)),
        option_spelled("--seed"@) == Some(AgentOpt::Valued(AgentValue::Seed)),
        option_spelled("--backend"@) == Some(AgentOpt::Valued(AgentValue::Backend)),
        option_spelled("-t"@) == Some(AgentOpt::Valued(AgentValue::Threads)),
        option_spelled("--threads"@) == Some(AgentOpt::Valued(AgentValue::Threads)),
        option_spelled("--chdir"@) == Some(AgentOpt::Valued(AgentValue::Chdir)),
{
    reveal_strlit("-h");
    reveal_strlit("--help");
    reveal_strlit("--non-interactive");
    reveal_strlit("--think");
    reveal_strlit("--think-max");
    reveal_strlit("--nothink");
    reveal_strlit("--cuda");
    reveal_strlit("--metal");
    reveal_strlit("--cpu");
    reveal_strlit("-p");
    reveal_strlit("--prompt");
    reveal_strlit("-m");
    reveal_strlit("--model");
    reveal_strlit("-c");
    reveal_strlit("--ctx");
    reveal_strlit("-n");
    reveal_strlit("--tokens");
    reveal_strlit("-sys");
    reveal_strlit("--system");
    reveal_strlit("--temp");
    reveal_strlit("--top-p");
    reveal_strlit("--min-p");
    reveal_strlit("--seed");
    reveal_strlit("--backend");
    reveal_strlit("-t");
    reveal_strlit("--threads");
    reveal_strlit("--chdir");
    assert("-h"@.len() == 2);
    assert("--help"@.len() == 6);
    assert("--non-interactive"@.len() == 17);
    assert("--think"@.len() == 7);
    assert("--think-max"@.len() == 11);
    assert("--nothink"@.len() == 9);
    assert("--cuda"@.len() == 6);
    assert("--metal"@.len() == 7);
    assert("--cpu"@.len() == 5);
    assert("-p"@.len() == 2);
    assert("--prompt"@.len() == 8);
    assert("-m"@.len() == 2);
    assert("--model"@.len() == 7);
    assert("-c"@.len() == 2);
    assert("--ctx"@.len() == 5);
    assert("-n"@.len() == 2);
    assert("--tokens"@.len() == 8);
    assert("-sys"@.len() == 4);
    assert("--system"@.len() == 8);
    assert("--temp"@.len() == 6);
    assert("--top-p"@.len() == 7);
    assert("--min-p"@.len() == 7);
    assert("--seed"@.len() == 6);
    assert("--backend"@.len() == 9);
    assert("-t"@.len() == 2);
    assert("--threads"@.len() == 9);
    assert("--chdir"@.len() == 7);
    assert("--backend"@[2] == 'b');
    assert("--chdir"@[2] == 'c');
    assert("--cpu"@[3] == 'p');
    assert("--ctx"@[3] == 't');
    assert("--cuda"@[2] == 'c');
    assert("--help"@[2] == 'h');
    assert("--metal"@[2] == 'm');
    assert("--metal"@[3] == 'e');
    assert("--min-p"@[2] == 'm');
    assert("--min-p"@[3] == 'i');
    assert("--model"@[2] == 'm');
    assert("--model"@[3] == 'o');
    assert("--nothink"@[2] == 'n');
    assert("--prompt"@[2] == 'p');
    assert("--seed"@[2] == 's');
    assert("--system"@[2] == 's');
    assert("--temp"@[2] == 't');
    assert("--think"@[2] == 't');
    assert("--think"@[3] == 'h');
    assert("--threads"@[2] == 't');
    assert("--tokens"@[2] == 't');
    assert("--top-p"@[2] == 't');
    assert("--top-p"@[3] == 'o');
    assert("-c"@[1] == 'c');
    assert("-h"@[1] == 'h');
    assert("-m"@[1] == 'm');
    assert("-n"@[1] == 'n');
    assert("-p"@[1] == 'p');
    assert("-t"@[1] == 't');
}

/// An option with a text takes the argument behind it as its value, and changes
/// nothing else.
pub proof fn law_text_options(argv: Seq<Arg>, i: int, a: Agent)
    requires
        0 <= i,
        i + 1 < argv.len(),
    ensures
        (argv[i].text@ == "-p"@ || argv[i].text@ == "--prompt"@) ==> options_from(argv, i, a) == options_from(argv, i + 2, (Agent { prompt: Some(argv[i + 1].text@), ..a })),
        (argv[i].text@ == "-m"@ || argv[i].text@ == "--model"@) ==> options_from(argv, i, a) == options_from(argv, i + 2, (Agent { model: argv[i + 1].text@, ..a })),
        (argv[i].text@ == "-sys"@ || argv[i].text@ == "--system"@) ==> options_from(argv, i, a) == options_from(argv, i + 2, (Agent { system: argv[i + 1].text@, ..a })),
        argv[i].text@ == "--chdir"@ ==> options_from(argv, i, a) == options_from(argv, i + 2, (Agent { chdir: Some(argv[i + 1].text@), ..a })),
        argv[i].text@ == "--backend"@ && argv[i + 1].text@ == "cuda"@ ==> options_from(argv, i, a) == options_from(argv, i + 2, (Agent { backend: Backend::Cuda, ..a })),
        argv[i].text@ == "--backend"@ && argv[i + 1].text@ == "metal"@ ==> options_from(argv, i, a) == options_from(argv, i + 2, (Agent { backend: Backend::Metal, ..a })),
        argv[i].text@ == "--backend"@ && argv[i + 1].text@ == "cpu"@ ==> options_from(argv, i, a) == options_from(argv, i + 2, (Agent { backend: Backend::Cpu, ..a })),
{
    lemma_spelled();
    reveal_strlit("cuda");
    reveal_strlit("metal");
    reveal_strlit("cpu");
    assert("cuda"@.len() == 4 && "metal"@.len() == 5 && "cpu"@.len() == 3);
}

/// An option with a number takes the number behind it, where it is above 0, and
/// changes nothing else. Any other number is refused.
pub proof fn law_number_options(argv: Seq<Arg>, i: int, a: Agent, n: i32)
    requires
        0 <= i,
        i + 1 < argv.len(),
        argv[i + 1].text@ == text::signed_decimal(n as int),
    ensures
        n > 0 && (argv[i].text@ == "-c"@ || argv[i].text@ == "--ctx"@) ==> options_from(argv, i, a) == options_from(argv, i + 2, (Agent { ctx: n, ..a })),
        n <= 0 && (argv[i].text@ == "-c"@ || argv[i].text@ == "--ctx"@) ==> options_from(argv, i, a) == Err::<Agent, Seq<char>>(
            "invalid value for "@ + argv[i].text@ + ": "@ + argv[i + 1].text@,
        ),
        n > 0 && (argv[i].text@ == "-n"@ || argv[i].text@ == "--tokens"@) ==> options_from(argv, i, a) == options_from(argv, i + 2, (Agent { tokens: n, ..a })),
        n <= 0 && (argv[i].text@ == "-n"@ || argv[i].text@ == "--tokens"@) ==> options_from(argv, i, a) == Err::<Agent, Seq<char>>(
            "invalid value for "@ + argv[i].text@ + ": "@ + argv[i + 1].text@,
        ),
        n > 0 && (argv[i].text@ == "-t"@ || argv[i].text@ == "--threads"@) ==> options_from(argv, i, a) == options_from(argv, i + 2, (Agent { threads: n, ..a })),
        n <= 0 && (argv[i].text@ == "-t"@ || argv[i].text@ == "--threads"@) ==> options_from(argv, i, a) == Err::<Agent, Seq<char>>(
            "invalid value for "@ + argv[i].text@ + ": "@ + argv[i + 1].text@,
        ),
{
    lemma_spelled();
    crate::num::law_signed_decimal_round_trip(n);
}

/// A seed is any 64-bit number but 0.
pub proof fn law_seed_option(argv: Seq<Arg>, i: int, a: Agent, n: u64)
    requires
        0 <= i,
        i + 1 < argv.len(),
        argv[i].text@ == "--seed"@,
        argv[i + 1].text@ == text::decimal(n as nat),
    ensures
        n > 0 ==> options_from(argv, i, a) == options_from(argv, i + 2, (Agent { seed: n, ..a })),
        n == 0 ==> options_from(argv, i, a) == Err::<Agent, Seq<char>>(
            "invalid value for "@ + argv[i].text@ + ": "@ + argv[i + 1].text@,
        ),
{
    lemma_spelled();
    crate::num::law_decimal_round_trip(n);
}

/// A temperature lies between 0 and 100, a probability between 0 and 1.
pub proof fn law_float_options(argv: Seq<Arg>, i: int, a: Agent, x: u32)
    requires
        0 <= i,
        i + 1 < argv.len(),
        argv[i + 1].f32_bits == Some(x),
    ensures
        argv[i].text@ == "--temp"@ && (x <= 0x42c8_0000 || x == 0x8000_0000) ==> options_from(argv, i, a) == options_from(argv, i + 2, (Agent { temp: x, ..a })),
        argv[i].text@ == "--temp"@ && x > 0x42c8_0000 && x != 0x8000_0000 ==> options_from(argv, i, a)
            == Err::<Agent, Seq<char>>(
            "invalid value for "@ + argv[i].text@ + ": "@ + argv[i + 1].text@,
        ),
        argv[i].text@ == "--top-p"@ && (x <= 0x3f80_0000 || x == 0x8000_0000) ==> options_from(argv, i, a) == options_from(argv, i + 2, (Agent { top_p: x, ..a })),
        argv[i].text@ == "--top-p"@ && x > 0x3f80_0000 && x != 0x8000_0000 ==> options_from(argv, i, a)
            == Err::<Agent, Seq<char>>(
            "invalid value for "@ + argv[i].text@ + ": "@ + argv[i + 1].text@,
        ),
        argv[i].text@ == "--min-p"@ && (x <= 0x3f80_0000 || x == 0x8000_0000) ==> options_from(argv, i, a) == options_from(argv, i + 2, (Agent { min_p: x, ..a })),
        argv[i].text@ == "--min-p"@ && x > 0x3f80_0000 && x != 0x8000_0000 ==> options_from(argv, i, a)
            == Err::<Agent, Seq<char>>(
            "invalid value for "@ + argv[i].text@ + ": "@ + argv[i + 1].text@,
        ),
{
    lemma_spelled();
}

/// An option without a value sets what it names and nothing else.
pub proof fn law_plain_options(argv: Seq<Arg>, i: int, a: Agent)
    requires
        0 <= i < argv.len(),
    ensures
        argv[i].text@ == "--non-interactive"@ ==> options_from(argv, i, a) == options_from(argv, i + 1, (Agent { non_interactive: true, ..a })),
        argv[i].text@ == "--think"@ ==> options_from(argv, i, a) == options_from(argv, i + 1, (Agent { think: ChatThinkMode::Low, ..a })),
        argv[i].text@ == "--think-max"@ ==> options_from(argv, i, a) == options_from(argv, i + 1, (Agent { think: ChatThinkMode::High, ..a })),
        argv[i].text@ == "--nothink"@ ==> options_from(argv, i, a) == options_from(argv, i + 1, (Agent { think: ChatThinkMode::Disabled, ..a })),
        argv[i].text@ == "--cuda"@ ==> options_from(argv, i, a) == options_from(argv, i + 1, (Agent { backend: Backend::Cuda, ..a })),
        argv[i].text@ == "--metal"@ ==> options_from(argv, i, a) == options_from(argv, i + 1, (Agent { backend: Backend::Metal, ..a })),
        argv[i].text@ == "--cpu"@ ==> options_from(argv, i, a) == options_from(argv, i + 1, (Agent { backend: Backend::Cpu, ..a })),
        argv[i].text@ == "-h"@ || argv[i].text@ == "--help"@ ==> options_from(argv, i, a) == Ok::<
            Agent,
            Seq<char>,
        >((Agent { help: true, ..a })),
{
    lemma_spelled();
}

/// More than normal thinking takes a context of 393216 tokens; less thinking is
/// as it was asked for.
pub proof fn law_effort_takes_room(think: ChatThinkMode, ctx: int)
    ensures
        ctx >= 393216 ==> thinking(think, ctx) == think,
        think == ChatThinkMode::Low || think == ChatThinkMode::Disabled ==> thinking(think, ctx)
            == think,
        ctx < 393216 && think != ChatThinkMode::Disabled ==> thinking(think, ctx)
            == ChatThinkMode::Low,
{
}

} // verus!
