//! The throughput benchmark: its options, its sweep over context sizes, its
//! table.

use crate::args;
use crate::args::{
    invalid_value_text, parse_backend, parse_nonnegative_i32, parse_positive_i32,
};
use crate::model::Backend;
use crate::text;
use crate::text::{push_i64, push_u64, str_eq};
use vstd::prelude::*;
use vstd::string::*;

verus! {

/// What the reader of the distributed options makes of an argument and those
/// behind it.
#[derive(Debug)]
pub enum DistMatch {
    /// It is none of them.
    NotMatched,
    /// It is one, with so many values behind it.
    Matched(usize),
    /// It is one, and wrong.
    Failed(String),
}

/// One argument, with the 64-bit float that its text writes and what it is
/// among the distributed options.
#[derive(Debug)]
pub struct BenchArg {
    pub text: String,
    /// The bits of the float.
    pub f64_bits: Option<u64>,
    pub dist: DistMatch,
}

/// The part that this host plays in a distributed run.
#[derive(Clone, Copy, Debug, PartialEq, Eq, Structural)]
pub enum Role {
    Single,
    Coordinator,
    Worker,
}

/// What the distributed options come to as a whole: why they are refused, or
/// the role.
#[derive(Debug)]
pub struct DistOutcome {
    pub refused: Option<String>,
    pub role: Role,
}

/// The bits of 1.0.
pub const F64_ONE: u64 = 0x3ff0_0000_0000_0000;

/// The bits of the positive infinity.
pub const F64_INFINITY: u64 = 0x7ff0_0000_0000_0000;

/// The float of bits `bits` is neither infinite nor no number.
pub open spec fn float_finite(bits: u64) -> bool {
    bits % 0x8000_0000_0000_0000 < F64_INFINITY
}

/// The float of bits `bits`, a number, is below 1: it is negative, or its bits
/// are below those of 1.
pub open spec fn float_below_one(bits: u64) -> bool {
    bits >= 0x8000_0000_0000_0000 || bits < F64_ONE
}

/// The options of the benchmark.
#[derive(Debug)]
pub struct BenchArgs {
    pub model: String,
    pub prompt_file: Option<String>,
    pub backend: Backend,
    pub threads: i32,
    pub ctx_start: i32,
    pub ctx_max: i32,
    pub ctx_alloc: i32,
    pub step_incr: i32,
    pub gen_tokens: i32,
    /// The bits of a 64-bit float.
    pub step_mul: u64,
    pub csv: Option<String>,
    pub role: Role,
    pub help: bool,
}

/// [`BenchArgs`] as plain values.
pub struct Bench {
    pub model: Seq<char>,
    pub prompt_file: Option<Seq<char>>,
    pub backend: Backend,
    pub threads: i32,
    pub ctx_start: i32,
    pub ctx_max: i32,
    pub ctx_alloc: i32,
    pub step_incr: i32,
    pub gen_tokens: i32,
    pub step_mul: u64,
    pub csv: Option<Seq<char>>,
    pub role: Role,
    pub help: bool,
}

impl View for BenchArgs {
    type V = Bench;

    open spec fn view(&self) -> Bench {
        Bench {
            model: self.model@,
            prompt_file: args::opt_text(self.prompt_file),
            backend: self.backend,
            threads: self.threads,
            ctx_start: self.ctx_start,
            ctx_max: self.ctx_max,
            ctx_alloc: self.ctx_alloc,
            step_incr: self.step_incr,
            gen_tokens: self.gen_tokens,
            step_mul: self.step_mul,
            csv: args::opt_text(self.csv),
            role: self.role,
            help: self.help,
        }
    }
}

/// What holds where no option says otherwise.
pub open spec fn defaults(backend: Backend) -> Bench {
    Bench {
        model: "ds4flash.gguf"@,
        prompt_file: None,
        backend,
        threads: 0,
        ctx_start: 2048,
        ctx_max: 32768,
        ctx_alloc: 0,
        step_incr: 2048,
        gen_tokens: 128,
        step_mul: F64_ONE,
        csv: None,
        role: Role::Single,
        help: false,
    }
}

impl BenchArgs {
    /// What holds where no option says otherwise; `backend` is the one that
    /// the system prefers.
    pub fn with_backend(backend: Backend) -> (r: BenchArgs)
        ensures
            r@ == defaults(backend),
    {
        BenchArgs {
            model: String::from_str("ds4flash.gguf"),
            prompt_file: None,
            backend,
            threads: 0,
            ctx_start: 2048,
            ctx_max: 32768,
            ctx_alloc: 0,
            step_incr: 2048,
            gen_tokens: 128,
            step_mul: F64_ONE,
            csv: None,
            role: Role::Single,
            help: false,
        }
    }
}

/// The options.
#[derive(Clone, Copy, Debug, PartialEq, Eq, Structural)]
pub enum BenchOpt {
    Help,
    Model,
    PromptFile,
    Backend,
    Cuda,
    Metal,
    Cpu,
    Threads,
    CtxStart,
    CtxMax,
    CtxAlloc,
    StepIncr,
    StepMul,
    GenTokens,
    Csv,
    /// An option that the benchmark knows and does not carry out.
    NotImplemented,
}

/// The option that `s` spells.
pub open spec fn option_spelled(s: Seq<char>) -> Option<BenchOpt> {
    if s == "-h"@ || s == "--help"@ {
        Some(BenchOpt::Help)
    } else if s == "-m"@ || s == "--model"@ {
        Some(BenchOpt::Model)
    } else if s == "--prompt-file"@ {
        Some(BenchOpt::PromptFile)
    } else if s == "--backend"@ {
        Some(BenchOpt::Backend)
    } else if s == "--cuda"@ {
        Some(BenchOpt::Cuda)
    } else if s == "--metal"@ {
        Some(BenchOpt::Metal)
    } else if s == "--cpu"@ {
        Some(BenchOpt::Cpu)
    } else if s == "-t"@ || s == "--threads"@ {
        Some(BenchOpt::Threads)
    } else if s == "--ctx-start"@ {
        Some(BenchOpt::CtxStart)
    } else if s == "--ctx-max"@ {
        Some(BenchOpt::CtxMax)
    } else if s == "--ctx-alloc"@ {
        Some(BenchOpt::CtxAlloc)
    } else if s == "--step-incr"@ {
        Some(BenchOpt::StepIncr)
    } else if s == "--step-mul"@ {
        Some(BenchOpt::StepMul)
    } else if s == "--gen-tokens"@ || s == "--tokens"@ || s == "-n"@ {
        Some(BenchOpt::GenTokens)
    } else if s == "--csv"@ {
        Some(BenchOpt::Csv)
    } else if s == "--chat-prompt-file"@ || s == "-sys"@ || s == "--system"@ || s == "--mtp"@ || s
        == "--mtp-draft"@ || s == "--mtp-margin"@ || s == "--quality"@ || s == "--warm-weights"@
        || s == "--power"@ || s == "--output-head-bench"@ || s == "--dump-frontier-logits-dir"@ {
        Some(BenchOpt::NotImplemented)
    } else {
        None
    }
}

fn find_option(s: &str) -> (r: Option<BenchOpt>)
    ensures
        r == option_spelled(s@),
{
    if str_eq(s, "-h") || str_eq(s, "--help") {
        Some(BenchOpt::Help)
    } else if str_eq(s, "-m") || str_eq(s, "--model") {
        Some(BenchOpt::Model)
    } else if str_eq(s, "--prompt-file") {
        Some(BenchOpt::PromptFile)
    } else if str_eq(s, "--backend") {
        Some(BenchOpt::Backend)
    } else if str_eq(s, "--cuda") {
        Some(BenchOpt::Cuda)
    } else if str_eq(s, "--metal") {
        Some(BenchOpt::Metal)
    } else if str_eq(s, "--cpu") {
        Some(BenchOpt::Cpu)
    } else if str_eq(s, "-t") || str_eq(s, "--threads") {
        Some(BenchOpt::Threads)
    } else if str_eq(s, "--ctx-start") {
        Some(BenchOpt::CtxStart)
    } else if str_eq(s, "--ctx-max") {
        Some(BenchOpt::CtxMax)
    } else if str_eq(s, "--ctx-alloc") {
        Some(BenchOpt::CtxAlloc)
    } else if str_eq(s, "--step-incr") {
        Some(BenchOpt::StepIncr)
    } else if str_eq(s, "--step-mul") {
        Some(BenchOpt::StepMul)
    } else if str_eq(s, "--gen-tokens") || str_eq(s, "--tokens") || str_eq(s, "-n") {
        Some(BenchOpt::GenTokens)
    } else if str_eq(s, "--csv") {
        Some(BenchOpt::Csv)
    } else if str_eq(s, "--chat-prompt-file") || str_eq(s, "-sys") || str_eq(s, "--system")
        || str_eq(s, "--mtp") || str_eq(s, "--mtp-draft") || str_eq(s, "--mtp-margin") || str_eq(
        s,
        "--quality",
    ) || str_eq(s, "--warm-weights") || str_eq(s, "--power") || str_eq(s, "--output-head-bench")
        || str_eq(s, "--dump-frontier-logits-dir") {
        Some(BenchOpt::NotImplemented)
    } else {
        None
    }
}

/// The options with a positive integer replaced.
pub open spec fn with_positive(
    b: Bench,
    o: BenchOpt,
    flag: Seq<char>,
    v: Seq<char>,
) -> Result<Bench, Seq<char>> {
    match args::positive_i32(v) {
        None => Err(args::invalid_value(flag, v)),
        Some(n) => Ok(
            match o {
                BenchOpt::Threads => Bench { threads: n, ..b },
                BenchOpt::CtxStart => Bench { ctx_start: n, ..b },
                BenchOpt::CtxMax => Bench { ctx_max: n, ..b },
                BenchOpt::CtxAlloc => Bench { ctx_alloc: n, ..b },
                _ => Bench { step_incr: n, ..b },
            },
        ),
    }
}

/// What an option with the value `v` does, where the option was spelled
/// `flag`.
pub open spec fn value_effect(
    b: Bench,
    o: BenchOpt,
    flag: Seq<char>,
    v: Seq<char>,
    bits: Option<u64>,
) -> Result<Bench, Seq<char>> {
    match o {
        BenchOpt::Model => Ok(Bench { model: v, ..b }),
        BenchOpt::PromptFile => Ok(Bench { prompt_file: Some(v), ..b }),
        BenchOpt::Csv => Ok(Bench { csv: Some(v), ..b }),
        BenchOpt::Backend => match args::backend_named(v) {
            Some(backend) => Ok(Bench { backend, ..b }),
            None => Err("invalid backend: "@ + v),
        },
        BenchOpt::StepMul => match bits {
            Some(step_mul) if float_finite(step_mul) => Ok(Bench { step_mul, ..b }),
            _ => Err(args::invalid_value(flag, v)),
        },
        BenchOpt::GenTokens => match args::nonnegative_i32(v) {
            Some(gen_tokens) => Ok(Bench { gen_tokens, ..b }),
            None => Err(args::invalid_value(flag, v)),
        },
        _ => with_positive(b, o, flag, v),
    }
}

/// The options of the arguments from `i` on, after the options `b`. Help ends
/// the reading.
pub open spec fn options_from(a: Seq<BenchArg>, i: int, b: Bench) -> Result<Bench, Seq<char>>
    decreases
            if i < a.len() {
                a.len() - i
            } else {
                0
            },
{
    if i < 0 || i >= a.len() {
        Ok(b)
    } else {
        let flag = a[i].text@;
        match option_spelled(flag) {
            Some(BenchOpt::Help) => Ok(Bench { help: true, ..b }),
            Some(BenchOpt::Cuda) => options_from(a, i + 1, Bench { backend: Backend::Cuda, ..b }),
            Some(BenchOpt::Metal) => options_from(
                a,
                i + 1,
                Bench { backend: Backend::Metal, ..b },
            ),
            Some(BenchOpt::Cpu) => options_from(a, i + 1, Bench { backend: Backend::Cpu, ..b }),
            Some(BenchOpt::NotImplemented) => Err(flag + " is not implemented in ds4-bench-rs"@),
            Some(o) => if i + 1 >= a.len() {
                Err(flag + " requires a value"@)
            } else {
                match value_effect(b, o, flag, a[i + 1].text@, a[i + 1].f64_bits) {
                    Ok(after) => options_from(a, i + 2, after),
                    Err(e) => Err(e),
                }
            },
            None => match a[i].dist {
                DistMatch::NotMatched => Err("unsupported ds4-bench-rs option: "@ + flag),
                DistMatch::Failed(e) => Err(e@),
                DistMatch::Matched(n) => options_from(a, i + 1 + n, b),
            },
        }
    }
}

/// What is asked for as a whole is refused, or completed: the context to
/// allocate is one place more than is measured, unless it was given.
pub open spec fn checked(b: Bench, dist: DistOutcome) -> Result<Bench, Seq<char>> {
    let live = b.ctx_max + b.gen_tokens;
    let alloc = if b.ctx_alloc == 0 {
        live + 1
    } else {
        b.ctx_alloc as int
    };
    if b.prompt_file is None {
        Err("--prompt-file is required"@)
    } else if b.ctx_start > b.ctx_max {
        Err("--ctx-start must be <= --ctx-max"@)
    } else if float_below_one(b.step_mul) {
        Err("--step-mul must be >= 1"@)
    } else if live > i32::MAX || alloc > i32::MAX {
        Err("requested context is too large"@)
    } else if alloc <= live {
        Err("--ctx-alloc must be greater than measured context + gen-tokens"@)
    } else if dist.refused is Some {
        Err(dist.refused->0@)
    } else if dist.role == Role::Worker {
        Err("--role worker is a serving mode; start workers with ./ds4"@)
    } else {
        Ok(Bench { ctx_alloc: alloc as i32, role: dist.role, ..b })
    }
}

/// The whole command line.
pub open spec fn command_line(
    a: Seq<BenchArg>,
    backend: Backend,
    dist: DistOutcome,
) -> Result<Bench, Seq<char>> {
    match options_from(a, 1, defaults(backend)) {
        Err(e) => Err(e),
        Ok(b) => if b.help {
            Ok(b)
        } else {
            checked(b, dist)
        },
    }
}

/// `r` is what `model` states.
pub open spec fn args_match(r: Result<BenchArgs, String>, model: Result<Bench, Seq<char>>) -> bool {
    match (r, model) {
        (Ok(p), Ok(b)) => p@ == b,
        (Err(e), Err(x)) => e@ == x,
        _ => false,
    }
}

fn joined(first: &str, second: &str) -> (r: String)
    ensures
        r@ == first@ + second@,
{
    let mut r = String::from_str(first);
    r.append(second);
    r
}

/// `r` and the options `after` are what `model` states.
pub open spec fn effect_matches(
    r: Result<(), String>,
    model: Result<Bench, Seq<char>>,
    after: Bench,
) -> bool {
    match (r, model) {
        (Ok(_), Ok(b)) => after == b,
        (Err(e), Err(x)) => e@ == x,
        _ => false,
    }
}

fn apply_positive(p: &mut BenchArgs, o: BenchOpt, flag: &str, v: &str) -> (r: Result<(), String>)
    ensures
        effect_matches(r, with_positive(old(p)@, o, flag@, v@), final(p)@),
{
    match parse_positive_i32(flag, v) {
        Err(e) => Err(e),
        Ok(n) => {
            match o {
                BenchOpt::Threads => {
                    p.threads = n;
                },
                BenchOpt::CtxStart => {
                    p.ctx_start = n;
                },
                BenchOpt::CtxMax => {
                    p.ctx_max = n;
                },
                BenchOpt::CtxAlloc => {
                    p.ctx_alloc = n;
                },
                _ => {
                    p.step_incr = n;
                },
            }
            Ok(())
        },
    }
}

fn apply_value(p: &mut BenchArgs, o: BenchOpt, flag: &str, value: &BenchArg) -> (r: Result<
    (),
    String,
>)
    ensures
        effect_matches(
            r,
            value_effect(old(p)@, o, flag@, value.text@, value.f64_bits),
            final(p)@,
        ),
{
    let v = value.text.as_str();
    match o {
        BenchOpt::Model => {
            p.model = value.text.clone();
            Ok(())
        },
        BenchOpt::PromptFile => {
            p.prompt_file = Some(value.text.clone());
            Ok(())
        },
        BenchOpt::Csv => {
            p.csv = Some(value.text.clone());
            Ok(())
        },
        BenchOpt::Backend => match parse_backend(v, "invalid backend: ") {
            Ok(b) => {
                p.backend = b;
                Ok(())
            },
            Err(e) => Err(e),
        },
        BenchOpt::StepMul => match value.f64_bits {
            Some(bits) => if bits % 0x8000_0000_0000_0000 < F64_INFINITY {
                p.step_mul = bits;
                Ok(())
            } else {
                Err(invalid_value_text(flag, v))
            },
            None => Err(invalid_value_text(flag, v)),
        },
        BenchOpt::GenTokens => match parse_nonnegative_i32(flag, v) {
            Ok(n) => {
                p.gen_tokens = n;
                Ok(())
            },
            Err(e) => Err(e),
        },
        _ => apply_positive(p, o, flag, v),
    }
}

fn check_options(p: BenchArgs, dist: &DistOutcome) -> (r: Result<BenchArgs, String>)
    ensures
        args_match(r, checked(p@, *dist)),
{
    let mut p = p;
    if p.prompt_file.is_none() {
        return Err(String::from_str("--prompt-file is required"));
    }
    if p.ctx_start > p.ctx_max {
        return Err(String::from_str("--ctx-start must be <= --ctx-max"));
    }
    if p.step_mul >= 0x8000_0000_0000_0000 || p.step_mul < F64_ONE {
        return Err(String::from_str("--step-mul must be >= 1"));
    }
    let live: i64 = p.ctx_max as i64 + p.gen_tokens as i64;
    if live > i32::MAX as i64 {
        return Err(String::from_str("requested context is too large"));
    }
    let alloc: i64 = if p.ctx_alloc == 0 {
        live + 1
    } else {
        p.ctx_alloc as i64
    };
    if alloc > i32::MAX as i64 {
        return Err(String::from_str("requested context is too large"));
    }
    if alloc <= live {
        return Err(
            String::from_str("--ctx-alloc must be greater than measured context + gen-tokens"),
        );
    }
    if let Some(e) = &dist.refused {
        return Err(e.clone());
    }
    if dist.role == Role::Worker {
        return Err(String::from_str("--role worker is a serving mode; start workers with ./ds4"));
    }
    p.ctx_alloc = alloc as i32;
    p.role = dist.role;
    Ok(p)
}

/// Reads the command line `a`; the first argument is the program's name.
pub fn parse_args(a: &[BenchArg], backend: Backend, dist: &DistOutcome) -> (r: Result<
    BenchArgs,
    String,
>)
    ensures
        args_match(r, command_line(a@, backend, *dist)),
{
    let mut p = BenchArgs::with_backend(backend);
    let n: usize = a.len();
    let mut i: usize = 1;
    while i < n
        invariant
            1 <= i,
            n == a@.len(),
            !p@.help,
            options_from(a@, 1, defaults(backend)) == options_from(a@, i as int, p@),
        decreases n - i,
    {
        let flag = a[i].text.as_str();
        match find_option(flag) {
            Some(BenchOpt::Help) => {
                p.help = true;
                return Ok(p);
            },
            Some(BenchOpt::Cuda) => {
                p.backend = Backend::Cuda;
                i += 1;
            },
            Some(BenchOpt::Metal) => {
                p.backend = Backend::Metal;
                i += 1;
            },
            Some(BenchOpt::Cpu) => {
                p.backend = Backend::Cpu;
                i += 1;
            },
            Some(BenchOpt::NotImplemented) => {
                return Err(joined(flag, " is not implemented in ds4-bench-rs"));
            },
            Some(o) => {
                if n - i <= 1 {
                    return Err(joined(flag, " requires a value"));
                }
                match apply_value(&mut p, o, flag, &a[i + 1]) {
                    Ok(()) => {},
                    Err(e) => {
                        return Err(e);
                    },
                }
                i += 2;
            },
            None => match &a[i].dist {
                DistMatch::NotMatched => {
                    return Err(joined("unsupported ds4-bench-rs option: ", flag));
                },
                DistMatch::Failed(e) => {
                    return Err(e.clone());
                },
                DistMatch::Matched(k) => {
                    if *k >= n - i {
                        assert(options_from(a@, i + 1 + *k, p@) == Ok::<Bench, Seq<char>>(p@));
                        assert(options_from(a@, n as int, p@) == Ok::<Bench, Seq<char>>(p@));
                        i = n;
                    } else {
                        i = i + 1 + *k;
                    }
                },
            },
        }
    }
    check_options(p, dist)
}

/// Whether the run is replayed over other hosts instead of from a snapshot.
pub fn uses_distributed_replay(args: &BenchArgs) -> (r: bool)
    ensures
        r == (args.role == Role::Coordinator),
{
    args.role == Role::Coordinator
}

/// The prefill chunk that the steps are measured against: the distributed one,
/// or the session's own where it is 0.
pub open spec fn prefill_chunk(chunk: u32, cap: u32) -> u32 {
    if chunk != 0 {
        chunk
    } else {
        cap
    }
}

/// Steps are smaller than a prefill chunk.
pub open spec fn steps_are_short(b: Bench, chunk: u32) -> bool {
    chunk != 0 && b.step_mul == F64_ONE && 0 < b.step_incr < chunk && b.ctx_start < b.ctx_max
}

/// The note that steps are smaller than a prefill chunk.
pub fn step_shape_note(args: &BenchArgs, chunk: u32, cap: u32) -> (r: Option<String>)
    ensures
        match r {
            Some(note) => steps_are_short(args@, prefill_chunk(chunk, cap)) && note@
                == "ds4-bench-rs: note: --step-incr="@ + text::signed_decimal(
                args.step_incr as int,
            ) + " is smaller than distributed prefill chunk "@ + text::decimal(
                prefill_chunk(chunk, cap) as nat,
            ) + "; suffix rows will not show multi-chunk pipeline overlap"@,
            None => !steps_are_short(args@, prefill_chunk(chunk, cap)),
        },
{
    let c: u32 = if chunk != 0 {
        chunk
    } else {
        cap
    };
    if c != 0 && args.step_mul == F64_ONE && args.step_incr > 0 && (args.step_incr as u32) < c
        && args.ctx_start < args.ctx_max {
        let mut note = String::from_str("ds4-bench-rs: note: --step-incr=");
        push_i64(&mut note, args.step_incr as i64);
        note.append(" is smaller than distributed prefill chunk ");
        push_u64(&mut note, c as u64);
        note.append("; suffix rows will not show multi-chunk pipeline overlap");
        Some(note)
    } else {
        None
    }
}

/// What to do while a distributed route is waited for.
#[derive(Clone, Copy, Debug, PartialEq, Eq, Structural)]
pub enum RouteStep {
    /// Go on; say that the route is ready where it was waited for.
    Ready { announce: bool },
    /// Ask again later; every twentieth time say that the route is waited for.
    Wait { announce: bool },
}

/// What to do after the route was asked for `ticks` times before, and was
/// ready or not now.
pub fn route_step(ticks: u32, ready: bool) -> (r: RouteStep)
    ensures
        r == if ready {
            RouteStep::Ready { announce: ticks != 0 }
        } else {
            RouteStep::Wait { announce: ticks % 20 == 0 }
        },
{
    if ready {
        RouteStep::Ready { announce: ticks != 0 }
    } else {
        RouteStep::Wait { announce: ticks % 20 == 0 }
    }
}

/// Whether the prompt is long enough for the sweep.
pub fn check_prompt(n_tokens: usize, args: &BenchArgs) -> (r: Result<(), String>)
    requires
        0 <= args.ctx_max,
    ensures
        match r {
            Ok(_) => n_tokens >= args.ctx_max,
            Err(e) => n_tokens < args.ctx_max && e@ == "prompt has "@ + text::decimal(
                n_tokens as nat,
            ) + " tokens, need at least "@ + text::signed_decimal(args.ctx_max as int),
        },
{
    if (n_tokens as u64) < args.ctx_max as u64 {
        let mut e = String::from_str("prompt has ");
        push_u64(&mut e, n_tokens as u64);
        e.append(" tokens, need at least ");
        push_i64(&mut e, args.ctx_max as i64);
        return Err(e);
    }
    Ok(())
}

/// The context size after `cur`. `scaled` is `cur` times the factor, rounded
/// up; `None` where that is above `i32::MAX`. It counts only where the factor
/// is not 1. A step always grows, and never passes the last size.
pub open spec fn frontier_after(b: Bench, cur: int, scaled: Option<i32>) -> int {
    let next = if b.step_mul == F64_ONE {
        if i32::MIN <= cur + b.step_incr <= i32::MAX {
            cur + b.step_incr
        } else {
            b.ctx_max as int
        }
    } else {
        match scaled {
            None => b.ctx_max as int,
            Some(v) => if v <= cur {
                cur + 1
            } else {
                v as int
            },
        }
    };
    if cur >= b.ctx_max || next > b.ctx_max {
        b.ctx_max as int
    } else {
        next
    }
}

/// The context size after `cur`.
pub fn next_frontier(args: &BenchArgs, cur: i32, scaled: Option<i32>) -> (r: i32)
    ensures
        r == frontier_after(args@, cur as int, scaled),
{
    if cur >= args.ctx_max {
        return args.ctx_max;
    }
    let next: i32 = if args.step_mul == F64_ONE {
        match cur.checked_add(args.step_incr) {
            Some(v) => v,
            None => args.ctx_max,
        }
    } else {
        match scaled {
            None => args.ctx_max,
            Some(v) => if v <= cur {
                cur + 1
            } else {
                v
            },
        }
    };
    if next > args.ctx_max {
        args.ctx_max
    } else {
        next
    }
}

/// What the options of the command line may hold before they are checked.
pub open spec fn in_range(b: Bench) -> bool {
    &&& 0 < b.ctx_start
    &&& 0 < b.ctx_max
    &&& 0 <= b.ctx_alloc
    &&& 0 < b.step_incr
    &&& 0 <= b.gen_tokens
    &&& 0 <= b.threads
    &&& float_finite(b.step_mul)
}

proof fn lemma_options_in_range(a: Seq<BenchArg>, i: int, b: Bench)
    requires
        in_range(b),
        options_from(a, i, b) is Ok,
    ensures
        in_range(options_from(a, i, b)->Ok_0),
    decreases
            if i < a.len() {
                a.len() - i
            } else {
                0
            },
{
    if 0 <= i < a.len() {
        let flag = a[i].text@;
        match option_spelled(flag) {
            Some(BenchOpt::Help) => {},
            Some(BenchOpt::Cuda) => {
                lemma_options_in_range(a, i + 1, Bench { backend: Backend::Cuda, ..b });
            },
            Some(BenchOpt::Metal) => {
                lemma_options_in_range(a, i + 1, Bench { backend: Backend::Metal, ..b });
            },
            Some(BenchOpt::Cpu) => {
                lemma_options_in_range(a, i + 1, Bench { backend: Backend::Cpu, ..b });
            },
            Some(BenchOpt::NotImplemented) => {},
            Some(o) => {
                if i + 1 < a.len() {
                    let e = value_effect(b, o, flag, a[i + 1].text@, a[i + 1].f64_bits);
                    if e is Ok {
                        lemma_options_in_range(a, i + 2, e->Ok_0);
                    }
                }
            },
            None => {
                if let DistMatch::Matched(n) = a[i].dist {
                    lemma_options_in_range(a, i + 1 + n, b);
                }
            },
        }
    }
}

/// An accepted command line, unless it asks for help, names a prompt, measures
/// from a positive size up to no smaller one by positive steps, with a finite
/// factor of at least 1, and allocates more than what is measured and
/// generated: one place more, unless an option says otherwise.
pub proof fn law_accepted_options(a: Seq<BenchArg>, backend: Backend, dist: DistOutcome)
    requires
        command_line(a, backend, dist) is Ok,
        !command_line(a, backend, dist)->Ok_0.help,
    ensures
        ({
            let b = command_line(a, backend, dist)->Ok_0;
            &&& b.prompt_file is Some
            &&& 0 < b.ctx_start <= b.ctx_max
            &&& 0 < b.step_incr
            &&& 0 <= b.gen_tokens
            &&& float_finite(b.step_mul)
            &&& !float_below_one(b.step_mul)
            &&& b.ctx_max + b.gen_tokens < b.ctx_alloc
            &&& options_from(a, 1, defaults(backend))->Ok_0.ctx_alloc == 0 ==> b.ctx_alloc
                == b.ctx_max + b.gen_tokens + 1
            &&& options_from(a, 1, defaults(backend))->Ok_0.ctx_alloc != 0 ==> b.ctx_alloc
                == options_from(a, 1, defaults(backend))->Ok_0.ctx_alloc
            &&& b.role != Role::Worker
        }),
{
    lemma_options_in_range(a, 1, defaults(backend));
}

/// A sweep ends: from any size below the last, the next is greater, and not
/// greater than the last.
pub proof fn law_frontiers_grow(b: Bench, cur: int, scaled: Option<i32>)
    requires
        i32::MIN <= cur < b.ctx_max,
        b.step_incr > 0,
    ensures
        cur < frontier_after(b, cur, scaled) <= b.ctx_max,
{
}

/// One line of the table; the four rates are in decimal already.
pub struct BenchRow {
    pub ctx_tokens: i32,
    pub prefill_tokens: i32,
    pub prefill_tps: String,
    pub gen_tokens: i32,
    pub gen_tps: String,
    pub gen_tps_ss: String,
    pub first_token_sec: String,
    pub kvcache_bytes: u64,
}

/// What help says.
pub const HELP: &'static str = "Usage: ds4-bench-rs --prompt-file FILE [options]\n\nNon-MTP throughput sweep over one fixed raw prompt.\n\n-m, --model FILE       GGUF model path (default: ds4flash.gguf)\n--cuda|--metal|--cpu   Select backend\n-t, --threads N        CPU helper threads\n--prompt-file FILE     Raw UTF-8 benchmark prompt\n--ctx-start N          First frontier (default: 2048)\n--ctx-max N            Last frontier (default: 32768)\n--ctx-alloc N          Allocated context\n--step-mul F           Multiplicative step (default: 1)\n--step-incr N          Linear step (default: 2048)\n--gen-tokens N         Greedy decode tokens (default: 128)\n--csv FILE             Write CSV instead of stdout\n";

/// What help says.
pub fn help_text() -> (r: &'static str)
    ensures
        r@ == HELP@,
{
    HELP
}

/// The head of the table.
pub const CSV_HEADER: &'static str =
    "ctx_tokens,prefill_tokens,prefill_tps,gen_tokens,gen_tps,gen_tps_ss,first_token_sec,kvcache_bytes";

impl BenchRow {
    /// The line, comma-separated.
    pub fn csv_line(&self) -> (r: String)
        ensures
            r@ == text::signed_decimal(self.ctx_tokens as int) + ","@ + text::signed_decimal(
                self.prefill_tokens as int,
            ) + ","@ + self.prefill_tps@ + ","@ + text::signed_decimal(self.gen_tokens as int)
                + ","@ + self.gen_tps@ + ","@ + self.gen_tps_ss@ + ","@ + self.first_token_sec@
                + ","@ + text::decimal(self.kvcache_bytes as nat),
    {
        let mut r = String::new();
        push_i64(&mut r, self.ctx_tokens as i64);
        assert(r@ =~= text::signed_decimal(self.ctx_tokens as int));
        r.append(",");
        push_i64(&mut r, self.prefill_tokens as i64);
        r.append(",");
        r.append(self.prefill_tps.as_str());
        r.append(",");
        push_i64(&mut r, self.gen_tokens as i64);
        r.append(",");
        r.append(self.gen_tps.as_str());
        r.append(",");
        r.append(self.gen_tps_ss.as_str());
        r.append(",");
        r.append(self.first_token_sec.as_str());
        r.append(",");
        push_u64(&mut r, self.kvcache_bytes);
        r
    }
}

/// What a sweep does next at its frontier.
#[derive(Clone, Copy, Debug, PartialEq, Eq, Structural)]
pub enum SweepAction {
    /// Prefill the first `frontier` tokens of the prompt.
    Prefill,
    /// Save a snapshot of the session.
    Snapshot,
    /// Choose a token other than the end token.
    Choose,
    /// Evaluate the token.
    Eval(i32),
    /// Bring the session back to the frontier: by prefilling again where the
    /// run is distributed, from the snapshot where it is not.
    Restore,
    /// Write a line of the table.
    Row,
    /// Compute the next frontier.
    Advance,
    Done,
}

/// Why a sweep was given up.
#[derive(Clone, Copy, Debug, PartialEq, Eq, Structural)]
pub enum SweepFailure {
    /// The context is full.
    Context,
    /// No token could be chosen.
    Choice,
}

/// A sweep over context sizes.
#[derive(Clone, Copy, Debug, PartialEq, Eq, Structural)]
pub struct Sweep {
    pub distributed: bool,
    pub gen_tokens: i32,
    pub ctx_max: i32,
    /// The size before this one, 0 at the start.
    pub previous: i32,
    pub frontier: i32,
    /// The tokens generated at this size.
    pub generated: i32,
    pub action: SweepAction,
}

impl Sweep {
    pub open spec fn well_formed(self) -> bool {
        &&& 0 <= self.previous <= self.frontier <= self.ctx_max
        &&& 0 <= self.generated
        &&& match self.action {
            SweepAction::Choose => self.generated < self.gen_tokens,
            SweepAction::Eval(t) => self.generated < self.gen_tokens && 0 <= t,
            SweepAction::Advance => self.frontier < self.ctx_max,
            _ => true,
        }
    }

    /// The first action once the tokens of this size are due.
    pub open spec fn generating(self) -> SweepAction {
        if self.generated < self.gen_tokens {
            SweepAction::Choose
        } else if self.gen_tokens > 0 && self.frontier < self.ctx_max {
            SweepAction::Restore
        } else {
            SweepAction::Row
        }
    }

    fn generating_action(&self) -> (r: SweepAction)
        ensures
            r == self.generating(),
    {
        if self.generated < self.gen_tokens {
            SweepAction::Choose
        } else if self.gen_tokens > 0 && self.frontier < self.ctx_max {
            SweepAction::Restore
        } else {
            SweepAction::Row
        }
    }

    /// Begins at the first size.
    pub fn new(args: &BenchArgs) -> (r: Sweep)
        requires
            0 <= args.ctx_start <= args.ctx_max,
        ensures
            r.well_formed(),
            r == (Sweep {
                distributed: args.role == Role::Coordinator,
                gen_tokens: args.gen_tokens,
                ctx_max: args.ctx_max,
                previous: 0,
                frontier: args.ctx_start,
                generated: 0,
                action: SweepAction::Prefill,
            }),
    {
        Sweep {
            distributed: args.role == Role::Coordinator,
            gen_tokens: args.gen_tokens,
            ctx_max: args.ctx_max,
            previous: 0,
            frontier: args.ctx_start,
            generated: 0,
            action: SweepAction::Prefill,
        }
    }

    /// How many tokens the prefill of this size adds.
    pub fn prefill_tokens(&self) -> (r: i32)
        requires
            self.well_formed(),
        ensures
            r == self.frontier - self.previous,
    {
        self.frontier - self.previous
    }

    /// How many of the generated tokens count for the steady rate: all but the
    /// first.
    pub fn steady_tokens(&self) -> (r: i32)
        ensures
            r == if self.gen_tokens > 0 {
                self.gen_tokens - 1
            } else {
                self.gen_tokens as int
            },
    {
        if self.gen_tokens > 0 {
            self.gen_tokens - 1
        } else {
            self.gen_tokens
        }
    }

    /// What is reported where the action in hand failed for the reason `why`.
    pub fn outside_failure(&self, why: &str) -> (r: String)
        ensures
            r@ == match self.action {
                SweepAction::Snapshot => "snapshot at "@ + text::signed_decimal(
                    self.frontier as int,
                ) + " failed: "@ + why@,
                SweepAction::Eval(_) => "decode at frontier "@ + text::signed_decimal(
                    self.frontier as int,
                ) + " failed: "@ + why@,
                SweepAction::Restore => (if self.distributed {
                    "distributed replay restore at "@
                } else {
                    "restore at "@
                }) + text::signed_decimal(self.frontier as int) + " failed: "@ + why@,
                _ => why@,
            },
    {
        let mut r = match self.action {
            SweepAction::Snapshot => String::from_str("snapshot at "),
            SweepAction::Eval(_) => String::from_str("decode at frontier "),
            SweepAction::Restore => if self.distributed {
                String::from_str("distributed replay restore at ")
            } else {
                String::from_str("restore at ")
            },
            _ => {
                return String::from_str(why);
            },
        };
        push_i64(&mut r, self.frontier as i64);
        r.append(" failed: ");
        r.append(why);
        r
    }

    /// The prefill is done. A snapshot is needed only where tokens follow and
    /// the run is not distributed.
    pub fn prefilled(&mut self)
        requires
            old(self).well_formed(),
            old(self).action == SweepAction::Prefill,
        ensures
            final(self).well_formed(),
            *final(self) == (Sweep {
                action: if old(self).gen_tokens > 0 && !old(self).distributed {
                    SweepAction::Snapshot
                } else {
                    old(self).generating()
                },
                ..*old(self)
            }),
    {
        self.action = if self.gen_tokens > 0 && !self.distributed {
            SweepAction::Snapshot
        } else {
            self.generating_action()
        };
    }

    /// The snapshot is saved.
    pub fn saved(&mut self)
        requires
            old(self).well_formed(),
            old(self).action == SweepAction::Snapshot,
        ensures
            final(self).well_formed(),
            *final(self) == (Sweep { action: old(self).generating(), ..*old(self) }),
    {
        self.action = self.generating_action();
    }

    /// A token was chosen at position `pos` of a context of `ctx`; below 0
    /// there was none.
    pub fn chosen(&mut self, pos: i32, ctx: i32, token: i32) -> (r: Result<(), SweepFailure>)
        requires
            old(self).well_formed(),
            old(self).action == SweepAction::Choose,
        ensures
            final(self).well_formed(),
            if pos == i32::MAX || pos + 1 >= ctx {
                r == Err::<(), SweepFailure>(SweepFailure::Context) && *final(self) == *old(self)
            } else if token < 0 {
                r == Err::<(), SweepFailure>(SweepFailure::Choice) && *final(self) == *old(self)
            } else {
                r is Ok && *final(self) == (Sweep {
                    action: SweepAction::Eval(token),
                    ..*old(self)
                })
            },
    {
        if pos == i32::MAX || pos + 1 >= ctx {
            return Err(SweepFailure::Context);
        }
        if token < 0 {
            return Err(SweepFailure::Choice);
        }
        self.action = SweepAction::Eval(token);
        Ok(())
    }

    /// The token in hand was evaluated.
    pub fn evaluated(&mut self)
        requires
            old(self).well_formed(),
            old(self).action is Eval,
        ensures
            final(self).well_formed(),
            *final(self) == ({
                let counted = Sweep { generated: (old(self).generated + 1) as i32, ..*old(self) };
                Sweep { action: counted.generating(), ..counted }
            }),
    {
        self.generated = self.generated + 1;
        self.action = self.generating_action();
    }

    /// The session is back at the frontier.
    pub fn restored(&mut self)
        requires
            old(self).well_formed(),
            old(self).action == SweepAction::Restore,
        ensures
            final(self).well_formed(),
            *final(self) == (Sweep { action: SweepAction::Row, ..*old(self) }),
    {
        self.action = SweepAction::Row;
    }

    /// The line of this size is written. The last size ends the sweep.
    pub fn row_written(&mut self)
        requires
            old(self).well_formed(),
            old(self).action == SweepAction::Row,
        ensures
            final(self).well_formed(),
            *final(self) == (Sweep {
                previous: old(self).frontier,
                action: if old(self).frontier >= old(self).ctx_max {
                    SweepAction::Done
                } else {
                    SweepAction::Advance
                },
                ..*old(self)
            }),
    {
        self.previous = self.frontier;
        self.action = if self.frontier >= self.ctx_max {
            SweepAction::Done
        } else {
            SweepAction::Advance
        };
    }

    /// The next size is `frontier`, which must be greater.
    pub fn advanced(&mut self, frontier: i32)
        requires
            old(self).well_formed(),
            old(self).action == SweepAction::Advance,
            old(self).frontier < frontier <= old(self).ctx_max,
        ensures
            final(self).well_formed(),
            *final(self) == (Sweep {
                frontier,
                generated: 0,
                action: SweepAction::Prefill,
                ..*old(self)
            }),
    {
        self.frontier = frontier;
        self.generated = 0;
        self.action = SweepAction::Prefill;
    }
}

impl SweepFailure {
    /// What is reported at the size `frontier`.
    pub fn message(self, frontier: i32) -> (r: String)
        ensures
            r@ == match self {
                SweepFailure::Context =>
                    "generation would exceed allocated context at frontier "@
                    + text::signed_decimal(frontier as int),
                SweepFailure::Choice => "failed to choose non-EOS token at frontier "@
                    + text::signed_decimal(frontier as int),
            },
    {
        let mut r = match self {
            SweepFailure::Context => String::from_str(
                "generation would exceed allocated context at frontier ",
            ),
            SweepFailure::Choice => String::from_str("failed to choose non-EOS token at frontier "),
        };
        push_i64(&mut r, frontier as i64);
        r
    }
}

} // verus!
