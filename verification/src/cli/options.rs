//! The options of the command-line host.

use crate::args;
use crate::args::{
    parse_backend, parse_f32_range, parse_positive_i32, parse_positive_u64, Arg, F32_HUNDRED,
    F32_ONE, F32_TWENTIETH,
};
use crate::model::Backend;
use crate::num;
use crate::num::parse_i32;
use crate::text;
use crate::text::{chars_of, starts_with, str_eq, substring, trim_range};
use vstd::prelude::*;
use vstd::slice::slice_subrange;
use vstd::string::*;

verus! {

/// What the command line asks for. Fractions are held as the bits of 32-bit
/// floats.
#[derive(Debug)]
pub struct ShadowArgs {
    pub model: Option<String>,
    pub mtp: Option<String>,
    pub dspark: Option<String>,
    pub backend: Backend,
    pub ctx: i32,
    pub ctx_set: bool,
    pub threads: i32,
    pub tokens: Vec<i32>,
    pub predict: i32,
    pub n_predict: i32,
    pub system: String,
    pub nothink: bool,
    pub prompt: Option<String>,
    pub prompt_file: Option<String>,
    pub dump_logprobs: Option<String>,
    pub logprobs_top_k: i32,
    pub temp: u32,
    pub top_p: u32,
    pub min_p: u32,
    pub seed: u64,
    pub lifecycle_only: bool,
    pub identify: bool,
    pub inventory: bool,
    pub tokenize: bool,
    pub tok_family: Option<String>,
    pub tok_cmd: Option<String>,
    pub tok_arg: Option<String>,
    pub session_plan: bool,
    pub session_cmd: Option<String>,
    pub session_args: Vec<String>,
    pub session_payload: bool,
    pub payload_cmd: Option<String>,
    pub payload_args: Vec<String>,
    pub bind_names: bool,
    pub bind_names_variant: Option<String>,
    pub bind_plan: bool,
    pub validate: bool,
    pub layout: bool,
    pub layout_variant: Option<String>,
    pub help: bool,
}

/// A [`ShadowArgs`] as plain values.
pub struct Shadow {
    pub model: Option<Seq<char>>,
    pub mtp: Option<Seq<char>>,
    pub dspark: Option<Seq<char>>,
    pub backend: Backend,
    pub ctx: i32,
    pub ctx_set: bool,
    pub threads: i32,
    pub tokens: Seq<i32>,
    pub predict: i32,
    pub n_predict: i32,
    pub system: Seq<char>,
    pub nothink: bool,
    pub prompt: Option<Seq<char>>,
    pub prompt_file: Option<Seq<char>>,
    pub dump_logprobs: Option<Seq<char>>,
    pub logprobs_top_k: i32,
    pub temp: u32,
    pub top_p: u32,
    pub min_p: u32,
    pub seed: u64,
    pub lifecycle_only: bool,
    pub identify: bool,
    pub inventory: bool,
    pub tokenize: bool,
    pub tok_family: Option<Seq<char>>,
    pub tok_cmd: Option<Seq<char>>,
    pub tok_arg: Option<Seq<char>>,
    pub session_plan: bool,
    pub session_cmd: Option<Seq<char>>,
    pub session_args: Seq<Seq<char>>,
    pub session_payload: bool,
    pub payload_cmd: Option<Seq<char>>,
    pub payload_args: Seq<Seq<char>>,
    pub bind_names: bool,
    pub bind_names_variant: Option<Seq<char>>,
    pub bind_plan: bool,
    pub validate: bool,
    pub layout: bool,
    pub layout_variant: Option<Seq<char>>,
    pub help: bool,
}

impl ShadowArgs {
    /// The options as plain values.
    #[verifier::opaque]
    pub open spec fn model(self) -> Shadow {
        Shadow {
            model: args::opt_text(self.model),
            mtp: args::opt_text(self.mtp),
            dspark: args::opt_text(self.dspark),
            backend: self.backend,
            ctx: self.ctx,
            ctx_set: self.ctx_set,
            threads: self.threads,
            tokens: self.tokens@,
            predict: self.predict,
            n_predict: self.n_predict,
            system: self.system@,
            nothink: self.nothink,
            prompt: args::opt_text(self.prompt),
            prompt_file: args::opt_text(self.prompt_file),
            dump_logprobs: args::opt_text(self.dump_logprobs),
            logprobs_top_k: self.logprobs_top_k,
            temp: self.temp,
            top_p: self.top_p,
            min_p: self.min_p,
            seed: self.seed,
            lifecycle_only: self.lifecycle_only,
            identify: self.identify,
            inventory: self.inventory,
            tokenize: self.tokenize,
            tok_family: args::opt_text(self.tok_family),
            tok_cmd: args::opt_text(self.tok_cmd),
            tok_arg: args::opt_text(self.tok_arg),
            session_plan: self.session_plan,
            session_cmd: args::opt_text(self.session_cmd),
            session_args: args::texts(self.session_args@),
            session_payload: self.session_payload,
            payload_cmd: args::opt_text(self.payload_cmd),
            payload_args: args::texts(self.payload_args@),
            bind_names: self.bind_names,
            bind_names_variant: args::opt_text(self.bind_names_variant),
            bind_plan: self.bind_plan,
            validate: self.validate,
            layout: self.layout,
            layout_variant: args::opt_text(self.layout_variant),
            help: self.help,
        }
    }
}

impl View for ShadowArgs {
    type V = Shadow;

    open spec fn view(&self) -> Shadow {
        self.model()
    }
}

/// What holds where no option says otherwise.
pub open spec fn defaults(backend: Backend) -> Shadow {
    Shadow {
        model: Some("ds4flash.gguf"@),
        mtp: None,
        dspark: None,
        backend: backend,
        ctx: 32768,
        ctx_set: false,
        threads: 0,
        tokens: seq![],
        predict: 0,
        n_predict: 50000,
        system: "You are a helpful assistant"@,
        nothink: false,
        prompt: None,
        prompt_file: None,
        dump_logprobs: None,
        logprobs_top_k: 20,
        temp: args::F32_ONE,
        top_p: args::F32_ONE,
        min_p: args::F32_TWENTIETH,
        seed: 0,
        lifecycle_only: false,
        identify: false,
        inventory: false,
        tokenize: false,
        tok_family: None,
        tok_cmd: None,
        tok_arg: None,
        session_plan: false,
        session_cmd: None,
        session_args: seq![],
        session_payload: false,
        payload_cmd: None,
        payload_args: seq![],
        bind_names: false,
        bind_names_variant: None,
        bind_plan: false,
        validate: false,
        layout: false,
        layout_variant: None,
        help: false,
    }
}

impl ShadowArgs {
    /// What holds where no option says otherwise; `backend` is the one that
    /// the system prefers.
    pub fn with_backend(backend: Backend) -> (r: ShadowArgs)
        ensures
            r@ == defaults(backend),
    {
        let r = ShadowArgs {
            model: Some(String::from_str("ds4flash.gguf")),
            mtp: None,
            dspark: None,
            backend: backend,
            ctx: 32768,
            ctx_set: false,
            threads: 0,
            tokens: Vec::new(),
            predict: 0,
            n_predict: 50000,
            system: String::from_str("You are a helpful assistant"),
            nothink: false,
            prompt: None,
            prompt_file: None,
            dump_logprobs: None,
            logprobs_top_k: 20,
            temp: F32_ONE,
            top_p: F32_ONE,
            min_p: F32_TWENTIETH,
            seed: 0,
            lifecycle_only: false,
            identify: false,
            inventory: false,
            tokenize: false,
            tok_family: None,
            tok_cmd: None,
            tok_arg: None,
            session_plan: false,
            session_cmd: None,
            session_args: Vec::new(),
            session_payload: false,
            payload_cmd: None,
            payload_args: Vec::new(),
            bind_names: false,
            bind_names_variant: None,
            bind_plan: false,
            validate: false,
            layout: false,
            layout_variant: None,
            help: false,
        };
        proof {
            reveal(ShadowArgs::model);
            assert(args::texts(r.session_args@) =~= seq![]);
            assert(args::texts(r.payload_args@) =~= seq![]);
            assert(r.tokens@ =~= seq![]);
        }
        r
    }
}

impl ShadowArgs {
    fn set_help(&mut self, v: bool)
        ensures
            final(self)@ == (Shadow { help: v, ..old(self)@ }),
    {
        reveal(ShadowArgs::model);
        self.help = v;
    }

    fn set_model(&mut self, v: String)
        ensures
            final(self)@ == (Shadow { model: Some(v@), ..old(self)@ }),
    {
        reveal(ShadowArgs::model);
        self.model = Some(v);
    }

    fn set_mtp(&mut self, v: String)
        ensures
            final(self)@ == (Shadow { mtp: Some(v@), ..old(self)@ }),
    {
        reveal(ShadowArgs::model);
        self.mtp = Some(v);
    }

    fn set_dspark(&mut self, v: String)
        ensures
            final(self)@ == (Shadow { dspark: Some(v@), ..old(self)@ }),
    {
        reveal(ShadowArgs::model);
        self.dspark = Some(v);
    }

    fn set_backend(&mut self, v: Backend)
        ensures
            final(self)@ == (Shadow { backend: v, ..old(self)@ }),
    {
        reveal(ShadowArgs::model);
        self.backend = v;
    }

    fn set_ctx(&mut self, v: i32)
        ensures
            final(self)@ == (Shadow { ctx: v, ctx_set: true, ..old(self)@ }),
    {
        reveal(ShadowArgs::model);
        self.ctx = v;
        self.ctx_set = true;
    }

    fn set_n_predict(&mut self, v: i32)
        ensures
            final(self)@ == (Shadow { n_predict: v, ..old(self)@ }),
    {
        reveal(ShadowArgs::model);
        self.n_predict = v;
    }

    fn set_temp(&mut self, v: u32)
        ensures
            final(self)@ == (Shadow { temp: v, ..old(self)@ }),
    {
        reveal(ShadowArgs::model);
        self.temp = v;
    }

    fn set_top_p(&mut self, v: u32)
        ensures
            final(self)@ == (Shadow { top_p: v, ..old(self)@ }),
    {
        reveal(ShadowArgs::model);
        self.top_p = v;
    }

    fn set_min_p(&mut self, v: u32)
        ensures
            final(self)@ == (Shadow { min_p: v, ..old(self)@ }),
    {
        reveal(ShadowArgs::model);
        self.min_p = v;
    }

    fn set_seed(&mut self, v: u64)
        ensures
            final(self)@ == (Shadow { seed: v, ..old(self)@ }),
    {
        reveal(ShadowArgs::model);
        self.seed = v;
    }

    fn set_nothink(&mut self, v: bool)
        ensures
            final(self)@ == (Shadow { nothink: v, ..old(self)@ }),
    {
        reveal(ShadowArgs::model);
        self.nothink = v;
    }

    fn set_system(&mut self, v: String)
        ensures
            final(self)@ == (Shadow { system: v@, ..old(self)@ }),
    {
        reveal(ShadowArgs::model);
        self.system = v;
    }

    fn set_prompt(&mut self, v: String)
        ensures
            final(self)@ == (Shadow { prompt: Some(v@), ..old(self)@ }),
    {
        reveal(ShadowArgs::model);
        self.prompt = Some(v);
    }

    fn set_prompt_file(&mut self, v: String)
        ensures
            final(self)@ == (Shadow { prompt_file: Some(v@), ..old(self)@ }),
    {
        reveal(ShadowArgs::model);
        self.prompt_file = Some(v);
    }

    fn set_dump_logprobs(&mut self, v: String)
        ensures
            final(self)@ == (Shadow { dump_logprobs: Some(v@), ..old(self)@ }),
    {
        reveal(ShadowArgs::model);
        self.dump_logprobs = Some(v);
    }

    fn set_logprobs_top_k(&mut self, v: i32)
        ensures
            final(self)@ == (Shadow { logprobs_top_k: v, ..old(self)@ }),
    {
        reveal(ShadowArgs::model);
        self.logprobs_top_k = v;
    }

    fn set_threads(&mut self, v: i32)
        ensures
            final(self)@ == (Shadow { threads: v, ..old(self)@ }),
    {
        reveal(ShadowArgs::model);
        self.threads = v;
    }

    fn set_tokens(&mut self, v: Vec<i32>)
        ensures
            final(self)@ == (Shadow { tokens: v@, ..old(self)@ }),
    {
        reveal(ShadowArgs::model);
        self.tokens = v;
    }

    fn set_predict(&mut self, v: i32)
        ensures
            final(self)@ == (Shadow { predict: v, ..old(self)@ }),
    {
        reveal(ShadowArgs::model);
        self.predict = v;
    }

    fn set_lifecycle_only(&mut self, v: bool)
        ensures
            final(self)@ == (Shadow { lifecycle_only: v, ..old(self)@ }),
    {
        reveal(ShadowArgs::model);
        self.lifecycle_only = v;
    }

    fn set_identify(&mut self, v: bool)
        ensures
            final(self)@ == (Shadow { identify: v, ..old(self)@ }),
    {
        reveal(ShadowArgs::model);
        self.identify = v;
    }

    fn set_inventory(&mut self, v: bool)
        ensures
            final(self)@ == (Shadow { inventory: v, ..old(self)@ }),
    {
        reveal(ShadowArgs::model);
        self.inventory = v;
    }

    fn set_bind_names(&mut self, v: String)
        ensures
            final(self)@ == (Shadow { bind_names: true, bind_names_variant: Some(v@), ..old(self)@ }),
    {
        reveal(ShadowArgs::model);
        self.bind_names = true;
        self.bind_names_variant = Some(v);
    }

    fn set_bind_plan(&mut self, v: bool)
        ensures
            final(self)@ == (Shadow { bind_plan: v, ..old(self)@ }),
    {
        reveal(ShadowArgs::model);
        self.bind_plan = v;
    }

    fn set_validate(&mut self, v: bool)
        ensures
            final(self)@ == (Shadow { validate: v, ..old(self)@ }),
    {
        reveal(ShadowArgs::model);
        self.validate = v;
    }

    fn set_layout(&mut self, v: String)
        ensures
            final(self)@ == (Shadow { layout: true, layout_variant: Some(v@), ..old(self)@ }),
    {
        reveal(ShadowArgs::model);
        self.layout = true;
        self.layout_variant = Some(v);
    }

    fn set_tokenize(&mut self, family: String, cmd: String)
        ensures
            final(self)@ == (Shadow { tokenize: true, tok_family: Some(family@), tok_cmd: Some(cmd@), ..old(self)@ }),
    {
        reveal(ShadowArgs::model);
        self.tokenize = true;
        self.tok_family = Some(family);
        self.tok_cmd = Some(cmd);
    }

    fn set_tok_arg(&mut self, v: String)
        ensures
            final(self)@ == (Shadow { tok_arg: Some(v@), ..old(self)@ }),
    {
        reveal(ShadowArgs::model);
        self.tok_arg = Some(v);
    }

    fn add_session_plan(&mut self, cmd: String, more: Vec<String>)
        ensures
            final(self)@ == (Shadow {
                session_plan: true,
                session_cmd: Some(cmd@),
                session_args: old(self)@.session_args + args::texts(more@),
                ..old(self)@
            }),
    {
        reveal(ShadowArgs::model);
        let ghost before = self.session_args@;
        let mut more = more;
        let ghost rest = more@;
        self.session_plan = true;
        self.session_cmd = Some(cmd);
        self.session_args.append(&mut more);
        assert(args::texts(self.session_args@) =~= args::texts(before) + args::texts(rest));
    }

    fn add_session_payload(&mut self, cmd: String, more: Vec<String>)
        ensures
            final(self)@ == (Shadow {
                session_payload: true,
                payload_cmd: Some(cmd@),
                payload_args: old(self)@.payload_args + args::texts(more@),
                ..old(self)@
            }),
    {
        reveal(ShadowArgs::model);
        let ghost before = self.payload_args@;
        let mut more = more;
        let ghost rest = more@;
        self.session_payload = true;
        self.payload_cmd = Some(cmd);
        self.payload_args.append(&mut more);
        assert(args::texts(self.payload_args@) =~= args::texts(before) + args::texts(rest));
    }

    fn has_prompt(&self) -> (r: bool)
        ensures
            r == (self@.prompt is Some || self@.prompt_file is Some),
    {
        reveal(ShadowArgs::model);
        self.prompt.is_some() || self.prompt_file.is_some()
    }
}

/// The options.
#[derive(Clone, Copy, Debug, PartialEq, Eq, Structural)]
pub enum ShadowOpt {
    Help,
    Model,
    Mtp,
    Dspark,
    Backend,
    Cuda,
    Cpu,
    Metal,
    Ctx,
    NPredict,
    Temp,
    TopP,
    MinP,
    Seed,
    Think,
    NoThink,
    System,
    Prompt,
    PromptFile,
    DumpLogprobs,
    LogprobsTopK,
    Threads,
    TokenIds,
    Predict,
    Lifecycle,
    Identify,
    Inventory,
    Tokenize,
    SessionPlan,
    SessionPayload,
    BindNames,
    BindPlan,
    Validate,
    Layout,
}

/// The option that `s` spells.
pub open spec fn option_spelled(s: Seq<char>) -> Option<ShadowOpt> {
    if s == "-h"@ || s == "--help"@ {
        Some(ShadowOpt::Help)
    } else if s == "-m"@ || s == "--model"@ {
        Some(ShadowOpt::Model)
    } else if s == "--mtp"@ {
        Some(ShadowOpt::Mtp)
    } else if s == "--dspark"@ {
        Some(ShadowOpt::Dspark)
    } else if s == "--backend"@ {
        Some(ShadowOpt::Backend)
    } else if s == "--cuda"@ {
        Some(ShadowOpt::Cuda)
    } else if s == "--cpu"@ {
        Some(ShadowOpt::Cpu)
    } else if s == "--metal"@ {
        Some(ShadowOpt::Metal)
    } else if s == "-c"@ || s == "--ctx"@ {
        Some(ShadowOpt::Ctx)
    } else if s == "-n"@ || s == "--tokens"@ || s == "--n-predict"@ {
        Some(ShadowOpt::NPredict)
    } else if s == "--temp"@ {
        Some(ShadowOpt::Temp)
    } else if s == "--top-p"@ {
        Some(ShadowOpt::TopP)
    } else if s == "--min-p"@ {
        Some(ShadowOpt::MinP)
    } else if s == "--seed"@ {
        Some(ShadowOpt::Seed)
    } else if s == "--think"@ {
        Some(ShadowOpt::Think)
    } else if s == "--nothink"@ {
        Some(ShadowOpt::NoThink)
    } else if s == "-sys"@ || s == "--system"@ {
        Some(ShadowOpt::System)
    } else if s == "-p"@ || s == "--prompt"@ {
        Some(ShadowOpt::Prompt)
    } else if s == "--prompt-file"@ {
        Some(ShadowOpt::PromptFile)
    } else if s == "--dump-logprobs"@ {
        Some(ShadowOpt::DumpLogprobs)
    } else if s == "--logprobs-top-k"@ {
        Some(ShadowOpt::LogprobsTopK)
    } else if s == "-t"@ || s == "--threads"@ {
        Some(ShadowOpt::Threads)
    } else if s == "--token-ids"@ {
        Some(ShadowOpt::TokenIds)
    } else if s == "--predict"@ {
        Some(ShadowOpt::Predict)
    } else if s == "--lifecycle"@ {
        Some(ShadowOpt::Lifecycle)
    } else if s == "--identify"@ {
        Some(ShadowOpt::Identify)
    } else if s == "--inventory"@ {
        Some(ShadowOpt::Inventory)
    } else if s == "--tokenize"@ {
        Some(ShadowOpt::Tokenize)
    } else if s == "--session-plan"@ {
        Some(ShadowOpt::SessionPlan)
    } else if s == "--session-payload"@ {
        Some(ShadowOpt::SessionPayload)
    } else if s == "--bind-names"@ {
        Some(ShadowOpt::BindNames)
    } else if s == "--bind-plan"@ {
        Some(ShadowOpt::BindPlan)
    } else if s == "--validate"@ {
        Some(ShadowOpt::Validate)
    } else if s == "--layout"@ {
        Some(ShadowOpt::Layout)
    } else {
        None
    }
}

fn find_option(s: &str) -> (r: Option<ShadowOpt>)
    ensures
        r == option_spelled(s@),
{
    if str_eq(s, "-h") || str_eq(s, "--help") {
        Some(ShadowOpt::Help)
    } else if str_eq(s, "-m") || str_eq(s, "--model") {
        Some(ShadowOpt::Model)
    } else if str_eq(s, "--mtp") {
        Some(ShadowOpt::Mtp)
    } else if str_eq(s, "--dspark") {
        Some(ShadowOpt::Dspark)
    } else if str_eq(s, "--backend") {
        Some(ShadowOpt::Backend)
    } else if str_eq(s, "--cuda") {
        Some(ShadowOpt::Cuda)
    } else if str_eq(s, "--cpu") {
        Some(ShadowOpt::Cpu)
    } else if str_eq(s, "--metal") {
        Some(ShadowOpt::Metal)
    } else if str_eq(s, "-c") || str_eq(s, "--ctx") {
        Some(ShadowOpt::Ctx)
    } else if str_eq(s, "-n") || str_eq(s, "--tokens") || str_eq(s, "--n-predict") {
        Some(ShadowOpt::NPredict)
    } else if str_eq(s, "--temp") {
        Some(ShadowOpt::Temp)
    } else if str_eq(s, "--top-p") {
        Some(ShadowOpt::TopP)
    } else if str_eq(s, "--min-p") {
        Some(ShadowOpt::MinP)
    } else if str_eq(s, "--seed") {
        Some(ShadowOpt::Seed)
    } else if str_eq(s, "--think") {
        Some(ShadowOpt::Think)
    } else if str_eq(s, "--nothink") {
        Some(ShadowOpt::NoThink)
    } else if str_eq(s, "-sys") || str_eq(s, "--system") {
        Some(ShadowOpt::System)
    } else if str_eq(s, "-p") || str_eq(s, "--prompt") {
        Some(ShadowOpt::Prompt)
    } else if str_eq(s, "--prompt-file") {
        Some(ShadowOpt::PromptFile)
    } else if str_eq(s, "--dump-logprobs") {
        Some(ShadowOpt::DumpLogprobs)
    } else if str_eq(s, "--logprobs-top-k") {
        Some(ShadowOpt::LogprobsTopK)
    } else if str_eq(s, "-t") || str_eq(s, "--threads") {
        Some(ShadowOpt::Threads)
    } else if str_eq(s, "--token-ids") {
        Some(ShadowOpt::TokenIds)
    } else if str_eq(s, "--predict") {
        Some(ShadowOpt::Predict)
    } else if str_eq(s, "--lifecycle") {
        Some(ShadowOpt::Lifecycle)
    } else if str_eq(s, "--identify") {
        Some(ShadowOpt::Identify)
    } else if str_eq(s, "--inventory") {
        Some(ShadowOpt::Inventory)
    } else if str_eq(s, "--tokenize") {
        Some(ShadowOpt::Tokenize)
    } else if str_eq(s, "--session-plan") {
        Some(ShadowOpt::SessionPlan)
    } else if str_eq(s, "--session-payload") {
        Some(ShadowOpt::SessionPayload)
    } else if str_eq(s, "--bind-names") {
        Some(ShadowOpt::BindNames)
    } else if str_eq(s, "--bind-plan") {
        Some(ShadowOpt::BindPlan)
    } else if str_eq(s, "--validate") {
        Some(ShadowOpt::Validate)
    } else if str_eq(s, "--layout") {
        Some(ShadowOpt::Layout)
    } else {
        None
    }
}

/// How many values an option takes.
pub enum Arity {
    Flag,
    Value,
    /// Two values, and a third that does not start with a dash.
    Tokenize,
    /// One value, and all that follow up to one that starts with a dash.
    Rest,
}

pub open spec fn arity(o: ShadowOpt) -> Arity {
    match o {
        ShadowOpt::Help => Arity::Flag,
        ShadowOpt::Model => Arity::Value,
        ShadowOpt::Mtp => Arity::Value,
        ShadowOpt::Dspark => Arity::Value,
        ShadowOpt::Backend => Arity::Value,
        ShadowOpt::Cuda => Arity::Flag,
        ShadowOpt::Cpu => Arity::Flag,
        ShadowOpt::Metal => Arity::Flag,
        ShadowOpt::Ctx => Arity::Value,
        ShadowOpt::NPredict => Arity::Value,
        ShadowOpt::Temp => Arity::Value,
        ShadowOpt::TopP => Arity::Value,
        ShadowOpt::MinP => Arity::Value,
        ShadowOpt::Seed => Arity::Value,
        ShadowOpt::Think => Arity::Flag,
        ShadowOpt::NoThink => Arity::Flag,
        ShadowOpt::System => Arity::Value,
        ShadowOpt::Prompt => Arity::Value,
        ShadowOpt::PromptFile => Arity::Value,
        ShadowOpt::DumpLogprobs => Arity::Value,
        ShadowOpt::LogprobsTopK => Arity::Value,
        ShadowOpt::Threads => Arity::Value,
        ShadowOpt::TokenIds => Arity::Value,
        ShadowOpt::Predict => Arity::Value,
        ShadowOpt::Lifecycle => Arity::Flag,
        ShadowOpt::Identify => Arity::Flag,
        ShadowOpt::Inventory => Arity::Flag,
        ShadowOpt::Tokenize => Arity::Tokenize,
        ShadowOpt::SessionPlan => Arity::Rest,
        ShadowOpt::SessionPayload => Arity::Rest,
        ShadowOpt::BindNames => Arity::Value,
        ShadowOpt::BindPlan => Arity::Flag,
        ShadowOpt::Validate => Arity::Flag,
        ShadowOpt::Layout => Arity::Value,
    }
}

/// What a flag does.
pub open spec fn flag_effect(s: Shadow, o: ShadowOpt) -> Shadow {
    match o {
        ShadowOpt::Help => Shadow { help: true, ..s },
        ShadowOpt::Cuda => Shadow { backend: Backend::Cuda, ..s },
        ShadowOpt::Cpu => Shadow { backend: Backend::Cpu, ..s },
        ShadowOpt::Metal => Shadow { backend: Backend::Metal, ..s },
        ShadowOpt::Think => Shadow { nothink: false, ..s },
        ShadowOpt::NoThink => Shadow { nothink: true, ..s },
        ShadowOpt::Lifecycle => Shadow { lifecycle_only: true, ..s },
        ShadowOpt::Identify => Shadow { identify: true, ..s },
        ShadowOpt::Inventory => Shadow { inventory: true, ..s },
        ShadowOpt::BindPlan => Shadow { bind_plan: true, ..s },
        ShadowOpt::Validate => Shadow { validate: true, ..s },
        _ => s,
    }
}

/// The integers of the comma-separated list `s`, from `i` on, where `from` is
/// the start of the part that is being read; or the part that is no integer.
pub open spec fn token_list(s: Seq<char>, from: int, i: int) -> Result<Seq<i32>, Seq<char>>
    decreases s.len() - i,
{
    if i < 0 || i >= s.len() {
        token_part(s.subrange(from, s.len() as int), Ok(seq![]))
    } else if s[i] == ',' {
        token_part(s.subrange(from, i), token_list(s, i + 1, i + 1))
    } else {
        token_list(s, from, i + 1)
    }
}

/// The integer of `part`, spaces around it allowed, in front of `rest`.
pub open spec fn token_part(part: Seq<char>, rest: Result<Seq<i32>, Seq<char>>) -> Result<
    Seq<i32>,
    Seq<char>,
> {
    match num::i32_value(text::trimmed(part)) {
        None => Err("invalid token id: "@ + part),
        Some(v) => match rest {
            Err(e) => Err(e),
            Ok(more) => Ok(seq![v] + more),
        },
    }
}

/// The token ids that `s` lists; none where it is empty.
pub open spec fn token_ids(s: Seq<char>) -> Result<Seq<i32>, Seq<char>> {
    if s.len() == 0 {
        Ok(seq![])
    } else {
        token_list(s, 0, 0)
    }
}

/// `v`, in front of what `rest` gives.
pub open spec fn with_ids(v: Seq<i32>, rest: Result<Seq<i32>, Seq<char>>) -> Result<
    Seq<i32>,
    Seq<char>,
> {
    match rest {
        Err(e) => Err(e),
        Ok(more) => Ok(v + more),
    }
}

pub open spec fn ids_match(
    r: Result<Vec<i32>, String>,
    model: Result<Seq<i32>, Seq<char>>,
) -> bool {
    match (r, model) {
        (Ok(v), Ok(ids)) => v@ == ids,
        (Err(e), Err(x)) => e@ == x,
        _ => false,
    }
}

fn read_token(s: &[char], from: usize, to: usize) -> (r: Result<i32, String>)
    requires
        from <= to <= s@.len(),
    ensures
        args::value_or(
            num::i32_value(text::trimmed(s@.subrange(from as int, to as int))),
            "invalid token id: "@ + s@.subrange(from as int, to as int),
            r,
        ),
{
    let (a, b) = trim_range(s, from, to);
    match parse_i32(slice_subrange(s, a, b)) {
        Some(v) => Ok(v),
        None => {
            let mut e = String::from_str("invalid token id: ");
            e.append(substring(s, from, to).as_str());
            Err(e)
        },
    }
}

/// Reads a comma-separated list of token ids.
pub fn parse_tokens(value: &str) -> (r: Result<Vec<i32>, String>)
    ensures
        ids_match(r, token_ids(value@)),
{
    let s = chars_of(value);
    let mut out: Vec<i32> = Vec::new();
    if s.len() == 0 {
        assert(out@ =~= seq![]);
        return Ok(out);
    }
    let mut from: usize = 0;
    let mut i: usize = 0;
    proof {
        let m = token_list(s@, 0, 0);
        if m is Ok {
            assert(out@ + m->Ok_0 =~= m->Ok_0);
        }
    }
    while i < s.len()
        invariant
            from <= i <= s@.len(),
            s@ == value@,
            s@.len() > 0,
            token_ids(value@) == with_ids(out@, token_list(s@, from as int, i as int)),
        decreases s@.len() - i,
    {
        if s[i] == ',' {
            let ghost rest = token_list(s@, i + 1, i + 1);
            match read_token(s.as_slice(), from, i) {
                Ok(v) => {
                    let ghost before = out@;
                    out.push(v);
                    proof {
                        if rest is Ok {
                            assert(before + (seq![v] + rest->Ok_0) =~= out@ + rest->Ok_0);
                        }
                    }
                },
                Err(e) => {
                    return Err(e);
                },
            }
            i += 1;
            from = i;
        } else {
            i += 1;
        }
    }
    match read_token(s.as_slice(), from, i) {
        Ok(v) => {
            let ghost before = out@;
            out.push(v);
            assert(before + (seq![v] + Seq::<i32>::empty()) =~= out@);
            Ok(out)
        },
        Err(e) => Err(e),
    }
}

/// What an option with the value `v` does, where the option was spelled
/// `flag`.
pub open spec fn value_effect(
    s: Shadow,
    o: ShadowOpt,
    flag: Seq<char>,
    v: Seq<char>,
    bits: Option<u32>,
) -> Result<Shadow, Seq<char>> {
    match o {
        ShadowOpt::Model => Ok(Shadow { model: Some(v), ..s }),
        ShadowOpt::Mtp => Ok(Shadow { mtp: Some(v), ..s }),
        ShadowOpt::Dspark => Ok(Shadow { dspark: Some(v), ..s }),
        ShadowOpt::Backend => match args::backend_named(v) {
            Some(backend) => Ok(Shadow { backend, ..s }),
            None => Err("unknown backend: "@ + v),
        },
        ShadowOpt::Ctx => match args::positive_i32(v) {
            Some(ctx) => Ok(Shadow { ctx, ctx_set: true, ..s }),
            None => Err(args::invalid_value(flag, v)),
        },
        ShadowOpt::NPredict => if flag == "--tokens"@ && v.contains(',') {
            Err("--tokens is the output budget; use --token-ids for raw token IDs"@)
        } else {
            match args::positive_i32(v) {
                Some(n_predict) => Ok(Shadow { n_predict, ..s }),
                None => Err(args::invalid_value(flag, v)),
            }
        },
        ShadowOpt::Temp => match args::float_value(bits, args::F32_HUNDRED) {
            Some(temp) => Ok(Shadow { temp, ..s }),
            None => Err(args::invalid_value(flag, v)),
        },
        ShadowOpt::TopP => match args::float_value(bits, args::F32_ONE) {
            Some(top_p) => Ok(Shadow { top_p, ..s }),
            None => Err(args::invalid_value(flag, v)),
        },
        ShadowOpt::MinP => match args::float_value(bits, args::F32_ONE) {
            Some(min_p) => Ok(Shadow { min_p, ..s }),
            None => Err(args::invalid_value(flag, v)),
        },
        ShadowOpt::Seed => match args::positive_u64(v) {
            Some(seed) => Ok(Shadow { seed, ..s }),
            None => Err(args::invalid_value(flag, v)),
        },
        ShadowOpt::System => Ok(Shadow { system: v, ..s }),
        ShadowOpt::Prompt => Ok(Shadow { prompt: Some(v), ..s }),
        ShadowOpt::PromptFile => Ok(Shadow { prompt_file: Some(v), ..s }),
        ShadowOpt::DumpLogprobs => Ok(Shadow { dump_logprobs: Some(v), ..s }),
        ShadowOpt::LogprobsTopK => match num::i32_value(v) {
            Some(logprobs_top_k) => Ok(Shadow { logprobs_top_k, ..s }),
            None => Err(flag + ": invalid integer "@ + v),
        },
        ShadowOpt::Threads => match num::i32_value(v) {
            Some(threads) => Ok(Shadow { threads, ..s }),
            None => Err(flag + ": invalid integer "@ + v),
        },
        ShadowOpt::TokenIds => match token_ids(v) {
            Ok(tokens) => Ok(Shadow { tokens, ..s }),
            Err(e) => Err(e),
        },
        ShadowOpt::Predict => match num::i32_value(v) {
            Some(predict) => Ok(Shadow { predict, ..s }),
            None => Err(flag + ": invalid integer "@ + v),
        },
        ShadowOpt::BindNames => Ok(Shadow { bind_names: true, bind_names_variant: Some(v), ..s }),
        ShadowOpt::Layout => Ok(Shadow { layout: true, layout_variant: Some(v), ..s }),
        _ => Ok(s),
    }
}

/// `r` and the options `after` are what `model` states.
pub open spec fn effect_matches(
    r: Result<(), String>,
    model: Result<Shadow, Seq<char>>,
    after: Shadow,
) -> bool {
    match (r, model) {
        (Ok(_), Ok(s)) => after == s,
        (Err(e), Err(x)) => e@ == x,
        _ => false,
    }
}

fn apply_flag(p: &mut ShadowArgs, o: ShadowOpt)
    ensures
        final(p)@ == flag_effect(old(p)@, o),
{
    match o {
        ShadowOpt::Help => p.set_help(true),
        ShadowOpt::Cuda => p.set_backend(Backend::Cuda),
        ShadowOpt::Cpu => p.set_backend(Backend::Cpu),
        ShadowOpt::Metal => p.set_backend(Backend::Metal),
        ShadowOpt::Think => p.set_nothink(false),
        ShadowOpt::NoThink => p.set_nothink(true),
        ShadowOpt::Lifecycle => p.set_lifecycle_only(true),
        ShadowOpt::Identify => p.set_identify(true),
        ShadowOpt::Inventory => p.set_inventory(true),
        ShadowOpt::BindPlan => p.set_bind_plan(true),
        ShadowOpt::Validate => p.set_validate(true),
        _ => {},
    }
}

fn has_comma(s: &str) -> (r: bool)
    ensures
        r == s@.contains(','),
{
    let c = chars_of(s);
    let mut i: usize = 0;
    while i < c.len()
        invariant
            i <= c@.len(),
            c@ == s@,
            forall|k: int| 0 <= k < i ==> c@[k] != ',',
        decreases c@.len() - i,
    {
        if c[i] == ',' {
            assert(c@[i as int] == ',');
            return true;
        }
        i += 1;
    }
    false
}

fn parse_int(flag: &str, value: &str) -> (r: Result<i32, String>)
    ensures
        args::value_or(num::i32_value(value@), flag@ + ": invalid integer "@ + value@, r),
{
    match parse_i32(chars_of(value).as_slice()) {
        Some(v) => Ok(v),
        None => {
            let mut e = String::from_str(flag);
            e.append(": invalid integer ");
            e.append(value);
            Err(e)
        },
    }
}

/// Applies an option that takes an integer or a fraction.
fn apply_number(p: &mut ShadowArgs, o: ShadowOpt, flag: &str, value: &Arg) -> (r: Result<
    (),
    String,
>)
    requires
        o is Ctx || o is NPredict || o is Temp || o is TopP || o is MinP || o is Seed || o is LogprobsTopK || o is Threads || o is TokenIds || o is Predict,
    ensures
        effect_matches(
            r,
            value_effect(old(p)@, o, flag@, value.text@, value.f32_bits),
            final(p)@,
        ),
{
    let v = value.text.as_str();
    match o {
        ShadowOpt::Ctx => match parse_positive_i32(flag, v) {
            Ok(n) => {
                p.set_ctx(n);
                Ok(())
            },
            Err(e) => Err(e),
        },
        ShadowOpt::NPredict => {
            if str_eq(flag, "--tokens") && has_comma(v) {
                return Err(
                    String::from_str(
                        "--tokens is the output budget; use --token-ids for raw token IDs",
                    ),
                );
            }
            match parse_positive_i32(flag, v) {
                Ok(n) => {
                    p.set_n_predict(n);
                    Ok(())
                },
                Err(e) => Err(e),
            }
        },
        ShadowOpt::Temp => match parse_f32_range(flag, value, F32_HUNDRED) {
            Ok(n) => {
                p.set_temp(n);
                Ok(())
            },
            Err(e) => Err(e),
        },
        ShadowOpt::TopP => match parse_f32_range(flag, value, F32_ONE) {
            Ok(n) => {
                p.set_top_p(n);
                Ok(())
            },
            Err(e) => Err(e),
        },
        ShadowOpt::MinP => match parse_f32_range(flag, value, F32_ONE) {
            Ok(n) => {
                p.set_min_p(n);
                Ok(())
            },
            Err(e) => Err(e),
        },
        ShadowOpt::Seed => match parse_positive_u64(flag, v) {
            Ok(n) => {
                p.set_seed(n);
                Ok(())
            },
            Err(e) => Err(e),
        },
        ShadowOpt::LogprobsTopK => match parse_int(flag, v) {
            Ok(n) => {
                p.set_logprobs_top_k(n);
                Ok(())
            },
            Err(e) => Err(e),
        },
        ShadowOpt::Threads => match parse_int(flag, v) {
            Ok(n) => {
                p.set_threads(n);
                Ok(())
            },
            Err(e) => Err(e),
        },
        ShadowOpt::TokenIds => match parse_tokens(v) {
            Ok(ids) => {
                p.set_tokens(ids);
                Ok(())
            },
            Err(e) => Err(e),
        },
        ShadowOpt::Predict => match parse_int(flag, v) {
            Ok(n) => {
                p.set_predict(n);
                Ok(())
            },
            Err(e) => Err(e),
        },
        _ => Ok(()),
    }
}

/// Applies an option that takes a value.
fn apply_value(p: &mut ShadowArgs, o: ShadowOpt, flag: &str, value: &Arg) -> (r: Result<
    (),
    String,
>)
    ensures
        effect_matches(
            r,
            value_effect(old(p)@, o, flag@, value.text@, value.f32_bits),
            final(p)@,
        ),
{
    let text = value.text.clone();
    match o {
        ShadowOpt::Ctx | ShadowOpt::NPredict | ShadowOpt::Temp | ShadowOpt::TopP | ShadowOpt::MinP | ShadowOpt::Seed | ShadowOpt::LogprobsTopK | ShadowOpt::Threads | ShadowOpt::TokenIds | ShadowOpt::Predict => apply_number(p, o, flag, value),
        ShadowOpt::Model => {
            p.set_model(text);
            Ok(())
        },
        ShadowOpt::Mtp => {
            p.set_mtp(text);
            Ok(())
        },
        ShadowOpt::Dspark => {
            p.set_dspark(text);
            Ok(())
        },
        ShadowOpt::Backend => match parse_backend(text.as_str(), "unknown backend: ") {
            Ok(b) => {
                p.set_backend(b);
                Ok(())
            },
            Err(e) => Err(e),
        },
        ShadowOpt::System => {
            p.set_system(text);
            Ok(())
        },
        ShadowOpt::Prompt => {
            p.set_prompt(text);
            Ok(())
        },
        ShadowOpt::PromptFile => {
            p.set_prompt_file(text);
            Ok(())
        },
        ShadowOpt::DumpLogprobs => {
            p.set_dump_logprobs(text);
            Ok(())
        },
        ShadowOpt::BindNames => {
            p.set_bind_names(text);
            Ok(())
        },
        ShadowOpt::Layout => {
            p.set_layout(text);
            Ok(())
        },
        _ => Ok(()),
    }
}

/// The texts of the arguments.
pub open spec fn arg_texts(a: Seq<Arg>) -> Seq<Seq<char>> {
    Seq::new(a.len(), |i: int| a[i].text@)
}

/// `s` starts with a dash.
pub open spec fn dashed(s: Seq<char>) -> bool {
    text::stands_at(s, "-"@, 0)
}

/// The first argument at or after `i` that starts with a dash.
pub open spec fn next_dashed(a: Seq<Arg>, i: int) -> int
    decreases a.len() - i,
{
    if i < 0 || i >= a.len() || dashed(a[i].text@) {
        i
    } else {
        next_dashed(a, i + 1)
    }
}

/// One option read: the options after it and where the next one stands; or
/// what is wrong with it.
pub open spec fn option_step(a: Seq<Arg>, i: int, s: Shadow) -> Result<(Shadow, int), Seq<char>> {
    let flag = a[i].text@;
    let wants = Err::<(Shadow, int), Seq<char>>(flag + " requires a value"@);
    match option_spelled(flag) {
        None => Err("unknown argument: "@ + flag),
        Some(o) => match arity(o) {
            Arity::Flag => Ok((flag_effect(s, o), i + 1)),
            Arity::Value => if (o is Prompt || o is PromptFile) && (s.prompt is Some
                || s.prompt_file is Some) {
                Err("specify only one prompt source"@)
            } else if i + 1 >= a.len() {
                wants
            } else {
                match value_effect(s, o, flag, a[i + 1].text@, a[i + 1].f32_bits) {
                    Ok(after) => Ok((after, i + 2)),
                    Err(e) => Err(e),
                }
            },
            Arity::Tokenize => if i + 2 >= a.len() {
                wants
            } else {
                let t = Shadow {
                    tokenize: true,
                    tok_family: Some(a[i + 1].text@),
                    tok_cmd: Some(a[i + 2].text@),
                    ..s
                };
                if i + 3 < a.len() && !dashed(a[i + 3].text@) {
                    Ok((Shadow { tok_arg: Some(a[i + 3].text@), ..t }, i + 4))
                } else {
                    Ok((t, i + 3))
                }
            },
            Arity::Rest => if i + 1 >= a.len() {
                wants
            } else {
                let cmd = a[i + 1].text@;
                let end = next_dashed(a, i + 2);
                let more = arg_texts(a.subrange(i + 2, end));
                Ok(
                    (
                        if o is SessionPlan {
                            Shadow {
                                session_plan: true,
                                session_cmd: Some(cmd),
                                session_args: s.session_args + more,
                                ..s
                            }
                        } else {
                            Shadow {
                                session_payload: true,
                                payload_cmd: Some(cmd),
                                payload_args: s.payload_args + more,
                                ..s
                            }
                        },
                        end,
                    ),
                )
            },
        },
    }
}

/// The options of the arguments from `i` on, after the options `s`.
pub open spec fn options_from(a: Seq<Arg>, i: int, s: Shadow) -> Result<Shadow, Seq<char>>
    decreases a.len() - i,
    via options_from_decreases
{
    if i < 0 || i >= a.len() {
        Ok(s)
    } else {
        match option_step(a, i, s) {
            Err(e) => Err(e),
            Ok((after, next)) => options_from(a, next, after),
        }
    }
}

proof fn lemma_next_dashed(a: Seq<Arg>, i: int)
    requires
        0 <= i <= a.len(),
    ensures
        i <= next_dashed(a, i) <= a.len(),
    decreases a.len() - i,
{
    if i < a.len() && !dashed(a[i].text@) {
        lemma_next_dashed(a, i + 1);
    }
}

#[via_fn]
proof fn options_from_decreases(a: Seq<Arg>, i: int, s: Shadow) {
    if 0 <= i && i + 2 <= a.len() {
        lemma_next_dashed(a, i + 2);
    }
}

/// The texts from `from` on up to the first that starts with a dash, and where
/// that stands.
fn rest_of(a: &[Arg], from: usize) -> (r: (Vec<String>, usize))
    requires
        from <= a@.len(),
    ensures
        r.1 == next_dashed(a@, from as int),
        from <= r.1 <= a@.len(),
        args::texts(r.0@) == arg_texts(a@.subrange(from as int, r.1 as int)),
{
    let mut out: Vec<String> = Vec::new();
    let mut i: usize = from;
    while i < a.len() && !starts_with(a[i].text.as_str(), "-")
        invariant
            from <= i <= a@.len(),
            next_dashed(a@, from as int) == next_dashed(a@, i as int),
            args::texts(out@) =~= arg_texts(a@.subrange(from as int, i as int)),
        decreases a@.len() - i,
    {
        let ghost before = args::texts(out@);
        out.push(a[i].text.clone());
        proof {
            assert(args::texts(out@) =~= before.push(a@[i as int].text@));
            assert(arg_texts(a@.subrange(from as int, i + 1)) =~= arg_texts(
                a@.subrange(from as int, i as int),
            ).push(a@[i as int].text@));
        }
        i += 1;
    }
    (out, i)
}

fn requires_value(flag: &str) -> (r: String)
    ensures
        r@ == flag@ + " requires a value"@,
{
    let mut e = String::from_str(flag);
    e.append(" requires a value");
    e
}

/// Reads the option at `i`: where the next one stands, or what is wrong.
fn read_option(p: &mut ShadowArgs, a: &[Arg], i: usize) -> (r: Result<usize, String>)
    requires
        i < a@.len(),
    ensures
        match (r, option_step(a@, i as int, old(p)@)) {
            (Ok(n), Ok(x)) => n == x.1 && final(p)@ == x.0 && i < n <= a@.len(),
            (Err(e), Err(x)) => e@ == x,
            _ => false,
        },
{
    let n: usize = a.len();
    let flag = a[i].text.as_str();
    let o = match find_option(flag) {
        Some(o) => o,
        None => {
            let mut e = String::from_str("unknown argument: ");
            e.append(flag);
            return Err(e);
        },
    };
    match o {
        ShadowOpt::Help | ShadowOpt::Cuda | ShadowOpt::Cpu | ShadowOpt::Metal | ShadowOpt::Think | ShadowOpt::NoThink | ShadowOpt::Lifecycle | ShadowOpt::Identify | ShadowOpt::Inventory | ShadowOpt::BindPlan | ShadowOpt::Validate => {
            apply_flag(p, o);
            Ok(i + 1)
        },
        ShadowOpt::Tokenize => {
            if n - i <= 2 {
                return Err(requires_value(flag));
            }
            p.set_tokenize(a[i + 1].text.clone(), a[i + 2].text.clone());
            if n - i > 3 && !starts_with(a[i + 3].text.as_str(), "-") {
                p.set_tok_arg(a[i + 3].text.clone());
                Ok(i + 4)
            } else {
                Ok(i + 3)
            }
        },
        ShadowOpt::SessionPlan => {
            if n - i <= 1 {
                return Err(requires_value(flag));
            }
            let (more, next) = rest_of(a, i + 2);
            p.add_session_plan(a[i + 1].text.clone(), more);
            Ok(next)
        },
        ShadowOpt::SessionPayload => {
            if n - i <= 1 {
                return Err(requires_value(flag));
            }
            let (more, next) = rest_of(a, i + 2);
            p.add_session_payload(a[i + 1].text.clone(), more);
            Ok(next)
        },
        _ => {
            if (o == ShadowOpt::Prompt || o == ShadowOpt::PromptFile) && p.has_prompt() {
                return Err(String::from_str("specify only one prompt source"));
            }
            if n - i <= 1 {
                return Err(requires_value(flag));
            }
            match apply_value(p, o, flag, &a[i + 1]) {
                Ok(()) => Ok(i + 2),
                Err(e) => Err(e),
            }
        },
    }
}

/// `r` is what `model` states.
pub open spec fn args_match(
    r: Result<ShadowArgs, String>,
    model: Result<Shadow, Seq<char>>,
) -> bool {
    match (r, model) {
        (Ok(p), Ok(s)) => p@ == s,
        (Err(e), Err(x)) => e@ == x,
        _ => false,
    }
}

/// Reads the command line `a`; the first argument is the program's name.
pub fn parse_args(a: &[Arg], backend: Backend) -> (r: Result<ShadowArgs, String>)
    ensures
        args_match(r, options_from(a@, 1, defaults(backend))),
{
    let mut p = ShadowArgs::with_backend(backend);
    if a.len() == 0 {
        return Ok(p);
    }
    let mut i: usize = 1;
    while i < a.len()
        invariant
            1 <= i <= a@.len(),
            options_from(a@, 1, defaults(backend)) == options_from(a@, i as int, p@),
        decreases a@.len() - i,
    {
        match read_option(&mut p, a, i) {
            Ok(next) => {
                i = next;
            },
            Err(e) => {
                return Err(e);
            },
        }
    }
    Ok(p)
}

/// How the options are spelled.
pub proof fn law_spellings()
    ensures
        option_spelled("-h"@) == Some(ShadowOpt::Help),
        option_spelled("--help"@) == Some(ShadowOpt::Help),
        option_spelled("-m"@) == Some(ShadowOpt::Model),
        option_spelled("--model"@) == Some(ShadowOpt::Model),
        option_spelled("--mtp"@) == Some(ShadowOpt::Mtp),
        option_spelled("--dspark"@) == Some(ShadowOpt::Dspark),
        option_spelled("--backend"@) == Some(ShadowOpt::Backend),
        option_spelled("--cuda"@) == Some(ShadowOpt::Cuda),
        option_spelled("--cpu"@) == Some(ShadowOpt::Cpu),
        option_spelled("--metal"@) == Some(ShadowOpt::Metal),
        option_spelled("-c"@) == Some(ShadowOpt::Ctx),
        option_spelled("--ctx"@) == Some(ShadowOpt::Ctx),
        option_spelled("-n"@) == Some(ShadowOpt::NPredict),
        option_spelled("--tokens"@) == Some(ShadowOpt::NPredict),
        option_spelled("--n-predict"@) == Some(ShadowOpt::NPredict),
        option_spelled("--temp"@) == Some(ShadowOpt::Temp),
        option_spelled("--top-p"@) == Some(ShadowOpt::TopP),
        option_spelled("--min-p"@) == Some(ShadowOpt::MinP),
        option_spelled("--seed"@) == Some(ShadowOpt::Seed),
        option_spelled("--think"@) == Some(ShadowOpt::Think),
        option_spelled("--nothink"@) == Some(ShadowOpt::NoThink),
        option_spelled("-sys"@) == Some(ShadowOpt::System),
        option_spelled("--system"@) == Some(ShadowOpt::System),
        option_spelled("-p"@) == Some(ShadowOpt::Prompt),
        option_spelled("--prompt"@) == Some(ShadowOpt::Prompt),
        option_spelled("--prompt-file"@) == Some(ShadowOpt::PromptFile),
        option_spelled("--dump-logprobs"@) == Some(ShadowOpt::DumpLogprobs),
        option_spelled("--logprobs-top-k"@) == Some(ShadowOpt::LogprobsTopK),
        option_spelled("-t"@) == Some(ShadowOpt::Threads),
        option_spelled("--threads"@) == Some(ShadowOpt::Threads),
        option_spelled("--token-ids"@) == Some(ShadowOpt::TokenIds),
        option_spelled("--predict"@) == Some(ShadowOpt::Predict),
        option_spelled("--lifecycle"@) == Some(ShadowOpt::Lifecycle),
        option_spelled("--identify"@) == Some(ShadowOpt::Identify),
        option_spelled("--inventory"@) == Some(ShadowOpt::Inventory),
        option_spelled("--tokenize"@) == Some(ShadowOpt::Tokenize),
        option_spelled("--session-plan"@) == Some(ShadowOpt::SessionPlan),
        option_spelled("--session-payload"@) == Some(ShadowOpt::SessionPayload),
        option_spelled("--bind-names"@) == Some(ShadowOpt::BindNames),
        option_spelled("--bind-plan"@) == Some(ShadowOpt::BindPlan),
        option_spelled("--validate"@) == Some(ShadowOpt::Validate),
        option_spelled("--layout"@) == Some(ShadowOpt::Layout),
{
    reveal_strlit("-h");
    reveal_strlit("--help");
    reveal_strlit("-m");
    reveal_strlit("--model");
    reveal_strlit("--mtp");
    reveal_strlit("--dspark");
    reveal_strlit("--backend");
    reveal_strlit("--cuda");
    reveal_strlit("--cpu");
    reveal_strlit("--metal");
    reveal_strlit("-c");
    reveal_strlit("--ctx");
    reveal_strlit("-n");
    reveal_strlit("--tokens");
    reveal_strlit("--n-predict");
    reveal_strlit("--temp");
    reveal_strlit("--top-p");
    reveal_strlit("--min-p");
    reveal_strlit("--seed");
    reveal_strlit("--think");
    reveal_strlit("--nothink");
    reveal_strlit("-sys");
    reveal_strlit("--system");
    reveal_strlit("-p");
    reveal_strlit("--prompt");
    reveal_strlit("--prompt-file");
    reveal_strlit("--dump-logprobs");
    reveal_strlit("--logprobs-top-k");
    reveal_strlit("-t");
    reveal_strlit("--threads");
    reveal_strlit("--token-ids");
    reveal_strlit("--predict");
    reveal_strlit("--lifecycle");
    reveal_strlit("--identify");
    reveal_strlit("--inventory");
    reveal_strlit("--tokenize");
    reveal_strlit("--session-plan");
    reveal_strlit("--session-payload");
    reveal_strlit("--bind-names");
    reveal_strlit("--bind-plan");
    reveal_strlit("--validate");
    reveal_strlit("--layout");
    assert("-h"@.len() == 2);
    assert("--help"@.len() == 6);
    assert("-m"@.len() == 2);
    assert("--model"@.len() == 7);
    assert("--mtp"@.len() == 5);
    assert("--dspark"@.len() == 8);
    assert("--backend"@.len() == 9);
    assert("--cuda"@.len() == 6);
    assert("--cpu"@.len() == 5);
    assert("--metal"@.len() == 7);
    assert("-c"@.len() == 2);
    assert("--ctx"@.len() == 5);
    assert("-n"@.len() == 2);
    assert("--tokens"@.len() == 8);
    assert("--n-predict"@.len() == 11);
    assert("--temp"@.len() == 6);
    assert("--top-p"@.len() == 7);
    assert("--min-p"@.len() == 7);
    assert("--seed"@.len() == 6);
    assert("--think"@.len() == 7);
    assert("--nothink"@.len() == 9);
    assert("-sys"@.len() == 4);
    assert("--system"@.len() == 8);
    assert("-p"@.len() == 2);
    assert("--prompt"@.len() == 8);
    assert("--prompt-file"@.len() == 13);
    assert("--dump-logprobs"@.len() == 15);
    assert("--logprobs-top-k"@.len() == 16);
    assert("-t"@.len() == 2);
    assert("--threads"@.len() == 9);
    assert("--token-ids"@.len() == 11);
    assert("--predict"@.len() == 9);
    assert("--lifecycle"@.len() == 11);
    assert("--identify"@.len() == 10);
    assert("--inventory"@.len() == 11);
    assert("--tokenize"@.len() == 10);
    assert("--session-plan"@.len() == 14);
    assert("--session-payload"@.len() == 17);
    assert("--bind-names"@.len() == 12);
    assert("--bind-plan"@.len() == 11);
    assert("--validate"@.len() == 10);
    assert("--layout"@.len() == 8);
    assert("--backend"@[2] == 'b');
    assert("--bind-plan"@[2] == 'b');
    assert("--cpu"@[2] == 'c');
    assert("--cpu"@[3] == 'p');
    assert("--ctx"@[2] == 'c');
    assert("--ctx"@[3] == 't');
    assert("--cuda"@[2] == 'c');
    assert("--dspark"@[2] == 'd');
    assert("--help"@[2] == 'h');
    assert("--identify"@[2] == 'i');
    assert("--inventory"@[2] == 'i');
    assert("--layout"@[2] == 'l');
    assert("--lifecycle"@[2] == 'l');
    assert("--metal"@[2] == 'm');
    assert("--metal"@[3] == 'e');
    assert("--min-p"@[2] == 'm');
    assert("--min-p"@[3] == 'i');
    assert("--model"@[2] == 'm');
    assert("--model"@[3] == 'o');
    assert("--mtp"@[2] == 'm');
    assert("--n-predict"@[2] == 'n');
    assert("--nothink"@[2] == 'n');
    assert("--predict"@[2] == 'p');
    assert("--prompt"@[2] == 'p');
    assert("--seed"@[2] == 's');
    assert("--system"@[2] == 's');
    assert("--temp"@[2] == 't');
    assert("--think"@[2] == 't');
    assert("--think"@[3] == 'h');
    assert("--threads"@[2] == 't');
    assert("--token-ids"@[2] == 't');
    assert("--tokenize"@[2] == 't');
    assert("--tokens"@[2] == 't');
    assert("--top-p"@[2] == 't');
    assert("--top-p"@[3] == 'o');
    assert("--validate"@[2] == 'v');
    assert("-c"@[1] == 'c');
    assert("-h"@[1] == 'h');
    assert("-m"@[1] == 'm');
    assert("-n"@[1] == 'n');
    assert("-p"@[1] == 'p');
    assert("-t"@[1] == 't');
}

/// A flag sets what it names and nothing else.
pub proof fn law_flags(s: Shadow)
    ensures
        flag_effect(s, ShadowOpt::Help) == (Shadow { help: true, ..s }),
        flag_effect(s, ShadowOpt::Cuda) == (Shadow { backend: Backend::Cuda, ..s }),
        flag_effect(s, ShadowOpt::Cpu) == (Shadow { backend: Backend::Cpu, ..s }),
        flag_effect(s, ShadowOpt::Metal) == (Shadow { backend: Backend::Metal, ..s }),
        flag_effect(s, ShadowOpt::Think) == (Shadow { nothink: false, ..s }),
        flag_effect(s, ShadowOpt::NoThink) == (Shadow { nothink: true, ..s }),
        flag_effect(s, ShadowOpt::Lifecycle) == (Shadow { lifecycle_only: true, ..s }),
        flag_effect(s, ShadowOpt::Identify) == (Shadow { identify: true, ..s }),
        flag_effect(s, ShadowOpt::Inventory) == (Shadow { inventory: true, ..s }),
        flag_effect(s, ShadowOpt::BindPlan) == (Shadow { bind_plan: true, ..s }),
        flag_effect(s, ShadowOpt::Validate) == (Shadow { validate: true, ..s }),
{
}

/// An option with a text takes it as it is, and changes nothing else.
pub proof fn law_text_options(s: Shadow, flag: Seq<char>, v: Seq<char>, bits: Option<u32>)
    ensures
        value_effect(s, ShadowOpt::Model, flag, v, bits) == Ok::<Shadow, Seq<char>>((Shadow { model: Some(v), ..s })),
        value_effect(s, ShadowOpt::Mtp, flag, v, bits) == Ok::<Shadow, Seq<char>>((Shadow { mtp: Some(v), ..s })),
        value_effect(s, ShadowOpt::Dspark, flag, v, bits) == Ok::<Shadow, Seq<char>>((Shadow { dspark: Some(v), ..s })),
        value_effect(s, ShadowOpt::System, flag, v, bits) == Ok::<Shadow, Seq<char>>((Shadow { system: v, ..s })),
        value_effect(s, ShadowOpt::Prompt, flag, v, bits) == Ok::<Shadow, Seq<char>>((Shadow { prompt: Some(v), ..s })),
        value_effect(s, ShadowOpt::PromptFile, flag, v, bits) == Ok::<Shadow, Seq<char>>((Shadow { prompt_file: Some(v), ..s })),
        value_effect(s, ShadowOpt::DumpLogprobs, flag, v, bits) == Ok::<Shadow, Seq<char>>((Shadow { dump_logprobs: Some(v), ..s })),
        value_effect(s, ShadowOpt::BindNames, flag, v, bits) == Ok::<Shadow, Seq<char>>((Shadow { bind_names: true, bind_names_variant: Some(v), ..s })),
        value_effect(s, ShadowOpt::Layout, flag, v, bits) == Ok::<Shadow, Seq<char>>((Shadow { layout: true, layout_variant: Some(v), ..s })),
{
}

/// A backend is chosen by its name, and any other name is refused.
pub proof fn law_backend_option(s: Shadow, flag: Seq<char>, v: Seq<char>, bits: Option<u32>)
    ensures
        v == "cuda"@ ==> value_effect(s, ShadowOpt::Backend, flag, v, bits) == Ok::<Shadow, Seq<char>>((Shadow { backend: Backend::Cuda, ..s })),
        v == "metal"@ ==> value_effect(s, ShadowOpt::Backend, flag, v, bits) == Ok::<Shadow, Seq<char>>((Shadow { backend: Backend::Metal, ..s })),
        v == "cpu"@ ==> value_effect(s, ShadowOpt::Backend, flag, v, bits) == Ok::<Shadow, Seq<char>>((Shadow { backend: Backend::Cpu, ..s })),
        v != "cuda"@ && v != "metal"@ && v != "cpu"@ ==> value_effect(s, ShadowOpt::Backend, flag, v, bits) == Err::<Shadow, Seq<char>>("unknown backend: "@ + v),
{
    reveal_strlit("cuda");
    reveal_strlit("metal");
    reveal_strlit("cpu");
    assert("cuda"@.len() == 4 && "metal"@.len() == 5 && "cpu"@.len() == 3);
}

/// An option with a number takes the number that is written, and changes nothing
/// else; the sizes refuse what is not above 0.
pub proof fn law_number_options(s: Shadow, flag: Seq<char>, n: i32, bits: Option<u32>)
    ensures
        n > 0 ==> value_effect(s, ShadowOpt::Ctx, flag, text::signed_decimal(n as int), bits) == Ok::<Shadow, Seq<char>>((Shadow { ctx: n, ctx_set: true, ..s })),
        n > 0 ==> value_effect(s, ShadowOpt::NPredict, flag, text::signed_decimal(n as int), bits) == Ok::<Shadow, Seq<char>>((Shadow { n_predict: n, ..s })),
        n <= 0 ==> value_effect(s, ShadowOpt::Ctx, flag, text::signed_decimal(n as int), bits) == Err::<Shadow, Seq<char>>("invalid value for "@ + flag + ": "@ + text::signed_decimal(n as int)),
        n <= 0 ==> value_effect(s, ShadowOpt::NPredict, flag, text::signed_decimal(n as int), bits) == Err::<Shadow, Seq<char>>("invalid value for "@ + flag + ": "@ + text::signed_decimal(n as int)),
        value_effect(s, ShadowOpt::LogprobsTopK, flag, text::signed_decimal(n as int), bits) == Ok::<Shadow, Seq<char>>((Shadow { logprobs_top_k: n, ..s })),
        value_effect(s, ShadowOpt::Threads, flag, text::signed_decimal(n as int), bits) == Ok::<Shadow, Seq<char>>((Shadow { threads: n, ..s })),
        value_effect(s, ShadowOpt::Predict, flag, text::signed_decimal(n as int), bits) == Ok::<Shadow, Seq<char>>((Shadow { predict: n, ..s })),
{
    num::law_signed_decimal_round_trip(n);
    lemma_no_comma(n);
}

/// A seed is any 64-bit number but 0.
pub proof fn law_seed_option(s: Shadow, flag: Seq<char>, n: u64, bits: Option<u32>)
    ensures
        n > 0 ==> value_effect(s, ShadowOpt::Seed, flag, text::decimal(n as nat), bits) == Ok::<Shadow, Seq<char>>((Shadow { seed: n, ..s })),
        n == 0 ==> value_effect(s, ShadowOpt::Seed, flag, text::decimal(n as nat), bits) == Err::<Shadow, Seq<char>>("invalid value for "@ + flag + ": "@ + text::decimal(n as nat)),
{
    num::law_decimal_round_trip(n);
}

/// A temperature lies between 0 and 100, a probability between 0 and 1.
pub proof fn law_float_options(s: Shadow, flag: Seq<char>, v: Seq<char>, x: u32)
    ensures
        x <= 0x42c8_0000 || x == 0x8000_0000 ==> value_effect(s, ShadowOpt::Temp, flag, v, Some(x)) == Ok::<Shadow, Seq<char>>((Shadow { temp: x, ..s })),
        x > 0x42c8_0000 && x != 0x8000_0000 ==> value_effect(s, ShadowOpt::Temp, flag, v, Some(x)) == Err::<Shadow, Seq<char>>("invalid value for "@ + flag + ": "@ + v),
        x <= 0x3f80_0000 || x == 0x8000_0000 ==> value_effect(s, ShadowOpt::TopP, flag, v, Some(x)) == Ok::<Shadow, Seq<char>>((Shadow { top_p: x, ..s })),
        x > 0x3f80_0000 && x != 0x8000_0000 ==> value_effect(s, ShadowOpt::TopP, flag, v, Some(x)) == Err::<Shadow, Seq<char>>("invalid value for "@ + flag + ": "@ + v),
        x <= 0x3f80_0000 || x == 0x8000_0000 ==> value_effect(s, ShadowOpt::MinP, flag, v, Some(x)) == Ok::<Shadow, Seq<char>>((Shadow { min_p: x, ..s })),
        x > 0x3f80_0000 && x != 0x8000_0000 ==> value_effect(s, ShadowOpt::MinP, flag, v, Some(x)) == Err::<Shadow, Seq<char>>("invalid value for "@ + flag + ": "@ + v),
{
}

proof fn lemma_decimal_chars(n: nat)
    ensures
        forall|k: int| 0 <= k < text::decimal(n).len() ==> '0' <= #[trigger] text::decimal(n)[k] <= '9',
        text::decimal(n).len() > 0,
    decreases n,
{
    if n >= 10 {
        lemma_decimal_chars(n / 10);
    }
}

proof fn lemma_no_comma(n: i32)
    ensures
        !text::signed_decimal(n as int).contains(','),
{
    lemma_decimal_chars(
        if n < 0 {
            (-(n as int)) as nat
        } else {
            n as nat
        },
    );
}

/// The numbers `ids` written with commas between them.
pub open spec fn listed(ids: Seq<i32>) -> Seq<char>
    decreases ids.len(),
{
    if ids.len() == 0 {
        seq![]
    } else if ids.len() == 1 {
        text::signed_decimal(ids[0] as int)
    } else {
        text::signed_decimal(ids[0] as int) + seq![','] + listed(ids.skip(1))
    }
}

proof fn lemma_part(s: Seq<char>, from: int, i: int, j: int)
    requires
        0 <= from <= i <= j <= s.len(),
        forall|k: int| i <= k < j ==> #[trigger] s[k] != ',',
    ensures
        token_list(s, from, i) == token_list(s, from, j),
    decreases j - i,
{
    if i < j {
        lemma_part(s, from, i + 1, j);
    }
}

proof fn lemma_trimmed(n: i32)
    ensures
        text::trimmed(text::signed_decimal(n as int)) == text::signed_decimal(n as int),
{
    let d = text::signed_decimal(n as int);
    lemma_decimal_chars(
        if n < 0 {
            (-(n as int)) as nat
        } else {
            n as nat
        },
    );
    assert(d.len() > 0);
    assert(d[0] == '-' || '0' <= d[0] <= '9');
    assert('0' <= d.last() <= '9');
    assert(text::trim_start(d) == d);
    assert(text::trim_end(d) == d);
}

proof fn lemma_listed(s: Seq<char>, ids: Seq<i32>, at: int)
    requires
        ids.len() > 0,
        0 <= at <= s.len(),
        s.skip(at) == listed(ids),
    ensures
        token_list(s, at, at) == Ok::<Seq<i32>, Seq<char>>(ids),
    decreases ids.len(),
{
    let d = text::signed_decimal(ids[0] as int);
    let w = s.skip(at);
    let e = at + d.len();
    lemma_no_comma(ids[0]);
    lemma_trimmed(ids[0]);
    num::law_signed_decimal_round_trip(ids[0]);
    assert forall|k: int| at <= k < e implies #[trigger] s[k] != ',' by {
        assert(w[k - at] == d[k - at]);
        assert(d.contains(d[k - at]));
        assert(s[k] == w[k - at]);
    }
    lemma_part(s, at, at, e);
    assert(s.subrange(at, e) =~= d) by {
        assert forall|k: int| 0 <= k < d.len() implies s[at + k] == d[k] by {
            assert(w[k] == d[k]);
        }
    }
    if ids.len() == 1 {
        assert(e == s.len());
        assert(seq![ids[0]] + Seq::<i32>::empty() =~= ids);
    } else {
        let rest = ids.skip(1);
        assert(w[d.len() as int] == ',');
        assert(s[e] == ',');
        assert(s.skip(e + 1) =~= w.skip(d.len() as int + 1));
        assert(w.skip(d.len() as int + 1) =~= listed(rest));
        lemma_listed(s, rest, e + 1);
        assert(seq![ids[0]] + rest =~= ids);
    }
}

/// Token ids that are listed with commas between them are read back as they
/// were.
pub proof fn law_token_ids_round_trip(ids: Seq<i32>)
    ensures
        token_ids(listed(ids)) == Ok::<Seq<i32>, Seq<char>>(ids),
{
    if ids.len() == 0 {
        assert(ids =~= seq![]);
    } else {
        let s = listed(ids);
        assert(s.skip(0) =~= s);
        lemma_decimal_chars(
            if ids[0] < 0 {
                (-(ids[0] as int)) as nat
            } else {
                ids[0] as nat
            },
        );
        lemma_listed(s, ids, 0);
    }
}

/// The list of token ids is what is run, and nothing else changes.
pub proof fn law_token_ids_option(s: Shadow, flag: Seq<char>, ids: Seq<i32>, bits: Option<u32>)
    ensures
        value_effect(s, ShadowOpt::TokenIds, flag, listed(ids), bits) == Ok::<Shadow, Seq<char>>((Shadow { tokens: ids, ..s })),
{
    law_token_ids_round_trip(ids);
}

proof fn lemma_up_to_dash(a: Seq<Arg>, i: int, e: int)
    requires
        0 <= i <= e <= a.len(),
        forall|k: int|
            i <= k < e ==> (#[trigger] a[k]).text@.len() == 0 || a[k].text@[0] != '-',
        e < a.len() ==> a[e].text@.len() > 0 && a[e].text@[0] == '-',
    ensures
        next_dashed(a, i) == e,
    decreases e - i,
{
    reveal_strlit("-");
    if i < e {
        let t = a[i].text@;
        if dashed(t) {
            assert(t.subrange(0, 1)[0] == "-"@[0]);
        }
        lemma_up_to_dash(a, i + 1, e);
    } else if e < a.len() {
        let t = a[e].text@;
        assert(t.subrange(0, 1) =~= "-"@);
    }
}

/// An option takes the argument behind it as its value, and a flag none. Only one
/// of the prompts can be given.
pub proof fn law_what_an_option_takes(a: Seq<Arg>, i: int, s: Shadow, o: ShadowOpt)
    requires
        0 <= i < a.len(),
        option_spelled(a[i].text@) == Some(o),
    ensures
        o is Help || o is Cuda || o is Cpu || o is Metal || o is Think || o is NoThink || o is Lifecycle || o is Identify || o is Inventory || o is BindPlan || o is Validate ==> option_step(a, i, s) == Ok::<(Shadow, int), Seq<char>>((flag_effect(s, o), i + 1)),
        i + 1 < a.len() && (o is Model || o is Mtp || o is Dspark || o is Backend || o is Ctx || o is NPredict || o is Temp || o is TopP || o is MinP || o is Seed || o is System || o is DumpLogprobs || o is LogprobsTopK || o is Threads || o is TokenIds || o is Predict || o is BindNames || o is Layout || (o is Prompt || o is PromptFile) && s.prompt is None
            && s.prompt_file is None) ==> option_step(a, i, s) == match value_effect(
            s,
            o,
            a[i].text@,
            a[i + 1].text@,
            a[i + 1].f32_bits,
        ) {
            Ok(after) => Ok::<(Shadow, int), Seq<char>>((after, i + 2)),
            Err(e) => Err(e),
        },
        (o is Prompt || o is PromptFile) && (s.prompt is Some || s.prompt_file is Some)
            ==> option_step(a, i, s) == Err::<(Shadow, int), Seq<char>>(
            "specify only one prompt source"@,
        ),
        i + 1 == a.len() && (o is Model || o is Mtp || o is Dspark || o is Backend || o is Ctx || o is NPredict || o is Temp || o is TopP || o is MinP || o is Seed || o is System || o is DumpLogprobs || o is LogprobsTopK || o is Threads || o is TokenIds || o is Predict || o is BindNames || o is Layout || o is SessionPlan || o is SessionPayload || o is Tokenize)
            ==> option_step(a, i, s) == Err::<(Shadow, int), Seq<char>>(
            a[i].text@ + " requires a value"@,
        ),
{
}

/// A plan or a payload takes a command and all arguments behind it up to the
/// first that starts with a dash.
pub proof fn law_commands_take_the_rest(a: Seq<Arg>, i: int, s: Shadow, e: int)
    requires
        0 <= i,
        i + 2 <= e <= a.len(),
        forall|k: int|
            i + 2 <= k < e ==> (#[trigger] a[k]).text@.len() == 0 || a[k].text@[0] != '-',
        e < a.len() ==> a[e].text@.len() > 0 && a[e].text@[0] == '-',
    ensures
        option_spelled(a[i].text@) == Some(ShadowOpt::SessionPlan) ==> option_step(a, i, s) == Ok::<
            (Shadow, int),
            Seq<char>,
        >(
            (
                Shadow {
                    session_plan: true,
                    session_cmd: Some(a[i + 1].text@),
                    session_args: s.session_args + Seq::new(
                        (e - i - 2) as nat,
                        |k: int| a[i + 2 + k].text@,
                    ),
                    ..s
                },
                e,
            ),
        ),
        option_spelled(a[i].text@) == Some(ShadowOpt::SessionPayload) ==> option_step(a, i, s)
            == Ok::<(Shadow, int), Seq<char>>(
            (
                Shadow {
                    session_payload: true,
                    payload_cmd: Some(a[i + 1].text@),
                    payload_args: s.payload_args + Seq::new(
                        (e - i - 2) as nat,
                        |k: int| a[i + 2 + k].text@,
                    ),
                    ..s
                },
                e,
            ),
        ),
{
    lemma_up_to_dash(a, i + 2, e);
    assert(arg_texts(a.subrange(i + 2, e)) =~= Seq::new(
        (e - i - 2) as nat,
        |k: int| a[i + 2 + k].text@,
    ));
}

/// The options are read one after the other: each is read with what those before
/// it left, from where the one before it ended, and the first that is wrong ends
/// the reading.
pub proof fn law_options_are_read_in_turn(a: Seq<Arg>, i: int, s: Shadow)
    requires
        0 <= i,
    ensures
        i >= a.len() ==> options_from(a, i, s) == Ok::<Shadow, Seq<char>>(s),
        i < a.len() ==> (option_step(a, i, s) matches Ok(r) ==> options_from(a, i, s)
            == options_from(a, r.1, r.0)),
        i < a.len() ==> (option_step(a, i, s) matches Err(e) ==> options_from(a, i, s) == Err::<
            Shadow,
            Seq<char>,
        >(e)),
{
}

} // verus!
