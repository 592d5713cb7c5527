//! The options of the command line program.

use ds4::args::Arg;
use ds4::cli::options::{parse_args, parse_tokens, ShadowArgs};
use ds4::cli::{
    dump_context, dump_footer, dump_header, dump_limit, dump_step, dump_top_k, generate_action,
    generation_limit, help_text, is_rendered_chat_prompt, json_token, lifecycle_line,
    prompt_source, run_action, sampled_generation_limit, validate_one_shot_args, GenerateAction,
    PromptSource, RunAction, ScoreText,
};
use ds4::model::Backend;

fn argv(parts: &[&str]) -> Vec<Arg> {
    std::iter::once("ds4-rs")
        .chain(parts.iter().copied())
        .map(|s| Arg {
            text: s.to_string(),
            f32_bits: s.parse::<f32>().ok().map(f32::to_bits),
        })
        .collect()
}

fn parse(parts: &[&str]) -> Result<ShadowArgs, String> {
    parse_args(&argv(parts), Backend::Cuda)
}

#[test]
fn parses_lifecycle() {
    let parsed = parse(&["-m", "m.gguf", "--lifecycle", "-c", "4096"]).unwrap();
    assert_eq!(parsed.model.as_deref(), Some("m.gguf"));
    assert_eq!(parsed.ctx, 4096);
    assert!(parsed.lifecycle_only);
    assert_eq!(parsed.backend, Backend::Cuda);
}

#[test]
fn uses_c_cli_core_defaults() {
    let parsed = parse(&[]).unwrap();

    assert_eq!(parsed.model.as_deref(), Some("ds4flash.gguf"));
    assert_eq!(parsed.backend, Backend::Cuda);
    assert_eq!(parsed.ctx, 32768);
    assert_eq!(parsed.n_predict, 50000);
    assert_eq!(parsed.system, "You are a helpful assistant");
    assert_eq!(f32::from_bits(parsed.temp), 1.0);
    assert_eq!(f32::from_bits(parsed.top_p), 1.0);
    assert_eq!(f32::from_bits(parsed.min_p), 0.05);
    assert_eq!(parsed.seed, 0);
    assert!(!parsed.nothink);
}

#[test]
fn parses_c_cli_sampling_options() {
    let parsed = parse(&[
        "--temp", "0.8", "--top-p", "0.9", "--min-p", "0.02", "--seed", "424242",
    ])
    .unwrap();

    assert_eq!(f32::from_bits(parsed.temp), 0.8);
    assert_eq!(f32::from_bits(parsed.top_p), 0.9);
    assert_eq!(f32::from_bits(parsed.min_p), 0.02);
    assert_eq!(parsed.seed, 424242);
}

#[test]
fn rejects_sampling_outside_c_cli_ranges() {
    for bad in [
        ["--temp", "NaN"],
        ["--temp", "101"],
        ["--top-p", "-0.1"],
        ["--top-p", "1.1"],
        ["--min-p", "-0.1"],
        ["--min-p", "1.1"],
        ["--seed", "0"],
    ] {
        assert!(parse(&bad).is_err(), "accepted {bad:?}");
    }
}

#[test]
fn parses_output_budget_and_explicit_raw_token_ids() {
    let parsed = parse(&[
        "--tokens",
        "17",
        "--token-ids",
        "1, 2,3",
        "--predict",
        "4",
    ])
    .unwrap();

    assert_eq!(parsed.n_predict, 17);
    assert_eq!(parsed.tokens, vec![1, 2, 3]);
    assert_eq!(parsed.predict, 4);
}

#[test]
fn parses_token_ids() {
    let parsed = parse(&["--token-ids", "1, 2,3", "--predict", "4"]).unwrap();
    assert_eq!(parsed.tokens, vec![1, 2, 3]);
    assert_eq!(parsed.predict, 4);
}

#[test]
fn raw_token_ids_have_an_actionable_tokens_collision_error() {
    let err = parse(&["--tokens", "1,2,3"]).unwrap_err();

    assert!(err.contains("use --token-ids for raw token IDs"), "{err}");
}

#[test]
fn rejects_non_positive_c_cli_integer_ranges() {
    assert_eq!(
        parse(&["--tokens", "0"]).unwrap_err(),
        "invalid value for --tokens: 0"
    );
    assert_eq!(
        parse(&["--ctx", "-1"]).unwrap_err(),
        "invalid value for --ctx: -1"
    );
}

#[test]
fn rejects_more_than_one_prompt_source() {
    assert_eq!(
        parse(&["-p", "one", "--prompt-file", "two.txt"]).unwrap_err(),
        "specify only one prompt source"
    );
    assert_eq!(
        parse(&["--prompt-file", "one.txt", "-p", "two"]).unwrap_err(),
        "specify only one prompt source"
    );
}

#[test]
fn parses_system_and_last_think_mode_wins() {
    let thinking = parse(&["-sys", "system", "--nothink", "--think", "-p", "hello"]).unwrap();
    assert_eq!(thinking.system, "system");
    assert!(!thinking.nothink);

    let direct = parse(&["--think", "--nothink", "-p", "hello"]).unwrap();
    assert!(direct.nothink);
}

#[test]
fn validates_only_supported_one_shot_routes() {
    let greedy = parse(&["-p", "hello", "--temp", "0", "--nothink"]).unwrap();
    assert!(validate_one_shot_args(&greedy).is_ok());

    let sampled = parse(&["-p", "hello", "--temp", "0.5", "--nothink"]).unwrap();
    assert!(validate_one_shot_args(&sampled).is_ok());

    let thinking = parse(&["-p", "hello", "--temp", "0", "--think"]).unwrap();
    assert!(validate_one_shot_args(&thinking).is_ok());

    let mtp = parse(&[
        "-p",
        "hello",
        "--temp",
        "0",
        "--nothink",
        "--mtp",
        "mtp.gguf",
    ])
    .unwrap();
    assert!(validate_one_shot_args(&mtp)
        .unwrap_err()
        .contains("--mtp/--dspark"));
}

#[test]
fn rejects_the_unimplemented_repl_route() {
    let parsed = parse(&[]).unwrap();

    assert!(validate_one_shot_args(&parsed)
        .unwrap_err()
        .contains("REPL is not implemented"));
}

#[test]
fn clamps_generation_to_the_remaining_context() {
    assert_eq!(generation_limit(32768, 100, 50000), 32668);
    assert_eq!(generation_limit(128, 127, 10), 1);
    assert_eq!(generation_limit(128, 128, 10), 0);
    assert_eq!(generation_limit(128, 120, 4), 4);

    assert_eq!(sampled_generation_limit(128, 127, 10), 0);
    assert_eq!(sampled_generation_limit(128, 126, 10), 1);
    assert_eq!(sampled_generation_limit(128, 120, 4), 4);
}

#[test]
fn detects_rendered_chat_prompt() {
    assert!(is_rendered_chat_prompt(
        "<｜begin▁of▁sentence｜>already rendered"
    ));
    assert!(!is_rendered_chat_prompt("plain user prompt"));
}

#[test]
fn rejects_unknown() {
    assert!(parse(&["--nope"]).is_err());
}

#[test]
fn parses_identify() {
    let parsed = parse(&["-m", "m.gguf", "--identify"]).unwrap();
    assert!(parsed.identify);
    assert_eq!(parsed.model.as_deref(), Some("m.gguf"));
}

#[test]
fn parses_inventory() {
    let parsed = parse(&["-m", "m.gguf", "--inventory"]).unwrap();
    assert!(parsed.inventory);
}

#[test]
fn parses_tokenize() {
    let parsed = parse(&["-m", "m.gguf", "--tokenize", "motif3", "encode", "6869"]).unwrap();
    assert!(parsed.tokenize);
    assert_eq!(parsed.tok_family.as_deref(), Some("motif3"));
    assert_eq!(parsed.tok_cmd.as_deref(), Some("encode"));
    assert_eq!(parsed.tok_arg.as_deref(), Some("6869"));
}

#[test]
fn parses_session_plan() {
    let parsed = parse(&["--session-plan", "rewrite", "1024", "1100", "1024"]).unwrap();
    assert!(parsed.session_plan);
    assert_eq!(parsed.session_cmd.as_deref(), Some("rewrite"));
    assert_eq!(parsed.session_args, vec!["1024", "1100", "1024"]);
}

#[test]
fn parses_session_payload() {
    let parsed = parse(&["--session-payload", "encode-deepseek"]).unwrap();
    assert!(parsed.session_payload);
    assert_eq!(parsed.payload_cmd.as_deref(), Some("encode-deepseek"));
    assert!(parsed.payload_args.is_empty());
}

#[test]
fn parses_bind_names() {
    let parsed = parse(&["--bind-names", "motif3"]).unwrap();
    assert!(parsed.bind_names);
    assert_eq!(parsed.bind_names_variant.as_deref(), Some("motif3"));
}

#[test]
fn parses_bind_names_support() {
    let parsed = parse(&["--bind-names", "mtp-flash"]).unwrap();
    assert!(parsed.bind_names);
    assert_eq!(parsed.bind_names_variant.as_deref(), Some("mtp-flash"));
}

#[test]
fn parses_layout_support() {
    let parsed = parse(&["--layout", "dspark-pro"]).unwrap();
    assert!(parsed.layout);
    assert_eq!(parsed.layout_variant.as_deref(), Some("dspark-pro"));
}

#[test]
fn parses_bind_plan() {
    let parsed = parse(&["-m", "m.gguf", "--bind-plan"]).unwrap();
    assert!(parsed.bind_plan);
    assert_eq!(parsed.model.as_deref(), Some("m.gguf"));
}

#[test]
fn parses_bind_plan_with_support_catalog() {
    let parsed = parse(&["-m", "mtp.gguf", "--bind-names", "mtp-flash", "--bind-plan"]).unwrap();
    assert!(parsed.bind_plan);
    assert!(parsed.bind_names);
    assert_eq!(parsed.bind_names_variant.as_deref(), Some("mtp-flash"));
    assert_eq!(parsed.model.as_deref(), Some("mtp.gguf"));
}

#[test]
fn parses_validate() {
    let parsed = parse(&["-m", "m.gguf", "--validate"]).unwrap();
    assert!(parsed.validate);
    assert_eq!(parsed.model.as_deref(), Some("m.gguf"));
}

#[test]
fn parses_layout() {
    let parsed = parse(&["--layout", "flash"]).unwrap();
    assert!(parsed.layout);
    assert_eq!(parsed.layout_variant.as_deref(), Some("flash"));
}

#[test]
fn negative_zero_is_a_temperature() {
    let parsed = parse(&["--temp", "-0.0"]).unwrap();
    assert_eq!(f32::from_bits(parsed.temp), 0.0);
    assert!(parse(&["--temp", "100"]).is_ok());
    assert!(parse(&["--temp", "inf"]).is_err());
}

#[test]
fn token_lists_are_read_with_blanks_around() {
    assert_eq!(parse_tokens("7").unwrap(), vec![7]);
    assert_eq!(parse_tokens(" 1 ,\t-2").unwrap(), vec![1, -2]);
    assert!(parse_tokens("1,x").is_err());
}

#[test]
fn help_wins_over_everything() {
    let parsed = parse(&["--help", "--identify"]).unwrap();
    assert!(parsed.help);
    assert_eq!(run_action(&parsed).unwrap(), RunAction::Help);
    assert!(help_text("ds4-rs").contains("ds4-rs --help"));
}

#[test]
fn actions_follow_the_options() {
    assert_eq!(
        run_action(&parse(&["--identify", "-m", "m"]).unwrap()).unwrap(),
        RunAction::Identify
    );
    assert_eq!(
        run_action(&parse(&["--layout", "flash"]).unwrap()).unwrap(),
        RunAction::Layout
    );
    assert_eq!(
        run_action(&parse(&["-p", "x"]).unwrap()).unwrap(),
        RunAction::Generate
    );
    assert_eq!(
        generate_action(&parse(&["--lifecycle"]).unwrap()).unwrap(),
        GenerateAction::Lifecycle
    );
    assert_eq!(
        generate_action(&parse(&["-p", "x", "--temp", "0"]).unwrap()).unwrap(),
        GenerateAction::OneShot
    );
    assert_eq!(
        prompt_source(&parse(&["--prompt-file", "f"]).unwrap()).unwrap(),
        PromptSource::File
    );
}

#[test]
fn lifecycle_line_names_backend_and_context() {
    let line = lifecycle_line(Backend::Cpu, 4096, 0);
    assert_eq!(line, "lifecycle ok backend=Cpu ctx=4096 pos=0");
}

#[test]
fn a_dump_is_one_document() {
    let parsed = parse(&["-p", "x"]).unwrap();
    let ctx = dump_context(&parsed, 5);
    assert_eq!(ctx, 50013);
    assert_eq!(dump_context(&parse(&["-p", "x", "-c", "64"]).unwrap(), 5), 64);
    assert_eq!(dump_limit(10, 9, 5), 0);
    assert_eq!(dump_limit(10, 4, 9), 5);
    assert_eq!(dump_limit(10, 4, 3), 3);
    assert_eq!(dump_top_k(0), 1);
    assert_eq!(dump_top_k(4096), 128);
    let k = dump_top_k(3);
    assert_eq!(k, 3);
    let score = ScoreText {
        id: 4,
        json: json_token(4, b"a\""),
        logit: "1.5".to_string(),
        logprob: "-0.5".to_string(),
    };
    let step = dump_step(0, &json_token(4, b"a\""), &[score]);
    assert!(step.contains("1.5"), "{step}");
    assert!(step.contains("-0.5"), "{step}");
    assert!(dump_header(5, ctx, k).starts_with('{'));
    assert!(dump_footer().contains('}'));
}
