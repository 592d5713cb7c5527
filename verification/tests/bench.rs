//! The benchmark.

use ds4::bench::{
    check_prompt, help_text, next_frontier, parse_args, route_step, step_shape_note,
    uses_distributed_replay, BenchArg, BenchArgs, BenchRow, DistMatch, DistOutcome, Role,
    RouteStep, Sweep, SweepAction, SweepFailure, CSV_HEADER,
};
use ds4::model::Backend;

fn dist_match(text: &str) -> DistMatch {
    match text {
        "--role" | "--layers" | "--dist-prefill-chunk" | "--dist-prefill-window"
        | "--dist-activation-bits" => DistMatch::Matched(1),
        "--listen" | "--coordinator" => DistMatch::Matched(2),
        "--dist-bad" => DistMatch::Failed("bad".to_string()),
        _ => DistMatch::NotMatched,
    }
}

fn parse_role(args: &[&str], role: Role, refused: Option<&str>) -> Result<BenchArgs, String> {
    let argv: Vec<BenchArg> = std::iter::once("ds4-bench-rs")
        .chain(args.iter().copied())
        .map(|s| BenchArg {
            text: s.to_string(),
            f64_bits: s.parse::<f64>().ok().map(f64::to_bits),
            dist: dist_match(s),
        })
        .collect();
    parse_args(
        &argv,
        Backend::Metal,
        &DistOutcome {
            refused: refused.map(str::to_string),
            role,
        },
    )
}

fn parse(args: &[&str]) -> Result<BenchArgs, String> {
    parse_role(args, Role::Single, None)
}

fn scaled(args: &BenchArgs, cur: i32) -> Option<i32> {
    let value = (f64::from(cur) * f64::from_bits(args.step_mul)).ceil();
    if value > f64::from(i32::MAX) {
        None
    } else {
        Some(value as i32)
    }
}

#[test]
fn parses_mmq_harness_arguments() {
    let args = parse(&[
        "--cuda",
        "--model",
        "model.gguf",
        "--prompt-file",
        "prompt.txt",
        "--ctx-start",
        "1024",
        "--ctx-max",
        "16384",
        "--step-mul",
        "2",
        "--step-incr",
        "2048",
        "--gen-tokens",
        "128",
        "--csv",
        "out.csv",
    ])
    .unwrap();

    assert_eq!(args.backend, Backend::Cuda);
    assert_eq!(args.model, "model.gguf");
    assert_eq!(args.prompt_file.as_deref(), Some("prompt.txt"));
    assert_eq!(args.ctx_alloc, 16513);
    assert_eq!(args.csv.as_deref(), Some("out.csv"));
}

#[test]
fn parses_distributed_coordinator_for_native_bench_runtime() {
    let args = parse_role(
        &[
            "--prompt-file",
            "prompt.txt",
            "--role",
            "coordinator",
            "--layers",
            "0:20",
            "--listen",
            "127.0.0.1",
            "7000",
            "--dist-prefill-chunk",
            "4096",
            "--dist-prefill-window",
            "4",
            "--dist-activation-bits",
            "16",
        ],
        Role::Coordinator,
        None,
    )
    .unwrap();

    assert_eq!(args.role, Role::Coordinator);
    assert!(uses_distributed_replay(&args));
}

#[test]
fn rejects_distributed_worker_as_a_serving_mode() {
    let err = parse_role(
        &[
            "--prompt-file",
            "prompt.txt",
            "--role",
            "worker",
            "--layers",
            "21:output",
            "--coordinator",
            "127.0.0.1",
            "7000",
        ],
        Role::Worker,
        None,
    )
    .unwrap_err();

    assert_eq!(
        err,
        "--role worker is a serving mode; start workers with ./ds4"
    );
}

#[test]
fn walks_linear_and_multiplicative_frontiers() {
    let args = parse(&[
        "--prompt-file",
        "prompt.txt",
        "--ctx-start",
        "1024",
        "--ctx-max",
        "16384",
        "--step-mul",
        "2",
    ])
    .unwrap();
    let mut got = Vec::new();
    let mut cur = args.ctx_start;
    loop {
        got.push(cur);
        if cur >= args.ctx_max {
            break;
        }
        cur = next_frontier(&args, cur, scaled(&args, cur));
    }
    assert_eq!(got, [1024, 2048, 4096, 8192, 16384]);

    let linear = parse(&[
        "--prompt-file",
        "prompt.txt",
        "--ctx-start",
        "2048",
        "--ctx-max",
        "6144",
        "--step-incr",
        "2048",
    ])
    .unwrap();
    assert_eq!(next_frontier(&linear, 2048, scaled(&linear, 2048)), 4096);
    assert_eq!(next_frontier(&linear, 4096, scaled(&linear, 4096)), 6144);
}

#[test]
fn validates_context_and_formats_c_csv() {
    let err = parse(&[
        "--prompt-file",
        "prompt.txt",
        "--ctx-start",
        "2048",
        "--ctx-max",
        "2048",
        "--ctx-alloc",
        "2176",
        "--gen-tokens",
        "128",
    ])
    .unwrap_err();
    assert!(err.contains("ctx-alloc"));

    let row = BenchRow {
        ctx_tokens: 2048,
        prefill_tokens: 2048,
        prefill_tps: format!("{:.2}", 123.456),
        gen_tokens: 128,
        gen_tps: format!("{:.2}", 10.004),
        gen_tps_ss: format!("{:.2}", 9.5),
        first_token_sec: format!("{:.4}", 0.12345),
        kvcache_bytes: 4096,
    };
    assert_eq!(
        CSV_HEADER,
        "ctx_tokens,prefill_tokens,prefill_tps,gen_tokens,gen_tps,gen_tps_ss,first_token_sec,kvcache_bytes"
    );
    assert_eq!(
        row.csv_line(),
        "2048,2048,123.46,128,10.00,9.50,0.1235,4096"
    );
}

#[test]
fn rejects_unported_mtp_benchmark_mode() {
    let mtp = parse(&["--prompt-file", "prompt.txt", "--mtp", "draft.gguf"]).unwrap_err();
    assert!(mtp.contains("not implemented"));
}

#[test]
fn bad_options_are_named() {
    assert_eq!(parse(&[]).unwrap_err(), "--prompt-file is required");
    assert_eq!(
        parse(&["--prompt-file"]).unwrap_err(),
        "--prompt-file requires a value"
    );
    assert_eq!(
        parse(&["--prompt-file", "p", "--ctx-start", "9", "--ctx-max", "8"]).unwrap_err(),
        "--ctx-start must be <= --ctx-max"
    );
    assert_eq!(
        parse(&["--prompt-file", "p", "--step-mul", "0.5"]).unwrap_err(),
        "--step-mul must be >= 1"
    );
    assert_eq!(
        parse(&["--prompt-file", "p", "--step-mul", "-2"]).unwrap_err(),
        "--step-mul must be >= 1"
    );
    assert_eq!(
        parse(&["--step-mul", "inf"]).unwrap_err(),
        "invalid value for --step-mul: inf"
    );
    assert_eq!(
        parse(&["--prompt-file", "p", "--ctx-max", "2147483647"]).unwrap_err(),
        "requested context is too large"
    );
    assert_eq!(
        parse(&["--backend", "tpu"]).unwrap_err(),
        "invalid backend: tpu"
    );
    assert_eq!(
        parse(&["--what"]).unwrap_err(),
        "unsupported ds4-bench-rs option: --what"
    );
    assert_eq!(parse(&["--dist-bad"]).unwrap_err(), "bad");
    assert_eq!(
        parse_role(&["--prompt-file", "p"], Role::Single, Some("no layers")).unwrap_err(),
        "no layers"
    );
    assert!(parse(&["--help", "--what"]).unwrap().help);
    assert!(help_text().starts_with("Usage: ds4-bench-rs --prompt-file FILE [options]\n"));
}

#[test]
fn one_place_more_is_allocated_unless_told() {
    let base = ["--prompt-file", "p", "--ctx-max", "5000", "--gen-tokens", "7"];
    let args = parse(&base).unwrap();
    assert_eq!(args.ctx_alloc, 5008);
    assert_eq!(f64::from_bits(args.step_mul), 1.0);
    let mut told = base.to_vec();
    told.extend(["--ctx-alloc", "9000", "--step-mul", "1.5"]);
    let args = parse(&told).unwrap();
    assert_eq!(args.ctx_alloc, 9000);
    assert_eq!(f64::from_bits(args.step_mul), 1.5);
    for factor in ["0.5", "-2", "inf", "nan"] {
        let mut bad = base.to_vec();
        bad.extend(["--step-mul", factor]);
        assert!(parse(&bad).is_err());
    }
}

#[test]
fn frontiers_always_grow() {
    let args = parse(&["--prompt-file", "p", "--ctx-start", "1", "--step-mul", "1.0001"]).unwrap();
    assert_eq!(next_frontier(&args, 1, scaled(&args, 1)), 2);
    assert_eq!(next_frontier(&args, 5, Some(5)), 6);
    assert_eq!(next_frontier(&args, 5, None), args.ctx_max);
    assert_eq!(next_frontier(&args, args.ctx_max, None), args.ctx_max);
}

#[test]
fn a_sweep_restores_before_every_row_but_the_last() {
    let args = parse(&[
        "--prompt-file",
        "p",
        "--ctx-start",
        "10",
        "--ctx-max",
        "20",
        "--step-incr",
        "10",
        "--gen-tokens",
        "1",
    ])
    .unwrap();
    assert!(check_prompt(20, &args).is_ok());
    assert_eq!(
        check_prompt(19, &args).unwrap_err(),
        "prompt has 19 tokens, need at least 20"
    );
    let mut sweep = Sweep::new(&args);
    assert_eq!(sweep.prefill_tokens(), 10);
    sweep.prefilled();
    assert_eq!(sweep.action, SweepAction::Snapshot);
    assert_eq!(sweep.outside_failure("e"), "snapshot at 10 failed: e");
    sweep.saved();
    assert_eq!(sweep.chosen(21, 22, 4), Err(SweepFailure::Context));
    assert_eq!(sweep.chosen(10, 22, -1), Err(SweepFailure::Choice));
    assert_eq!(
        SweepFailure::Choice.message(10),
        "failed to choose non-EOS token at frontier 10"
    );
    sweep.chosen(10, 22, 4).unwrap();
    sweep.evaluated();
    assert_eq!(sweep.action, SweepAction::Restore);
    sweep.restored();
    sweep.row_written();
    assert_eq!(sweep.action, SweepAction::Advance);
    sweep.advanced(20);
    assert_eq!(sweep.prefill_tokens(), 10);
    sweep.prefilled();
    sweep.saved();
    sweep.chosen(20, 22, 4).unwrap();
    sweep.evaluated();
    assert_eq!(sweep.action, SweepAction::Row);
    sweep.row_written();
    assert_eq!(sweep.action, SweepAction::Done);
    assert_eq!(sweep.steady_tokens(), 0);
}

#[test]
fn routes_are_waited_for() {
    assert_eq!(route_step(0, true), RouteStep::Ready { announce: false });
    assert_eq!(route_step(3, true), RouteStep::Ready { announce: true });
    assert_eq!(route_step(20, false), RouteStep::Wait { announce: true });
    assert_eq!(route_step(21, false), RouteStep::Wait { announce: false });
    let args = parse(&["--prompt-file", "p"]).unwrap();
    assert_eq!(step_shape_note(&args, 2048, 9), None);
    assert_eq!(
        step_shape_note(&args, 0, 4096).unwrap(),
        "ds4-bench-rs: note: --step-incr=2048 is smaller than distributed prefill chunk 4096; \
         suffix rows will not show multi-chunk pipeline overlap"
    );
}
