//! The agent: options, output, turn, trace.

use ds4::agent::approval::{parse_yes_no_line, prompt_yes_no, Approval, AskEvent, Permission};
use ds4::agent::compact::{overflow_error, should_compact, tail_start};
use ds4::agent::options::{
    effective_think, help_text, parse_args, think_warning, AgentArgs, ChatThinkMode,
    THINK_EFFORT_MIN_CONTEXT,
};
use ds4::agent::output::{contains_bytes, project_output, tool_marker_in_new_suffix};
use ds4::agent::trace::{
    backend_name, escape, format_token_line, format_trace_time, open_failure, text_line,
    think_mode_name, tokens_line, trace_line, TraceTime,
};
use ds4::agent::turn::{
    append_user_turn, build_system_transcript, format_datetime_context, seed_of,
    validate_clock_output, ChatPart, Turn, TurnAction,
};
use ds4::agent::web_tools::{
    block_complete, handle_round, has_block, parse_calls, Browser, RefusingBrowser, ToolRound,
};
use ds4::agent::write::{plan_write, WriteStep};
use ds4::args::Arg;
use ds4::model::Backend;

fn argv(items: &[&str]) -> Vec<Arg> {
    std::iter::once("ds4-agent-rs")
        .chain(items.iter().copied())
        .map(|s| Arg {
            text: s.to_string(),
            f32_bits: s.parse::<f32>().ok().map(f32::to_bits),
        })
        .collect()
}

fn parse(items: &[&str]) -> Result<AgentArgs, String> {
    parse_args(&argv(items), Backend::Cuda)
}

fn project(chunks: &[&[u8]]) -> Result<Vec<u8>, &'static str> {
    let owned: Vec<Vec<u8>> = chunks.iter().map(|c| c.to_vec()).collect();
    project_output(&owned)
}

#[test]
fn fixed_datetime_message_matches_current_c_bytes() {
    assert_eq!(
        format_datetime_context("2026-08-25 12:34:56 KST"),
        "Current local date and time at session start: 2026-08-25 12:34:56 KST. \
         Use this only when date or time matters."
    );
}

#[test]
fn non_tty_projection_matches_c_tapes() {
    let cases: &[(&[&str], &str)] = &[
        (&["hello"], "hello\n\n"),
        (
            &["reasoning", "</thi", "nk>", "  \nanswer"],
            "reasoning\n\nanswer\n\n",
        ),
        (
            &["<thi", "nk>trace</think>\n\nanswer"],
            "trace\n\nanswer\n\n",
        ),
        (
            &["line with newline\n", "</think>", "\t \nanswer\n"],
            "line with newline\n\nanswer\n\n",
        ),
    ];
    for (chunks, expected) in cases {
        let parts: Vec<&[u8]> = chunks.iter().map(|s| s.as_bytes()).collect();
        let shown = project(&parts).expect("no tool tape");
        assert_eq!(shown, expected.as_bytes(), "case {chunks:?}");
    }
}

#[test]
fn both_c_dsml_openers_are_rejected() {
    for marker in ["<｜DSML｜tool_calls>", "<DSML｜tool_calls>"] {
        assert!(project(&[b"prefix ", marker.as_bytes()]).is_err());

        let split = marker.len() / 2;
        let mut raw = b"prefix ".to_vec();
        raw.extend_from_slice(&marker.as_bytes()[..split]);
        assert!(!tool_marker_in_new_suffix(&raw, split));
        raw.extend_from_slice(&marker.as_bytes()[split..]);
        assert!(tool_marker_in_new_suffix(&raw, marker.len() - split));
    }
}

#[test]
fn clock_output_validation_falls_back_on_failure_empty_or_invalid_utf8() {
    let fallback = "1770000000";
    assert_eq!(
        validate_clock_output(true, b"2026-08-25 12:34:56 KST\n", fallback),
        "2026-08-25 12:34:56 KST"
    );
    assert_eq!(validate_clock_output(false, b"ignored", fallback), fallback);
    assert_eq!(validate_clock_output(true, b"\r\n", fallback), fallback);
    assert_eq!(validate_clock_output(true, b"\xff\n", fallback), fallback);
}

#[test]
fn narrow_cli_defaults_match_c_agent() {
    let parsed = parse(&["--non-interactive", "-p", "hello"]).expect("minimal invocation");
    assert_eq!(parsed.model, "ds4flash.gguf");
    assert_eq!(parsed.ctx, 100000);
    assert_eq!(parsed.tokens, 50000);
    assert_eq!(
        parsed.system,
        "You are a helpful coding assistant running inside ds4-agent."
    );
    assert_eq!(f32::from_bits(parsed.temp), 1.0);
    assert_eq!(f32::from_bits(parsed.top_p), 1.0);
    assert_eq!(f32::from_bits(parsed.min_p), 0.05);
    assert_eq!(parsed.think, ChatThinkMode::Low);
    assert_eq!(parsed.prompt.as_deref(), Some("hello"));
}

#[test]
fn high_thinking_uses_the_c_context_boundary() {
    let mut args = AgentArgs::with_backend(Backend::Cuda);
    args.think = ChatThinkMode::High;
    args.ctx = THINK_EFFORT_MIN_CONTEXT - 1;
    assert_eq!(effective_think(&args), ChatThinkMode::Low);
    assert_eq!(
        think_warning("ds4", &args).as_deref(),
        Some(
            "ds4: warning: --think-max needs --ctx >= 393216; \
             ctx=393215 uses normal thinking instead"
        )
    );
    args.ctx = THINK_EFFORT_MIN_CONTEXT;
    assert_eq!(effective_think(&args), ChatThinkMode::High);
    assert_eq!(think_warning("ds4", &args), None);
}

#[test]
fn narrow_cli_requires_one_shot_shape_and_rejects_deferred_flags() {
    assert!(parse(&["-p", "hello"])
        .unwrap_err()
        .contains("--non-interactive"));
    assert!(parse(&["--non-interactive"])
        .unwrap_err()
        .contains("-p/--prompt"));
    for flag in [
        "--trace",
        "--mtp",
        "--mtp-draft",
        "--mtp-margin",
        "--quality",
        "--power",
        "--warm-weights",
        "--dir-steering-file",
        "--role",
    ] {
        let error = parse(&["--non-interactive", "-p", "hello", flag, "ignored"]).unwrap_err();
        assert!(error.contains("not implemented"), "{flag}: {error}");
    }
}

#[test]
fn agent_options_are_checked() {
    assert_eq!(parse(&["--ctx"]).unwrap_err(), "missing value for --ctx");
    assert_eq!(
        parse(&["--ctx", "0"]).unwrap_err(),
        "invalid value for --ctx: 0"
    );
    assert_eq!(
        parse(&["--backend", "tpu"]).unwrap_err(),
        "invalid backend: tpu"
    );
    assert_eq!(parse(&["--bogus"]).unwrap_err(), "unknown option: --bogus");
    assert!(parse(&["--help", "--bogus"]).unwrap().help);
    let parsed = parse(&[
        "--non-interactive",
        "-p",
        "x",
        "--temp",
        "0.5",
        "--seed",
        "9",
        "--metal",
        "--nothink",
        "--chdir",
        "/d",
    ])
    .unwrap();
    assert_eq!(f32::from_bits(parsed.temp), 0.5);
    assert_eq!(parsed.seed, 9);
    assert_eq!(parsed.backend, Backend::Metal);
    assert_eq!(parsed.think, ChatThinkMode::Disabled);
    assert_eq!(parsed.chdir.as_deref(), Some("/d"));
}

#[test]
fn help_names_the_supported_tool_subset() {
    let help = help_text("ds4-agent-rs");
    assert!(help.contains("google_search, visit_page, read, more, and list"));
    assert!(!help.contains("Tool calls are rejected"));
    assert!(help.starts_with("Usage: ds4-agent-rs --non-interactive -p TEXT [options]\n\n"));
}

#[test]
fn bytes_are_found() {
    assert!(contains_bytes(b"abcabd", b"abd"));
    assert!(!contains_bytes(b"abcab", b"abd"));
    assert!(!contains_bytes(b"", b"a"));
}

#[test]
fn parse_yes_no_line_matches_c() {
    assert_eq!(parse_yes_no_line("y\n"), Some(true));
    assert_eq!(parse_yes_no_line("Y"), Some(true));
    assert_eq!(parse_yes_no_line(" n\n"), Some(false));
    assert_eq!(parse_yes_no_line("\tN"), Some(false));
    assert_eq!(parse_yes_no_line("yes"), Some(true));
    assert_eq!(parse_yes_no_line("no"), Some(false));
    assert_eq!(parse_yes_no_line(""), None);
    assert_eq!(parse_yes_no_line("maybe\n"), None);
}

#[test]
fn prompt_yes_no_denies_on_eof_and_allows_after_retry() {
    let (answer, asked) = prompt_yes_no(&[AskEvent::Ended]);
    assert!(!answer);
    assert_eq!("P ".repeat(asked), "P ");

    let (answer, asked) = prompt_yes_no(&[
        AskEvent::Line("maybe\n".to_string()),
        AskEvent::Line("y\n".to_string()),
    ]);
    assert!(answer);
    assert_eq!("P ".repeat(asked), "P P ");

    assert_eq!(prompt_yes_no(&[AskEvent::Failed]), (false, 1));
}

#[test]
fn write_missing_args_do_not_ask_when_interactive() {
    match plan_write(None, Some("x"), Approval::Interactive) {
        WriteStep::Answer(text) => assert_eq!(text, "Tool error: write requires path\n"),
        WriteStep::Write(_) => panic!("asked"),
    }
}

#[test]
fn a_user_is_asked_before_a_change() {
    match Approval::Interactive.allow_write("/a") {
        Permission::MustAsk(prompt) => assert_eq!(prompt, "Write /a? (y/n) "),
        Permission::Granted => panic!("not asked"),
    }
    match Approval::Interactive.allow_edit("/a") {
        Permission::MustAsk(prompt) => assert_eq!(prompt, "Edit /a? (y/n) "),
        Permission::Granted => panic!("not asked"),
    }
    assert!(matches!(
        Approval::NonInteractive.allow_edit("/a"),
        Permission::Granted
    ));
}

#[test]
fn should_compact_matches_c_thresholds() {
    let cases = [
        (0, 0, false),
        (10000, 0, false),
        (10000, 8500, true),
        (10000, 8499, true),
        (10000, 7500, true),
        (10000, 7499, false),
        (1000, 850, true),
        (1000, 1, false),
        (100, 75, true),
        (100, 76, true),
        (4, 1, false),
    ];
    for (ctx, used, expected) in cases {
        assert_eq!(should_compact(ctx, used), expected, "should_compact({ctx}, {used})");
    }
}

#[test]
fn tail_start_matches_c_budget_and_user_boundary() {
    let tokens = [1, 2, 9, 3, 4, 9, 5];
    assert_eq!(tail_start(100, 7, 1, 9, &tokens), 2);
    assert_eq!(tail_start(100, 7, 1, -1, &tokens), 1);
    assert_eq!(tail_start(20, 7, 1, 9, &tokens), 5);
    assert_eq!(tail_start(20, 7, 1, 8, &tokens), 5);
    assert_eq!(tail_start(0, 7, 1, 8, &tokens), 6);
}

#[test]
fn overflow_error_matches_c_bytes() {
    assert_eq!(
        overflow_error(9000, 8192),
        "Tool error: tool result still does not fit after context compaction \
         (projected_prompt=9000 tokens, ctx=8192, reserve=1024). \
         Retry with a smaller read/search/bash output.\n"
    );
}

#[test]
fn escape_matches_c() {
    assert_eq!(escape(br#"a\b"#), br#"a\\b"#);
    assert_eq!(escape(b"a\nb\rc\td\"e"), br#"a\nb\rc\td\"e"#);
    assert_eq!(escape(&[0x01, 0x7f]), br#"\x01\x7f"#);
    assert_eq!(escape("한글".as_bytes()), "한글".as_bytes());
}

#[test]
fn different_bytes_are_escaped_differently() {
    let mut seen = Vec::new();
    for b in 0..=255u8 {
        let e = escape(&[b]);
        assert!(e.iter().all(|c| *c >= 32 && *c != 127));
        assert!(!seen.contains(&e));
        seen.push(e);
    }
}

#[test]
fn token_line_matches_c_shape() {
    assert_eq!(
        format_token_line(7, b"ab\n", 3),
        br#" token index=3 id=7 bytes=3 text="ab\n" hex=61620a"#
    );
}

#[test]
fn backend_and_think_names_match_c() {
    assert_eq!(backend_name(Backend::Cuda), "cuda");
    assert_eq!(backend_name(Backend::Metal), "metal");
    assert_eq!(backend_name(Backend::Cpu), "cpu");
    assert_eq!(think_mode_name(ChatThinkMode::Disabled), "none");
    assert_eq!(think_mode_name(ChatThinkMode::Low), "low");
    assert_eq!(think_mode_name(ChatThinkMode::High), "high");
    assert_eq!(think_mode_name(ChatThinkMode::Max), "max");
}

#[test]
fn trace_lines_carry_their_time() {
    let time = TraceTime {
        year: 126,
        month: 7,
        day: 5,
        hour: 4,
        minute: 3,
        second: 2,
        nanos: 7_654_321,
    };
    assert_eq!(format_trace_time(&time), "2026-08-05 04:03:02.007");
    assert_eq!(trace_line(&time, b"m"), b"2026-08-05 04:03:02.007 m\n");
    let early = TraceTime {
        year: -1905,
        ..time
    };
    assert_eq!(format_trace_time(&early), "-005-08-05 04:03:02.007");
    assert_eq!(text_line("in", b"a\"b"), br#" in="a\"b""#);
    assert_eq!(
        tokens_line("prompt", 4, 9),
        ("tokens label=prompt start=4 len=4".to_string(), 4)
    );
    assert_eq!(
        open_failure("n", "p", "e"),
        "n: failed to open trace p: e"
    );
}

struct FakeWeb {
    result: Result<String, String>,
}

impl Browser for FakeWeb {
    fn google_search(&mut self, _query: &str) -> Result<String, String> {
        self.result.clone()
    }
}

const DSML_OPEN: &str = "<｜DSML｜tool_calls>";
const DSML_OPEN_MISSING_BAR: &str = "<DSML｜tool_calls>";

fn call(query: &str) -> Vec<u8> {
    format!(
        "answer prefix<｜DSML｜tool_calls>\n\
         <｜DSML｜invoke name=\"google_search\">\n\
         <｜DSML｜parameter name=\"query\" string=\"true\">{query}</｜DSML｜parameter>\n\
         </｜DSML｜invoke>\n\
         </｜DSML｜tool_calls>"
    )
    .into_bytes()
}

#[test]
fn google_search_round_reaches_web_and_formats_c_observation() {
    let mut web = FakeWeb {
        result: Ok("# Results\n- [DS4](https://example.com)".into()),
    };

    let raw = call("rust host");
    assert!(block_complete(&raw));
    let round = handle_round(&raw, &mut web).expect("valid DSML");

    assert_eq!(round.visible, b"answer prefix");
    assert_eq!(
        round.observation,
        "Tool result 1 (google_search):\n# Results\n- [DS4](https://example.com)\n"
    );
}

#[test]
fn google_search_error_and_missing_query_match_c_tool_text() {
    let mut failed = FakeWeb {
        result: Err("Chrome unavailable".into()),
    };
    assert_eq!(
        handle_round(&call("rust host"), &mut failed)
            .expect("valid DSML")
            .observation,
        "Tool result 1 (google_search):\nTool error: google_search failed: Chrome unavailable\n"
    );

    let mut web = FakeWeb {
        result: Ok(String::new()),
    };
    assert_eq!(
        handle_round(&call(""), &mut web)
            .expect("valid DSML")
            .observation,
        "Tool result 1 (google_search):\nTool error: google_search requires query\n"
    );
}

/// A browser that keeps what it was asked.
struct AskedWeb {
    queries: Vec<String>,
}

impl Browser for AskedWeb {
    fn google_search(&mut self, query: &str) -> Result<String, String> {
        self.queries.push(query.to_string());
        Ok(format!("about {query}"))
    }
}

/// A block of calls, each of a tool with a query.
fn calls(of: &[(&str, &str)]) -> Vec<u8> {
    let mut text = String::from("<｜DSML｜tool_calls>\n");
    for (name, query) in of {
        text.push_str(&format!(
            "<｜DSML｜invoke name=\"{name}\">\n\
             <｜DSML｜parameter name=\"query\" string=\"true\">{query}</｜DSML｜parameter>\n\
             </｜DSML｜invoke>\n"
        ));
    }
    text.push_str("</｜DSML｜tool_calls>");
    text.into_bytes()
}

#[test]
fn the_browser_is_asked_for_each_query_in_order() {
    let asked = |raw: &[u8]| {
        let mut web = AskedWeb { queries: Vec::new() };
        let ok = handle_round(raw, &mut web).is_ok();
        (ok, web.queries)
    };
    let said = |queries: &[&str]| queries.iter().map(|q| q.to_string()).collect::<Vec<_>>();
    assert_eq!(asked(&call("rust host")), (true, said(&["rust host"])));
    assert_eq!(asked(&call("")), (true, said(&[])));
    assert_eq!(
        asked(&calls(&[("google_search", "a"), ("google_search", ""), ("google_search", "b")])),
        (true, said(&["a", "b"]))
    );
    assert_eq!(
        asked(&calls(&[("google_search", "a"), ("read", "b"), ("google_search", "c")])),
        (false, said(&["a"]))
    );
    assert_eq!(asked(b"no block"), (false, said(&[])));
}

#[test]
fn a_refusing_browser_gives_its_reason() {
    let mut web = RefusingBrowser::new("no window");
    assert_eq!(
        handle_round(&call("rust host"), &mut web).ok().unwrap().observation,
        "Tool result 1 (google_search):\nTool error: google_search failed: no window\n"
    );
    assert_eq!(web.google_search("again"), Err("no window".to_string()));
}

#[test]
fn incomplete_or_non_web_dsml_does_not_execute() {
    let mut web = FakeWeb {
        result: Ok("must not be used".into()),
    };
    let incomplete = b"<\xef\xbd\x9cDSML\xef\xbd\x9ctool_calls>";
    assert!(!block_complete(incomplete));
    assert!(handle_round(incomplete, &mut web).is_err());

    let unsupported = call("rust host")
        .windows("google_search".len())
        .position(|window| window == b"google_search")
        .map(|at| {
            let mut raw = call("rust host");
            raw.splice(at..at + "google_search".len(), b"read".iter().copied());
            raw
        })
        .expect("tool name");
    assert!(handle_round(&unsupported, &mut web).is_err());
}

#[test]
fn missing_bar_opener_uses_the_same_web_path() {
    let mut raw = call("rust host");
    let at = raw
        .windows(DSML_OPEN.len())
        .position(|window| window == DSML_OPEN.as_bytes())
        .expect("canonical opener");
    raw.splice(
        at..at + DSML_OPEN.len(),
        DSML_OPEN_MISSING_BAR.as_bytes().iter().copied(),
    );
    let mut web = FakeWeb {
        result: Ok("result".into()),
    };

    assert_eq!(
        handle_round(&raw, &mut web)
            .expect("accepted C detector spelling")
            .observation,
        "Tool result 1 (google_search):\nresult\n"
    );
}

#[test]
fn calls_are_read_with_their_arguments() {
    let text: Vec<char> = "\n<｜DSML｜invoke name=\"a\">\n\
         <｜DSML｜parameter name=\"x\" string=\"true\">1</｜DSML｜parameter>\n\
         <｜DSML｜parameter name=\"y\" string=\"true\">2</｜DSML｜parameter>\n\
         </｜DSML｜invoke>\n</｜DSML｜tool_calls>"
        .chars()
        .collect();
    let calls = parse_calls(&text).unwrap();
    assert_eq!(calls.len(), 1);
    assert_eq!(calls[0].name, "a");
    assert_eq!(calls[0].arg("y"), Some("2"));
    assert_eq!(calls[0].arg("z"), None);
}

#[test]
fn the_conversation_is_built_in_order() {
    let mut args = AgentArgs::with_backend(Backend::Cuda);
    args.system = "be brief".to_string();
    let parts = build_system_transcript("TOOLS", &args, ChatThinkMode::Low);
    assert_eq!(parts.len(), 4);
    assert!(matches!(&parts[0], ChatPart::Begin));
    assert!(matches!(&parts[1], ChatPart::Effort(ChatThinkMode::Low)));
    assert!(matches!(&parts[2], ChatPart::Rendered(t) if t == "TOOLS"));
    assert!(
        matches!(&parts[3], ChatPart::Message { role, text } if *role == "system" && text == "\n\nbe brief")
    );
    args.system = String::new();
    assert_eq!(
        build_system_transcript("TOOLS", &args, ChatThinkMode::Low).len(),
        3
    );
    let turn = append_user_turn("hi", "now", ChatThinkMode::High);
    assert_eq!(turn.len(), 3);
    assert!(matches!(&turn[1], ChatPart::Message { role, text } if *role == "user" && text == "hi"));
    assert!(matches!(
        &turn[2],
        ChatPart::AssistantPrefix(ChatThinkMode::High)
    ));
}

#[test]
fn a_turn_ends_with_a_reply_without_tools() {
    let mut turn = Turn::new(10);
    turn.begin_round(100, 97);
    assert_eq!(turn.limit, 2);
    assert_eq!(turn.sampled(-1, 0), Err("failed to sample the next token"));
    turn.sampled(5, 0).unwrap();
    assert_eq!(turn.action, TurnAction::Eval(5));
    turn.evaluated(b"he");
    turn.sampled(6, 0).unwrap();
    turn.evaluated(b"llo");
    assert_eq!(turn.action, TurnAction::Close);
    turn.closed();
    assert_eq!(turn.action, TurnAction::Done);
    assert_eq!(turn.output, b"hello\n\n");
}

#[test]
fn a_turn_goes_on_after_a_tool() {
    let mut turn = Turn::new(10);
    turn.begin_round(100, 0);
    turn.sampled(5, 0).unwrap();
    turn.evaluated(&call("q"));
    assert_eq!(turn.action, TurnAction::Close);
    assert!(has_block(&turn.raw));
    turn.closed();
    assert_eq!(turn.action, TurnAction::Tools);
    let (limit, made, raw) = (turn.limit, turn.made, turn.raw.clone());
    for round in [
        None,
        Some(ToolRound { visible: call("q"), observation: String::new() }),
    ] {
        assert!(turn.tools_done(round, ChatThinkMode::Low).is_err());
        assert_eq!(turn.action, TurnAction::Tools);
        assert!(turn.output.is_empty());
    }
    let parts = turn
        .tools_done(
            Some(ToolRound {
                visible: b"answer prefix".to_vec(),
                observation: "seen\n".to_string(),
            }),
            ChatThinkMode::Low,
        )
        .unwrap();
    assert_eq!(parts.len(), 2);
    assert_eq!(turn.action, TurnAction::Begin);
    assert_eq!((turn.tokens, turn.limit, turn.made, &turn.raw), (10, limit, made, &raw));
    turn.begin_round(100, 99);
    assert_eq!(turn.action, TurnAction::Close);
    turn.closed();
    assert_eq!(turn.output, b"answer prefix\n\n");
}

#[test]
fn seeds_mix_time_and_process() {
    assert_eq!(seed_of(1, 2, 3), 1 ^ (3u64 << 32) ^ 2);
}
