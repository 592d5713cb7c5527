//! The printer of generated text and the lines of the prompt.

use ds4::cli::dump::{DumpAction, DumpRun};
use ds4::cli::one_shot::{OneShot, ShotAction, ShotFailure};
use ds4::repl::{
    parse_repl_line, think_max_active, think_mode_message, trim_inplace, ReplLine, ThinkRepl,
    REPL_HELP,
};
use ds4::token_printer::TokenPrinter;

fn format_fragments(format_thinking: bool, parts: &[&[u8]]) -> Vec<u8> {
    let mut printer = TokenPrinter::new(format_thinking);
    let mut out = Vec::new();
    for part in parts {
        printer.write_text(&mut out, part);
    }
    printer.finish(&mut out);
    out
}

#[test]
fn formats_thinking_tags_split_across_pieces() {
    assert_eq!(
        format_fragments(true, &[b"<thi", b"nk>plan", b"</thi", b"nk>answer"],),
        b"plan\nanswer\n"
    );
    assert_eq!(format_fragments(true, &[b"<thi", b"x"]), b"<thix\n");
}

#[test]
fn preserves_c_thinking_newline_and_finish_rules() {
    assert_eq!(
        format_fragments(true, &[b"</think>", b"answer\n"]),
        b"answer\n"
    );
    assert_eq!(
        format_fragments(true, &[b"plan\n</think>", b"\nanswer"],),
        b"plan\n\nanswer\n"
    );
    assert_eq!(format_fragments(true, &[b"plan</thi"]), b"plan</thi\n");
    assert_eq!(format_fragments(true, &[]), b"");
}

#[test]
fn leaves_nothink_output_unformatted() {
    assert_eq!(
        format_fragments(false, &[b"<thi", b"nk>x</think>"]),
        b"<think>x</think>\n"
    );
}

#[test]
fn pieces_may_be_cut_anywhere() {
    let text = b"<think>plan\nmore</think>\nanswer <b>";
    let whole = format_fragments(true, &[text]);
    for cut in 0..text.len() {
        assert_eq!(format_fragments(true, &[&text[..cut], &text[cut..]]), whole);
    }
}

#[test]
fn thinking_is_grey_where_colour_is_on() {
    let mut printer = TokenPrinter::with_color(true, true);
    let mut out = Vec::new();
    printer.write_text(&mut out, b"<think>plan</think>answer");
    printer.finish(&mut out);
    assert_eq!(out, b"\x1b[90mplan\x1b[0m\nanswer\n");
}

#[test]
fn a_finished_printer_can_go_on() {
    let mut out = Vec::new();
    let mut printer = TokenPrinter::with_color(true, true);
    printer.write_text(&mut out, b"<think>plan</thi");
    assert_eq!((printer.color_open, printer.pending.as_slice()), (true, &b"</thi"[..]));
    printer.finish(&mut out);
    assert_eq!(out, b"\x1b[90mplan</thi\x1b[0m\n");
    assert_eq!((printer.format_thinking, printer.use_color), (true, true));
    assert_eq!((printer.in_think, printer.color_open), (true, false));
    assert!(printer.pending.is_empty() && printer.last_output_newline);
    let written = out.len();
    printer.finish(&mut out);
    assert_eq!(out.len(), written);

    let mut printer = TokenPrinter::with_color(false, true);
    printer.write_text(&mut out, b"x</thi");
    printer.finish(&mut out);
    assert_eq!((printer.format_thinking, printer.use_color), (false, true));
    assert_eq!((printer.in_think, printer.color_open), (false, false));
    assert!(printer.pending.is_empty() && printer.last_output_newline);
}

#[test]
fn help_text_matches_c() {
    assert!(REPL_HELP.contains("/help          Show this help."));
    assert!(REPL_HELP.contains("/quit, /exit   Leave the prompt."));
    assert!(REPL_HELP.contains("Ctrl+C         Stop generation and return to the prompt."));
}

#[test]
fn parses_commands() {
    assert_eq!(parse_repl_line("  /help  ").unwrap(), ReplLine::Help);
    assert_eq!(parse_repl_line("/think").unwrap(), ReplLine::Think);
    assert_eq!(parse_repl_line("/think-max").unwrap(), ReplLine::ThinkMax);
    assert_eq!(parse_repl_line("/nothink").unwrap(), ReplLine::NoThink);
    assert_eq!(parse_repl_line("/quit").unwrap(), ReplLine::Quit);
    assert_eq!(parse_repl_line("/exit").unwrap(), ReplLine::Quit);
    assert_eq!(parse_repl_line("/ctx 8192").unwrap(), ReplLine::Ctx(8192));
    assert_eq!(parse_repl_line("/power").unwrap(), ReplLine::Power(None));
    assert_eq!(
        parse_repl_line("/power 50").unwrap(),
        ReplLine::Power(Some(50))
    );
    assert_eq!(
        parse_repl_line("/read notes.txt").unwrap(),
        ReplLine::Read("notes.txt".into())
    );
    assert_eq!(
        parse_repl_line("hello there").unwrap(),
        ReplLine::Prompt("hello there".into())
    );
    assert_eq!(parse_repl_line("   ").unwrap(), ReplLine::Empty);
}

#[test]
fn unknown_and_invalid_match_c() {
    assert_eq!(
        parse_repl_line("/nope").unwrap_err().message(),
        "ds4: unknown command: /nope\nds4: type /help for commands\n"
    );
    assert_eq!(
        parse_repl_line("/ctx").unwrap_err().message(),
        "ds4: /ctx needs a positive integer\n"
    );
    assert_eq!(
        parse_repl_line("/power 0").unwrap_err().message(),
        "ds4: /power must be between 1 and 100\n"
    );
    assert_eq!(
        parse_repl_line("/read").unwrap_err().message(),
        "ds4: /read needs a file path\n"
    );
}

#[test]
fn think_messages_match_c() {
    assert_eq!(think_mode_message(ThinkRepl::High), "Thinking mode: high.");
    assert_eq!(think_mode_message(ThinkRepl::Max), "Thinking mode: max.");
    assert_eq!(
        think_mode_message(ThinkRepl::HighBelowCtx),
        "Thinking mode: high (ctx below 393216)."
    );
    assert_eq!(
        think_mode_message(ThinkRepl::Disabled),
        "Thinking mode: none."
    );
    assert!(!think_max_active(32768));
    assert!(think_max_active(393216));
}

#[test]
fn trimming_twice_is_trimming_once() {
    let once = trim_inplace("\u{3000} a b\t\n");
    assert_eq!(once, "a b");
    assert_eq!(trim_inplace(&once), once);
}

#[test]
fn a_sampled_token_is_evaluated_before_it_is_printed() {
    let mut shot = OneShot::new(true, 2);
    shot.chosen(7, false);
    assert_eq!(shot.action, ShotAction::Eval(7));
    shot.evaluated(true);
    assert_eq!(shot.action, ShotAction::Print(7));
    shot.printed();
    assert_eq!(shot.action, ShotAction::Choose);
    shot.chosen(8, false);
    shot.evaluated(true);
    shot.printed();
    assert_eq!(shot.action, ShotAction::Finish);
    assert_eq!(shot.generated, 2);
}

#[test]
fn the_last_greedy_token_is_not_evaluated() {
    let mut shot = OneShot::new(false, 1);
    shot.chosen(7, false);
    assert_eq!(shot.action, ShotAction::Print(7));
    shot.printed();
    assert_eq!(shot.action, ShotAction::Finish);
    assert_eq!(shot.failure, ShotFailure::NoFailure);

    let mut none = OneShot::new(false, 1);
    none.chosen(-1, false);
    assert_eq!(none.failure, ShotFailure::Choice);
    assert_eq!(none.choice_message(), Some("failed to select the next token"));
}

#[test]
fn a_dump_evaluates_what_it_writes() {
    let mut run = DumpRun::new(2);
    assert_eq!((run.action, run.generated), (DumpAction::Step, 0));
    run.stepped(5, false);
    assert_eq!(run.action, DumpAction::Eval(5));
    run.evaluated();
    assert_eq!((run.action, run.generated), (DumpAction::Step, 1));
    let mut stopped = run;
    stopped.stepped(2, true);
    assert_eq!((stopped.action, stopped.generated), (DumpAction::Done, 1));
    run.stepped(6, false);
    run.evaluated();
    assert_eq!((run.action, run.generated), (DumpAction::Done, 2));
    assert_eq!(DumpRun::new(0).action, DumpAction::Done);
}
