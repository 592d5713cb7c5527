//! The tools that change, search and run things.

use ds4::agent::approval::{Approval, Permission, DENIED_EDIT, DENIED_WRITE};
use ds4::agent::round::{local_tool, LocalTool, Round};
use ds4::agent::bash::obs::{count_lines, observation, read_head, read_tail};
use ds4::agent::bash::{
    keeps_watching, parse_timeout, start_failed, stop_action, BashArgs, BashJob, BashStep,
    BashTable, ExitStatus, StopAction, BASH, BASH_STATUS, BASH_STOP,
};
use ds4::agent::edit::{
    apply_splice, check_edit, edit_report, find_old_span, plan_edit, splice, wrap_error, EditPlan,
    EditStep, OldSpan,
};
use ds4::agent::lines::split_lines;
use ds4::agent::search::scan::{
    clamp_usize, glob_match, literal_match, parse_int_default, BodyBuf, RESULT_MAX_BYTES,
};
use ds4::agent::search::{
    child_path, default_search_path, enters, plan_search, regex_pattern, SearchArgs, SearchCtx,
    SearchStep,
};
use ds4::agent::write::{plan_write, write_result, WriteOutcome, WriteStep};

fn write_answer(path: Option<&str>, content: Option<&str>) -> &'static str {
    match plan_write(path, content, Approval::NonInteractive) {
        WriteStep::Answer(text) => text,
        WriteStep::Write(_) => panic!("written"),
    }
}

#[test]
fn write_missing_path_and_content_match_c() {
    assert_eq!(
        write_answer(None, Some("x")),
        "Tool error: write requires path\n"
    );
    assert_eq!(
        write_answer(Some(""), Some("x")),
        "Tool error: write requires path\n"
    );
    assert_eq!(
        write_answer(Some("/tmp/x"), None),
        "Tool error: write requires content\n"
    );
}

#[test]
fn write_is_blocked_when_interactive_deny() {
    assert!(matches!(
        plan_write(Some("deny.txt"), Some("new"), Approval::Interactive),
        WriteStep::Write(Permission::MustAsk(_))
    ));
    assert_eq!(
        write_result("deny.txt", "new", &WriteOutcome::Denied),
        DENIED_WRITE
    );
}

#[test]
fn write_overwrites_when_non_interactive() {
    assert!(matches!(
        plan_write(Some("overwrite.txt"), Some("z"), Approval::NonInteractive),
        WriteStep::Write(Permission::Granted)
    ));
    assert_eq!(
        write_result("overwrite.txt", "z", &WriteOutcome::Written),
        "Wrote 1 bytes to overwrite.txt\n"
    );
}

#[test]
fn write_proceeds_when_interactive_allow() {
    assert_eq!(
        write_result("allow.txt", "hello", &WriteOutcome::Written),
        "Wrote 5 bytes to allow.txt\n"
    );
    assert_eq!(
        write_result("allow.txt", "한", &WriteOutcome::Written),
        "Wrote 3 bytes to allow.txt\n"
    );
}

#[test]
fn write_open_error_matches_c_strerror() {
    assert_eq!(
        write_result(
            "no-such-dir/file.txt",
            "hello",
            &WriteOutcome::OpenFailed("No such file or directory".to_string())
        ),
        "Tool error: open for write failed: No such file or directory\n"
    );
    assert_eq!(
        write_result("f", "hello", &WriteOutcome::WriteFailed("full".to_string())),
        "Tool error: write failed: full\n"
    );
}

fn edit_answer(path: Option<&str>, old: Option<&str>, new: Option<&str>) -> &'static str {
    match check_edit(path, old, new) {
        EditStep::Answer(text) => text,
        EditStep::Read => panic!("read"),
    }
}

/// Edits `data` at `path`: what the tool answers, and the file behind it.
fn edit(path: &str, data: &[u8], old: &str, new: &str) -> (Vec<u8>, Vec<u8>) {
    match plan_edit(path, data, old, new, Approval::NonInteractive) {
        EditPlan::Answer(text) => (text, data.to_vec()),
        EditPlan::Write { at, content, .. } => {
            (edit_report(path, data, &at, new.as_bytes()), content)
        }
    }
}

#[test]
fn an_edit_answers_how_the_writing_went() {
    let at = OldSpan { offset: 0, len: 1, anchored: false };
    let answer = |outcome: WriteOutcome| {
        String::from_utf8(apply_splice("f.txt", b"a\n", &at, b"b", &outcome)).unwrap()
    };
    assert_eq!(answer(WriteOutcome::Denied), "Tool error: user denied edit\n");
    assert_eq!(
        answer(WriteOutcome::OpenFailed("Permission denied".to_string())),
        "Tool error: open f.txt: Permission denied\n"
    );
    assert_eq!(
        answer(WriteOutcome::WriteFailed("No space left on device".to_string())),
        "Tool error: write f.txt: No space left on device\n"
    );
    assert_eq!(
        answer(WriteOutcome::Written).into_bytes(),
        edit_report("f.txt", b"a\n", &at, b"b")
    );
}

#[test]
fn edit_missing_args_match_c() {
    let path = "Tool error: edit requires path\n";
    let old = "Tool error: edit requires non-empty old text\n";
    let new = "Tool error: edit requires new text\n";
    assert_eq!(edit_answer(None, Some("a"), Some("b")), path);
    assert_eq!(edit_answer(Some(""), Some("a"), Some("b")), path);
    assert_eq!(edit_answer(Some("/tmp/x"), None, Some("b")), old);
    assert_eq!(edit_answer(Some("/tmp/x"), Some(""), Some("b")), old);
    assert_eq!(edit_answer(Some("/tmp/x"), Some("a"), None), new);
    assert!(matches!(
        check_edit(Some("/tmp/x"), Some("a"), Some("")),
        EditStep::Read
    ));
}

#[test]
fn edit_unique_replace_and_empty_new_match_c() {
    let (answer, file) = edit("file.txt", b"alpha\nkeep\n", "alpha", "beta");
    assert_eq!(file, b"beta\nkeep\n");
    assert_eq!(
        String::from_utf8(answer).unwrap(),
        "Edited file.txt using old/new replacement\n\
         Touched old lines 1-1; current post-edit context follows.\n\
         Current file around edit: file.txt lines 1-2 of 2\n\
         1 beta\n2 keep\n"
    );

    let (answer, file) = edit("file.txt", b"alpha\nkeep\n", "alpha\n", "");
    assert_eq!(file, b"keep\n");
    assert_eq!(
        String::from_utf8(answer).unwrap(),
        "Edited file.txt using old/new replacement\n\
         Touched old lines 1-1; current post-edit context follows.\n\
         Line shift: old lines after 1 moved by -1 (old line 2 is now line 1). \
         Re-read before relying on old line numbers there.\n\
         Current file around edit: file.txt lines 1-1 of 1\n\
         1 keep\n"
    );
}

#[test]
fn edit_not_found_and_not_unique_match_c() {
    assert_eq!(
        edit("dup.txt", b"aaaa", "zzz", "y").0,
        b"Tool error: old text anchor not found\n"
    );
    assert_eq!(
        edit("dup.txt", b"aaaa", "aaa", "y").0,
        b"Tool error: old text anchor is not unique\n"
    );
}

#[test]
fn edit_upto_paths_match_c() {
    let data = b"head\nmiddle\ntail\nhead\n";
    assert_eq!(
        edit("upto.txt", data, "head\n[upto]tail\n", "X\n").0,
        b"Tool error: old head anchor is not unique\n"
    );
    assert_eq!(
        edit("upto.txt", data, "a[upto]b[upto]c", "X").0,
        b"Tool error: old text contains more than one [upto] marker\n"
    );
    assert_eq!(
        edit("upto.txt", data, "head[upto]   ", "X").0,
        b"Tool error: old text after [upto] must include a unique tail anchor\n"
    );
    let (answer, file) = edit("upto.txt", b"head\nmiddle\ntail\nend\n", "head\n[upto]tail\n", "X\n");
    assert_eq!(file, b"X\nend\n");
    assert!(answer.starts_with(b"Edited upto.txt using anchored old/new replacement\n"));
    assert_eq!(
        edit("upto.txt", data, "[upto]tail", "X").0,
        b"Tool error: old head anchor is empty\n"
    );
    assert_eq!(
        edit("upto.txt", data, "middle[upto]zzz", "X").0,
        b"Tool error: old tail anchor not found after old head\n"
    );
    assert_eq!(
        edit("upto.txt", b"a b b", "a[upto]b", "X").0,
        b"Tool error: old tail anchor is not unique after old head\n"
    );
}

#[test]
fn edit_is_blocked_when_interactive_deny() {
    match plan_edit("edit-deny.txt", b"alpha\nkeep\n", "alpha", "beta", Approval::Interactive) {
        EditPlan::Write {
            permission: Permission::MustAsk(prompt),
            ..
        } => assert_eq!(prompt, "Edit edit-deny.txt? (y/n) "),
        _ => panic!("not asked"),
    }
    assert_eq!(DENIED_EDIT, "Tool error: user denied edit\n");
}

#[test]
fn edit_unique_replace_when_non_interactive() {
    let (answer, file) = edit("edit-ni.txt", b"alpha\nkeep\n", "alpha", "beta");
    assert!(answer.starts_with(b"Edited edit-ni.txt using old/new replacement"));
    assert_eq!(file, b"beta\nkeep\n");
}

#[test]
fn edit_not_unique_does_not_ask_when_interactive() {
    match plan_edit("dup.txt", b"aaaa", "aaa", "y", Approval::Interactive) {
        EditPlan::Answer(text) => assert!(text.starts_with(b"Tool error: ")),
        EditPlan::Write { .. } => panic!("asked"),
    }
}

#[test]
fn long_edits_show_their_ends() {
    let mut new = String::new();
    for i in 0..60 {
        new.push_str(&format!("n{i}\n"));
    }
    let data = b"a\nb\nc\nd\ne\nf\nOLD\ng\n";
    let (answer, _) = edit("f", data, "OLD\n", &new);
    let text = String::from_utf8(answer).unwrap();
    assert!(text.contains("moved by +59 (old line 8 is now line 67)"), "{text}");
    assert!(text.contains("lines 2-67 of 67\n2 b\n"), "{text}");
    assert!(
        text.contains("24 n17\n... 24 edited lines omitted ...\n49 n42\n"),
        "{text}"
    );
    assert!(text.ends_with("66 n59\n67 g\n"), "{text}");
}

#[test]
fn an_edit_can_be_taken_back() {
    let data = b"one two three";
    let at = find_old_span(data, b"two").unwrap();
    assert_eq!((at.offset, at.len, at.anchored), (4, 3, false));
    let new = splice(data, &at, b"2");
    assert_eq!(new, b"one 2 three");
    let back = splice(
        &new,
        &OldSpan {
            offset: 4,
            len: 1,
            anchored: false,
        },
        b"two",
    );
    assert_eq!(back, data);
    assert_eq!(wrap_error(b"open x"), b"Tool error: open x\n");
}

#[test]
fn lines_cover_a_file() {
    let data = b"a\r\nb\n\rc";
    let spans: Vec<(usize, usize, usize)> = split_lines(data)
        .iter()
        .map(|s| (s.start, s.content_end, s.end))
        .collect();
    assert_eq!(spans, vec![(0, 1, 3), (3, 4, 5), (5, 5, 6), (6, 7, 7)]);
    assert!(split_lines(b"").is_empty());
}

fn args<'a>(query: Option<&'a str>, glob: Option<&'a str>) -> SearchArgs<'a> {
    SearchArgs {
        query,
        path: None,
        mode: None,
        glob,
        case_sensitive: None,
        context: None,
        max_results: None,
    }
}

fn started(args: SearchArgs<'_>) -> SearchCtx {
    match plan_search(args) {
        SearchStep::Search(ctx) => ctx,
        _ => panic!("not a search"),
    }
}

/// Searches the files of a directory.
fn search(args: SearchArgs<'_>, files: &[(&str, &[u8])]) -> String {
    let mut ctx = started(args);
    for (path, data) in files {
        if ctx.goes_on(1)
            && path.split('/').all(|name| enters(name.as_bytes()))
            && ctx.wants_file(path.as_bytes())
        {
            ctx.search_file(path.as_bytes(), data);
        }
    }
    String::from_utf8(ctx.finish_search()).unwrap()
}

const HIT: (&str, &[u8]) = ("r/hit.txt", b"alpha\nneedle here\nomega\n");
const MISS: (&str, &[u8]) = ("r/miss.txt", b"nothing here\n");
const HIDDEN: (&str, &[u8]) = ("r/.hidden", b"needle hidden\n");
const GIT: (&str, &[u8]) = ("r/.git/config", b"needle in git\n");
const BINARY: (&str, &[u8]) = ("r/bin.dat", b"needle\0binary\n");
const CODE: (&str, &[u8]) = ("r/sub/code.rs", b"needle rust\n");
const CONTEXT: (&str, &[u8]) = ("r/context.txt", b"keep\nneedle\nmid\nneedle\ntail\n");
const CASE: (&str, &[u8]) = ("r/Case.txt", b"Needle\n");

#[test]
fn search_requires_query_when_missing_or_empty() {
    for query in [None, Some("")] {
        match plan_search(args(query, None)) {
            SearchStep::Answer(text) => assert_eq!(text, "Tool error: search requires query\n"),
            _ => panic!("searched"),
        }
    }
}

#[test]
fn search_literal_hit_and_miss_match_c_oracle() {
    let hit = search(args(Some("needle"), None), &[HIT]);
    assert!(hit.starts_with("1 match shown\n\n"));
    assert!(hit.contains("needle here"));
    assert_eq!(hit, "1 match shown\n\nr/hit.txt\n  2 needle here\n\n");
    assert_eq!(search(args(Some("needle"), None), &[MISS]), "No matches\n");
}

#[test]
fn search_skips_git_dir_and_searches_other_hidden_files() {
    let text = search(args(Some("needle"), None), &[HIT, HIDDEN, GIT]);
    assert!(text.contains(".hidden"));
    assert!(text.contains("needle hidden"));
    assert!(!text.contains(".git"));
    assert!(!text.contains("needle in git"));
}

#[test]
fn search_skips_nul_binary_files() {
    assert_eq!(search(args(Some("needle"), None), &[BINARY]), "No matches\n");
}

#[test]
fn search_glob_filters_by_basename() {
    let many: Vec<u8> = (0..10).flat_map(|i| format!("needle {i}\n").into_bytes()).collect();
    let text = search(
        args(Some("needle"), Some("*.txt")),
        &[HIT, CONTEXT, ("r/many.txt", &many), CODE, HIDDEN],
    );
    assert!(text.contains("hit.txt"));
    assert!(text.contains("context.txt"));
    assert!(text.contains("many.txt"));
    assert!(!text.contains("code.rs"));
    assert!(!text.contains(".hidden"));
}

#[test]
fn search_case_insensitive_literal_matches_c_oracle() {
    let text = search(
        SearchArgs {
            case_sensitive: Some(false),
            ..args(Some("NEEDLE"), None)
        },
        &[CASE],
    );
    assert!(text.contains("Needle"));
    assert_eq!(search(args(Some("NEEDLE"), None), &[CASE]), "No matches\n");
}

#[test]
fn search_context_one_coalesces_adjacent_matches() {
    let text = search(
        SearchArgs {
            context: Some("1"),
            ..args(Some("needle"), None)
        },
        &[CONTEXT],
    );
    assert_eq!(
        text,
        "2 matches shown\n\nr/context.txt\n  1 keep\n  2 needle\n  3 mid\n  4 needle\n  5 tail\n\n"
    );
}

#[test]
fn search_max_results_caps_matching_lines() {
    let many: Vec<u8> = (0..10).flat_map(|i| format!("needle {i}\n").into_bytes()).collect();
    let text = search(
        SearchArgs {
            max_results: Some("3"),
            ..args(Some("needle"), None)
        },
        &[("r/many.txt", &many)],
    );
    assert!(text.starts_with("3 matches shown\n\n"));
    assert!(text.contains("needle 0"));
    assert!(text.contains("needle 2"));
    assert!(!text.contains("needle 3"));
}

#[test]
fn search_empty_and_missing_path_both_mean_dot() {
    assert_eq!(default_search_path(None), ".");
    assert_eq!(default_search_path(Some("")), ".");
    assert_eq!(default_search_path(Some("/tmp/x")), "/tmp/x");
}

#[test]
fn search_regex_mode_is_still_unsupported() {
    assert!(matches!(
        plan_search(SearchArgs {
            mode: Some("regex"),
            ..args(Some("needle"), None)
        }),
        SearchStep::Unsupported
    ));
    assert_eq!(regex_pattern("a+b\0c"), b"a+b");
}

#[test]
fn searches_go_no_deeper_than_their_limit() {
    let ctx = started(args(Some("x"), None));
    assert!(ctx.goes_on(24));
    assert!(!ctx.goes_on(25));
    assert!(!enters(b".."));
    assert!(!enters(b".git"));
    assert!(enters(b".github"));
    assert_eq!(child_path(b"a", b"b"), b"a/b");
}

#[test]
fn patterns_fit_names() {
    assert!(glob_match(b"*.txt", b"a.txt"));
    assert!(glob_match(b"**", b""));
    assert!(glob_match(b"a?c", b"abc"));
    assert!(!glob_match(b"a?c", b"ac"));
    assert!(glob_match(b"\\*", b"*"));
    assert!(!glob_match(b"\\*", b"x"));
    assert!(glob_match(b"a\\", b"a\\"));
    assert!(glob_match(b"*a*b*", b"xxaxxbxx"));
    assert!(!glob_match(b"plain", b"plainer"));
}

#[test]
fn texts_are_found_with_and_without_case() {
    assert!(literal_match(b"xAbc", b"aB", false));
    assert!(!literal_match(b"xAbc", b"aB", true));
    assert!(literal_match(b"", b"", true));
    assert!(!literal_match(b"a", b"ab", true));
    assert!(!literal_match(b"@", b"`", false));
}

#[test]
fn numbers_are_read_or_replaced() {
    assert_eq!(parse_int_default(None, 7, 0, 9), 7);
    assert_eq!(parse_int_default(Some(""), 7, 0, 9), 7);
    assert_eq!(parse_int_default(Some(" \x0b+5 \n"), 7, 0, 9), 5);
    assert_eq!(parse_int_default(Some("-5"), 7, 0, 9), 0);
    assert_eq!(parse_int_default(Some("5x"), 7, 0, 9), 7);
    assert_eq!(parse_int_default(Some("5\x0b"), 7, 0, 9), 7);
    assert_eq!(parse_int_default(Some("x"), 7, 0, 9), 7);
    assert_eq!(
        parse_int_default(Some("99999999999999999999999999999999999999999999"), 7, 0, 9),
        9
    );
    assert_eq!(parse_int_default(Some("-2147483648"), 0, i32::MIN, 0), i32::MIN);
    assert_eq!(clamp_usize(-3), 0);
    assert_eq!(clamp_usize(3), 3);
}

#[test]
fn a_body_stops_at_its_bound() {
    let piece = vec![b'x'; RESULT_MAX_BYTES - 1];
    let mut body = BodyBuf::new();
    body.append(&piece);
    body.append(b"yz");
    body.append(b"w");
    assert_eq!(body.bytes.len(), RESULT_MAX_BYTES);
    assert_eq!(body.bytes[RESULT_MAX_BYTES - 1], b'y');
    assert!(body.truncated);
}

fn call<'a>() -> BashArgs<'a> {
    BashArgs {
        command: None,
        timeout_sec: None,
        timeout_bits: None,
        refresh_sec: None,
        job: None,
        pid: None,
    }
}

#[test]
fn bash_missing_command_and_missing_job_match_c() {
    let table = BashTable::new();
    match table.plan(BASH, &call()) {
        BashStep::Answer(text) => assert_eq!(text, "Tool error: bash requires command\n"),
        other => panic!("{other:?}"),
    }
    match table.plan(BASH_STATUS, &call()) {
        BashStep::Answer(text) => {
            assert_eq!(text, "Tool error: bash job not found: job=0 pid=0\n")
        }
        other => panic!("{other:?}"),
    }
    match table.plan("bash_what", &call()) {
        BashStep::Answer(text) => assert_eq!(text, "Tool error: unknown tool\n"),
        other => panic!("{other:?}"),
    }
    assert_eq!(
        start_failed("no fork"),
        "Tool error: bash failed to start: no fork\n"
    );
}

#[test]
fn bash_timeout_parsing_matches_c() {
    let of = |text: &str, value: f64| parse_timeout(Some(text), Some(value.to_bits()));
    assert_eq!(parse_timeout(None, None), 3600);
    assert_eq!(parse_timeout(Some(""), None), 3600);
    assert_eq!(of("30x", 30.0), 30);
    assert_eq!(of("0", 0.0), 3600);
    assert_eq!(of("-1", -1.0), 3600);
    assert_eq!(parse_timeout(Some("bogus"), None), 3600);
    assert_eq!(of("0.5", 0.5), 1);
    assert_eq!(of("999999", 999999.0), 86400);
    assert_eq!(of("inf", f64::INFINITY), 3600);
    assert_eq!(of("nan", f64::NAN), 3600);
    assert_eq!(of("-0", -0.0), 3600);
    assert_eq!(of("1\0", 1.0), 3600);
    for value in [1.0, 1.999, 2.0, 59.5, 86399.999, 86400.0, 100000.0, 131071.9, 131072.0, 1e300] {
        assert_eq!(of("x", value), value.clamp(1.0, 86400.0) as i32, "{value}");
    }
}

#[test]
fn bash_echo_done_observation_matches_c_shape() {
    let mut table = BashTable::new();
    table.spawned(4242, "/tmp/ds4_agent_output_x".to_string(), 3600);
    table.jobs[0].reaped(ExitStatus::Code(0));
    let shown = observation(&mut table.jobs[0], "0.1", b"hi\n", Some(b"hi\n"));
    let text = String::from_utf8(shown).unwrap();
    assert!(text.contains("exit_status=0"));
    assert!(text.contains("<output>\nhi\n</output>"));
    assert_eq!(
        text,
        "bash job=1 pid=4242 status=done elapsed_sec=0.1 timed_out=0\nexit_status=0\n\
         <output>\nhi\n</output>\n"
    );
    table.observed(0);
    assert!(table.jobs.is_empty());
}

#[test]
fn running_jobs_show_head_then_tail() {
    let mut table = BashTable::new();
    table.spawned(7, "/o".to_string(), 60);
    let data: Vec<u8> = (0..9).flat_map(|i| format!("l{i}\n").into_bytes()).collect();
    let first = observation(&mut table.jobs[0], "1.0", &data, Some(&data));
    let text = String::from_utf8(first).unwrap();
    assert!(text.starts_with(
        "bash job=1 pid=7 status=running elapsed_sec=1.0 timeout_sec=60\n\
         output_path=/o (27 bytes, 9 lines)\n<head -100 /o>\nl0\n"
    ));
    assert!(text.ends_with(
        "</head>\n\nUse bash_status job=1 to get info before refresh time; \
         use bash_stop job=1 to stop execution\n"
    ));
    let second = observation(&mut table.jobs[0], "2.0", &data, None);
    let text = String::from_utf8(second).unwrap();
    assert!(text.contains("<tail -4 /o>\n<failed to reopen output file>\n</tail>\n"), "{text}");
    let third = observation(&mut table.jobs[0], "2.0", b"", Some(&data));
    assert!(String::from_utf8(third).unwrap().contains("<output>\n</output>\n"));
    table.observed(0);
    assert_eq!(table.jobs.len(), 1);
}

#[test]
fn heads_and_tails_keep_to_their_bounds() {
    assert_eq!(count_lines(b""), 0);
    assert_eq!(count_lines(b"a"), 1);
    assert_eq!(count_lines(b"a\nb\n"), 2);
    let lines: Vec<u8> = (0..300).flat_map(|i| format!("{i}\n").into_bytes()).collect();
    assert!(read_head(&lines).ends_with(b"99\n"));
    assert_eq!(read_head(&vec![b'x'; 9000]).len(), 8192);
    assert_eq!(read_tail(&lines, 4), b"296\n297\n298\n299\n");
    assert_eq!(read_tail(b"a\nb\nc", 1), b"b\nc");
    assert_eq!(read_tail(&vec![b'x'; 40000], 4).len(), 32768);
}

#[test]
fn jobs_are_found_by_number_or_process() {
    let mut table = BashTable::new();
    table.spawned(70, "/a".to_string(), 60);
    table.spawned(80, "/b".to_string(), 60);
    assert_eq!(table.jobs[0].id, 2);
    assert_eq!(table.find_job(1, 0), Some(1));
    assert_eq!(table.find_job(2, 70), Some(0));
    assert_eq!(table.find_job(0, 70), Some(1));
    assert_eq!(table.find_job(3, 70), None);
    assert_eq!(table.find_job(0, 0), None);
    match table.plan(
        BASH_STOP,
        &BashArgs {
            job: Some("1"),
            refresh_sec: Some("5"),
            ..call()
        },
    ) {
        BashStep::Follow {
            index,
            refresh,
            stop,
        } => assert_eq!((index, refresh, stop), (1, 5, true)),
        other => panic!("{other:?}"),
    }
    table.next_id = i32::MAX;
    table.spawned(90, "/c".to_string(), 60);
    table.spawned(91, "/d".to_string(), 60);
    assert_eq!((table.jobs[1].id, table.jobs[0].id), (i32::MAX, 1));
}

fn job() -> BashJob {
    BashJob {
        id: 1,
        pid: 2,
        path: "/p".to_string(),
        timeout_sec: 1,
        observed_once: false,
        exit_status: -1,
        running: true,
        timed_out: false,
    }
}

#[test]
fn jobs_end_or_run_out_of_time() {
    let mut ended = job();
    assert!(!ended.polled(Some(ExitStatus::Signal(9)), 0));
    assert_eq!((ended.running, ended.exit_status), (false, 137));
    let mut late = job();
    assert!(!late.polled(None, 999_999_999));
    assert!(!late.timed_out);
    assert!(late.polled(None, 1_000_000_000));
    assert!(late.timed_out);
    late.reaped(ExitStatus::Unknown);
    assert_eq!(late.exit_status, -1);
    assert_eq!(stop_action(true, false, 0), StopAction::Terminate);
    assert_eq!(stop_action(true, true, 0), StopAction::Look);
    assert_eq!(stop_action(true, true, 1_000_000_000), StopAction::Kill);
    assert_eq!(stop_action(false, true, 0), StopAction::Stopped);
    assert!(keeps_watching(true, 2, 1_999_999_999));
    assert!(!keeps_watching(true, 2, 2_000_000_000));
    assert!(!keeps_watching(false, 2, 0));
}

fn tool_block(calls: &[(&str, &[(&str, &str)])]) -> Vec<u8> {
    let mut body = String::from("shown<｜DSML｜tool_calls>\n");
    for (name, args) in calls {
        body.push_str(&format!("<｜DSML｜invoke name=\"{name}\">\n"));
        for (key, value) in args.iter() {
            body.push_str(&format!(
                "<｜DSML｜parameter name=\"{key}\" string=\"true\">{value}</｜DSML｜parameter>\n"
            ));
        }
        body.push_str("</｜DSML｜invoke>\n");
    }
    body.push_str("</｜DSML｜tool_calls>");
    body.into_bytes()
}

#[test]
fn a_denied_write_is_answered_in_its_round() {
    let raw = tool_block(&[("write", &[("path", "deny.txt"), ("content", "new")])]);
    let mut round = Round::open(&raw).ok().unwrap();
    assert_eq!(round.visible, b"shown");
    let call = round.next_call().unwrap();
    assert_eq!(local_tool(&call.name), Some(LocalTool::Write));
    assert_eq!((call.arg("path"), call.arg("content")), (Some("deny.txt"), Some("new")));
    round.answered(DENIED_WRITE.as_bytes());
    assert!(round.next_call().is_none());
    assert_eq!(round.observation, format!("Tool result 1 (write):\n{DENIED_WRITE}").into_bytes());
}

#[test]
fn results_stand_in_the_order_of_their_calls() {
    let raw = tool_block(&[("search", &[("query", "x")]), ("bash", &[]), ("edit", &[])]);
    let mut round = Round::open(&raw).ok().unwrap();
    round.answered(b"No matches\n");
    assert_eq!(round.next_call().unwrap().name, "bash");
    round.answered(b"\xff without a line break");
    round.answered(b"");
    assert_eq!(
        round.observation,
        b"Tool result 1 (search):\nNo matches\nTool result 2 (bash):\n\xff without a line break\n\
          Tool result 3 (edit):\n"
            .to_vec()
    );
    assert_eq!(local_tool("bash_stop"), Some(LocalTool::Shell));
    assert_eq!(local_tool("google_search"), None);
}

#[test]
fn a_round_needs_a_block() {
    assert_eq!(Round::open(b"no block").err().unwrap(), "missing DSML tool call");
    let empty = Round::open(&tool_block(&[])).ok().unwrap();
    assert_eq!(empty.observation, b"Tool error: empty tool call block\n");
    assert!(empty.next_call().is_none());
    let mut broken = tool_block(&[]);
    broken.push(0xff);
    assert_eq!(Round::open(&broken).err().unwrap(), "invalid UTF-8 in DSML tool call");
}
