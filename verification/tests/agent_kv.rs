//! Saved sessions.

use ds4::agent::kv::catalog::{find, list, session_title, Entry, KvError, ListedSession};
use ds4::agent::kv::handle::{
    deleted_answer, failure, list_answer, list_failure, saturated_u32, saved_answer,
    stripped_answer, switched_answer, usage_answer,
};
use ds4::agent::kv::identity::{
    clip_title, decode_title_trailer, encode_title_trailer, file_identity_bytes, identity_bytes,
    title_from_prompt, title_from_text, SessionIdentity,
};
use ds4::agent::kv::store::{
    identity_of, session_record, strip, switch_plan, Record, SaveSpec,
};
use ds4::agent::kv::{cache_dir_from_home, parse_slash, SlashCmd};

fn record(title: &str, created_at: u64, last_used: u64, payload: &[u8], model_id: u8) -> Record {
    session_record(&SaveSpec {
        title,
        created_at,
        last_used,
        text: format!("<｜User｜>{title}<｜Assistant｜>ok").as_bytes(),
        payload,
        tokens: 8,
        model_id,
        quant_bits: 2,
        ctx_size: 1024,
    })
    .unwrap()
}

fn entry(sha: &str, record: Record) -> Entry {
    Entry {
        sha: Some(sha.to_string()),
        record: Some(record),
        file_size: 2048,
    }
}

#[test]
fn default_cache_dir_is_home_ds4_kvcache() {
    assert_eq!(
        cache_dir_from_home(Some("/home/alice")),
        "/home/alice/.ds4/kvcache"
    );
    assert_eq!(cache_dir_from_home(Some("")), "./.ds4/kvcache");
    assert_eq!(cache_dir_from_home(None), "./.ds4/kvcache");
    assert_eq!(cache_dir_from_home(Some("/")), "/.ds4/kvcache");
}

#[test]
fn list_orders_by_recent_then_sha() {
    let entries = vec![
        entry("aa", record("older", 100, 100, b"PAY1", 1)),
        entry("bb", record("newer", 200, 300, b"PAY2", 1)),
        entry("dd", record("tie-b", 150, 200, b"PAY3", 1)),
        entry("cc", record("tie-a", 160, 200, b"PAY4", 1)),
        entry("ee", record("other-model", 400, 400, b"P", 9)),
        Entry {
            sha: None,
            record: None,
            file_size: 13,
        },
    ];
    let listed = list(&entries, 1);
    let shas: Vec<&str> = listed.iter().map(|item| item.sha.as_str()).collect();
    assert_eq!(shas, vec!["bb", "cc", "dd", "aa"]);
    assert!(listed.iter().all(|item| !item.stripped));
    assert_eq!(listed[0].title, "newer");
}

#[test]
fn sessions_that_were_never_used_count_from_their_start() {
    let entries = vec![
        entry("aa", record("a", 100, 0, b"P", 1)),
        entry("bb", record("b", 1, 99, b"P", 1)),
    ];
    let shas: Vec<String> = list(&entries, 1).into_iter().map(|s| s.sha).collect();
    assert_eq!(shas, vec!["aa", "bb"]);
}

#[test]
fn strip_then_switch_sets_prefill_flag() {
    let sha = "0123456789abcdef0123456789abcdef01234567";
    let saved = record("rebuild-me", 10, 10, b"HEAVY-KV", 1);
    let before = identity_of(&saved);
    assert!(
        !switch_plan(record("rebuild-me", 10, 10, b"HEAVY-KV", 1), sha, sha, 48)
            .unwrap()
            .needs_prefill
    );

    let stripped = strip(saved, sha, sha, 12, 99).unwrap();
    assert_eq!(identity_of(&stripped), before);
    assert!(stripped.payload.is_empty());
    let entries = vec![entry(sha, stripped)];
    let listed = list(&entries, 1);
    assert_eq!(listed.len(), 1);
    assert!(listed[0].stripped);
    let stripped = strip(record("rebuild-me", 10, 10, b"HEAVY-KV", 1), sha, sha, 12, 99).unwrap();
    let plan = switch_plan(stripped, sha, sha, 48).unwrap();
    assert!(plan.needs_prefill);
    assert_eq!(plan.payload_bytes, 0);
    assert_eq!(plan.tokens, 12);
    assert_eq!(plan.sha, sha);
    assert_eq!(plan.payload_offset, 48 + 4 + plan.text.len() as u64);
}

#[test]
fn a_renamed_session_is_refused() {
    assert!(matches!(
        strip(record("t", 1, 1, b"P", 1), "aa", "bb", 1, 1),
        Err(KvError::IdentityMismatch)
    ));
    assert!(matches!(
        switch_plan(record("t", 1, 1, b"P", 1), "aa", "bb", 48),
        Err(KvError::IdentityMismatch)
    ));
}

#[test]
fn missing_sha_errors_like_c() {
    assert_eq!(
        find(&[], "deadbeef", 1).unwrap_err().message(),
        "no saved session matches deadbeef"
    );
    assert_eq!(
        find(&[], "abc", 1).unwrap_err().message(),
        "no saved session matches abc"
    );
    assert_eq!(
        find(&[], "fff", 1).unwrap_err().message(),
        "no saved session matches fff"
    );
    assert_eq!(
        find(&[], "0", 1).unwrap_err().message(),
        "no saved session matches 0"
    );
    assert_eq!(
        find(&[], "", 1).unwrap_err().message(),
        "invalid session SHA prefix"
    );
    assert_eq!(
        find(&[], "not-hex", 1).unwrap_err().message(),
        "invalid session SHA prefix"
    );
}

#[test]
fn prefixes_are_found_whatever_their_case() {
    let entries = vec![
        entry("abcd", record("a", 1, 1, b"P", 1)),
        entry("abef", record("b", 1, 1, b"P", 1)),
        entry("abcd", record("c", 1, 1, b"P", 2)),
    ];
    assert_eq!(find(&entries, "ABC", 1).unwrap(), 0);
    assert_eq!(find(&entries, "abe", 1).unwrap(), 1);
    assert_eq!(find(&entries, "ab", 2).unwrap(), 2);
    assert!(matches!(
        find(&entries, &"a".repeat(41), 1),
        Err(KvError::InvalidPrefix)
    ));
}

#[test]
fn ambiguous_prefix_errors_like_c() {
    let entries = vec![
        entry("abcd", record("alpha", 1, 1, b"A", 1)),
        entry("abef", record("bravo", 2, 2, b"B", 1)),
    ];
    assert_eq!(
        find(&entries, "ab", 1).unwrap_err().message(),
        "session prefix ab is ambiguous"
    );
    assert_eq!(KvError::NothingToSave.message(), "nothing to save");
    assert_eq!(KvError::Io("io".to_string()).message(), "io");
    assert_eq!(
        KvError::IdentityMismatch.message(),
        "cached session identity does not match file name"
    );
}

#[test]
fn save_keeps_kvc_magic_and_stable_identity() {
    let title = "stable-id";
    let created_at = 1_700_000_042u64;
    let expected = identity_bytes(title, created_at);
    let first = record(title, created_at, 10, b"v1", 1);
    let second = record(title, created_at, 20, b"v2-longer", 1);
    assert_eq!(identity_of(&first), expected);
    assert_eq!(identity_of(&second), expected);
    assert_eq!(second.payload, b"v2-longer");
    assert_eq!(expected, b"stable-id\x2a\xf1\x53\x65\0\0\0\0");
}

#[test]
fn parse_slash_requires_sha_args_like_c() {
    assert_eq!(parse_slash("/save"), Some(Ok(SlashCmd::Save)));
    assert_eq!(parse_slash("/list"), Some(Ok(SlashCmd::List)));
    assert_eq!(
        parse_slash("/switch"),
        Some(Err("usage: /switch <sha-prefix>"))
    );
    assert_eq!(parse_slash("/del"), Some(Err("usage: /del <sha-prefix>")));
    assert_eq!(
        parse_slash("/strip"),
        Some(Err("usage: /strip <sha-prefix>"))
    );
    assert_eq!(
        parse_slash("/switch abcd"),
        Some(Ok(SlashCmd::Switch("abcd".to_string())))
    );
    assert_eq!(parse_slash("/help"), None);
    assert_eq!(parse_slash("/switchy"), None);
    assert_eq!(
        parse_slash(" /del\t ff "),
        Some(Ok(SlashCmd::Del("ff".to_string())))
    );
}

#[test]
fn titles_are_saved_and_read_back() {
    for title in ["", "plain", "한글 ✓"] {
        let trailer = encode_title_trailer(title);
        assert_eq!(decode_title_trailer(&trailer).as_deref(), Some(title));
        assert_eq!(decode_title_trailer(&trailer[..trailer.len() - 1]), None);
    }
    assert_eq!(
        decode_title_trailer(&[1, 0, 0, 0, 0xff]).as_deref(),
        Some("\u{fffd}")
    );
    assert_eq!(file_identity_bytes(false, Some("t"), 1, b"text"), b"text");
    assert_eq!(file_identity_bytes(true, None, 1, b"text"), b"\x01\0\0\0\0\0\0\0");
}

#[test]
fn titles_are_made_from_prompts() {
    assert_eq!(title_from_prompt("  fix \n\t the  bug "), "fix the bug");
    assert_eq!(title_from_prompt(" \n"), "(empty user prompt)");
    assert_eq!(title_from_text(b"nothing", 0), "(no user prompt)");
    let text = "<｜User｜>one two<｜Assistant｜>x<｜User｜>three".as_bytes();
    assert_eq!(title_from_text(text, 0), "one two");
    assert_eq!(title_from_text(text, 8), "one t...");
    assert_eq!(title_from_text(text, 1), "o...");
    assert_eq!(title_from_text("<｜User｜>\u{fffd}".as_bytes(), 4), "...");
    let mut invalid = "<｜User｜>".as_bytes().to_vec();
    invalid.push(0xff);
    assert_eq!(title_from_text(&invalid, 0), "(empty user prompt)");
    assert_eq!(clip_title("abcdef", 0), "abcdef");
    assert_eq!(clip_title("abcdef", 6), "abcdef");
    assert_eq!(clip_title("abcdef", 5), "ab...");
    assert_eq!(clip_title("abcdef", 1), "a...");
}

#[test]
fn untitled_sessions_are_named_by_their_text() {
    let mut untitled = record("saved", 1, 1, b"P", 1);
    untitled.header.titled = false;
    untitled.text = "<｜User｜>typed<｜Assistant｜>".as_bytes().to_vec();
    assert_eq!(session_title(&untitled), "typed");
    assert_eq!(session_title(&record("saved", 1, 1, b"P", 1)), "saved");
}

#[test]
fn only_two_widths_are_saved() {
    let spec = SaveSpec {
        title: "t",
        created_at: 1,
        last_used: 2,
        text: b"x",
        payload: b"p",
        tokens: 3,
        model_id: 1,
        quant_bits: 8,
        ctx_size: 9,
    };
    assert_eq!(
        session_record(&spec).unwrap_err().message(),
        "unsupported routed quantization for KV save"
    );
    assert!(session_record(&SaveSpec {
        quant_bits: 4,
        ..spec
    })
    .is_ok());
}

#[test]
fn a_session_is_named_by_its_first_prompt() {
    let mut identity = SessionIdentity::new();
    assert!(matches!(
        identity.save_under(b"", 5),
        Err(KvError::NothingToSave)
    ));
    identity.note_user_prompt("first", 7);
    identity.note_user_prompt("second", 8);
    assert_eq!(identity.save_under(b"", 9).unwrap(), ("first".to_string(), 7));
    identity.saved("first".to_string(), 7, "aa".to_string());
    assert_eq!(identity.sha.as_deref(), Some("aa"));
    let plan = switch_plan(record("other", 0, 1, b"P", 1), "bb", "bb", 48).unwrap();
    identity.switched(&plan, 11);
    assert_eq!(identity.title.as_deref(), Some("other"));
    assert_eq!((identity.created_at, identity.sha.as_deref()), (11, Some("bb")));
}

#[test]
fn answers_name_the_session() {
    let sha = "0123456789abcdef";
    assert_eq!(saved_answer(sha, 3), "saved session 01234567 (3 tokens)\n");
    assert_eq!(stripped_answer(sha, 3), "stripped session 01234567 (3 tokens)\n");
    assert_eq!(deleted_answer("012"), "deleted session 012\n");
    assert_eq!(failure("save", "why"), "save failed: why\n");
    assert_eq!(usage_answer("usage"), "usage\n");
    assert_eq!(list_failure("e"), "no sessions: e\n");
    assert_eq!(saturated_u32(7), 7);
    let plan = switch_plan(record("t", 1, 1, b"", 1), sha, sha, 48).unwrap();
    assert_eq!(
        switched_answer(&plan, 5, None),
        "rebuilding stripped session 01234567 from rendered text...\n\
         switched to session 01234567 (5 tokens, rebuilt from text)\n"
    );
    assert_eq!(
        switched_answer(&plan, 5, Some("x")),
        "rebuilding stripped session 01234567 from rendered text...\nswitch failed: x\n"
    );
    let plan = switch_plan(record("t", 1, 1, b"P", 1), sha, sha, 48).unwrap();
    assert_eq!(
        switched_answer(&plan, 5, None),
        "switched to session 01234567 (5 tokens)\n"
    );
}

#[test]
fn the_list_shows_age_and_size() {
    assert_eq!(list_answer(&[], 1), "no saved sessions\n");
    let session = |last_used: u64, file_size: u64| ListedSession {
        sha: "0123456789".to_string(),
        title: "t".to_string(),
        last_used,
        created_at: 1000,
        tokens: 5,
        file_size,
        stripped: true,
    };
    assert_eq!(
        list_answer(&[session(900, 1_572_864)], 1000),
        "01234567 > t\n         > 1m ago, 5 tokens, 1.50 MB, stripped\n\n\
         Use /switch <id> to select a session, /del <id> to remove, /strip <id> to strip KV cache.\n"
    );
    for (used, age) in [
        (999_999, "1s ago"),
        (996_400, "1h ago"),
        (740_800, "3d ago"),
        (2_000_000, "0s ago"),
    ] {
        assert!(list_answer(&[session(used, 1)], 1_000_000).contains(age), "{used}");
    }
    for size in [
        0,
        1,
        5242,
        5243,
        1_310_720,
        15_728,
        15_729,
        (1 << 53) + 1,
        (1 << 54) + 2,
        (1 << 54) + 6,
        u64::MAX,
    ] {
        let expected = format!(", {:.2} MB", size as f64 / (1024.0 * 1024.0));
        let shown = list_answer(&[session(1, size)], 1);
        assert!(shown.contains(&expected), "{shown} {expected}");
    }
}

#[test]
fn a_saved_session_is_resumed_as_it_was_saved() {
    let saved = record("r\u{e9}sum\u{e9}", 10, 11, b"STATE", 1);
    assert_eq!(identity_of(&saved), identity_bytes("r\u{e9}sum\u{e9}", 10));
    let text = saved.text.clone();
    let tokens = saved.header.tokens;
    let plan = switch_plan(saved, "aa", "aa", 48).unwrap();
    assert_eq!((plan.title.as_str(), plan.created_at), ("r\u{e9}sum\u{e9}", 10));
    assert_eq!((plan.text, plan.tokens), (text, tokens));
    assert_eq!((plan.payload_bytes, plan.needs_prefill), (5, false));
}
