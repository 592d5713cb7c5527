//! The status line of the agent.

use ds4::agent::tui::progress::{
    format_ctx_size, progress_bar, progress_bytes, STATUS_BAR_FILL, STATUS_STYLE_START,
};
use ds4::agent::tui::sink::{clear_progress_frame, write_progress_frame, GeneratedSink};
use ds4::agent::tui::{GenerationView, PrefillView, Status, Surface, WorkerPhase};

fn bar(filled: usize, empty: usize) -> String {
    format!("[{}{}]", "▶".repeat(filled), "·".repeat(empty))
}

#[test]
fn progress_bar_bytes_match_c_when_half_filled_without_color() {
    assert_eq!(progress_bar(16, 32, false), bar(16, 16).into_bytes());
}

#[test]
fn progress_bar_bytes_match_c_when_empty_without_color() {
    assert_eq!(progress_bar(0, 32, false), bar(0, 32).into_bytes());
}

#[test]
fn progress_bar_bytes_match_c_when_full_without_color() {
    assert_eq!(progress_bar(32, 32, false), bar(32, 0).into_bytes());
}

#[test]
fn progress_bar_bytes_match_c_when_color_bumps_empty_fill() {
    let mut expected = Vec::from(*b"[");
    expected.extend_from_slice(STATUS_BAR_FILL.as_bytes());
    expected.extend_from_slice("▶".as_bytes());
    expected.extend_from_slice(STATUS_STYLE_START.as_bytes());
    expected.extend_from_slice("·".repeat(31).as_bytes());
    expected.extend_from_slice(STATUS_STYLE_START.as_bytes());
    expected.push(b']');
    assert_eq!(progress_bar(0, 32, true), expected);
}

#[test]
fn progress_bar_bytes_match_c_when_half_filled_with_color() {
    let mut expected = Vec::from(*b"[");
    expected.extend_from_slice(STATUS_BAR_FILL.as_bytes());
    expected.extend_from_slice("▶".repeat(16).as_bytes());
    expected.extend_from_slice(STATUS_STYLE_START.as_bytes());
    expected.extend_from_slice("·".repeat(16).as_bytes());
    expected.extend_from_slice(STATUS_STYLE_START.as_bytes());
    expected.push(b']');
    assert_eq!(progress_bar(16, 32, true), expected);
}

#[test]
fn a_bar_never_shrinks() {
    let mut before = 0;
    for done in -3..=70 {
        let text = String::from_utf8(progress_bar(done, 64, false)).unwrap();
        let filled = text.matches('▶').count();
        assert!(filled >= before);
        assert_eq!(text.chars().count(), 34);
        before = filled;
    }
    assert_eq!(before, 32);
    assert_eq!(progress_bar(5, 0, false), progress_bar(1, 1, false));
}

#[test]
fn format_ctx_size_matches_c() {
    assert_eq!(format_ctx_size(999), "999");
    assert_eq!(format_ctx_size(1000), "1k");
    assert_eq!(format_ctx_size(1500), "1.5k");
    assert_eq!(format_ctx_size(100_000), "100k");
}

#[test]
fn sizes_are_rounded_like_floats() {
    let mut samples: Vec<i32> = (1..4000).map(|i| i * 50 + 1000).collect();
    samples.extend(1000..5000);
    samples.extend([i32::MAX, i32::MAX - 597, 2_000_000_050, 1_999_999_950]);
    for n in samples {
        if n % 1000 != 0 {
            assert_eq!(
                format_ctx_size(n),
                format!("{:.1}k", f64::from(n) / 1000.0),
                "{n}"
            );
        }
    }
    assert_eq!(format_ctx_size(-5), "-5");
}

fn status(phase: WorkerPhase) -> Status<'static> {
    Status {
        phase,
        ctx_used: 50_000,
        ctx_size: 100_000,
        prefill_done: 0,
        prefill_total: 0,
        prefill_label: 0,
        generated: 3,
        gen_tps: "1.5",
        power_percent: 100,
        error: "",
    }
}

#[test]
fn prefill_status_line_matches_c_shape_when_tty() {
    let status = Status {
        prefill_done: 16,
        prefill_total: 32,
        generated: 0,
        gen_tps: "0.0",
        ..status(WorkerPhase::Prefill)
    };
    let bar = progress_bar(16, 32, true);
    let mut expected = "ctx 50k/100k | reading ".as_bytes().to_vec();
    expected.extend_from_slice(&bar);
    expected.extend_from_slice(b" 16/32 50.0%");
    assert_eq!(progress_bytes(&status, Surface::Tui), expected);
}

#[test]
fn percentages_are_rounded_like_floats() {
    for (done, total) in [
        (1, 3),
        (1, 8),
        (1, 16),
        (5, 1000),
        (15, 1000),
        (25, 1000),
        (35, 1000),
        (1, 2000),
        (3, 2000),
        (-1, 10000),
        (-7, 3),
        (i32::MIN, 1),
        (i32::MAX, i32::MAX),
        (1, i32::MAX),
        (1_073_741_823, i32::MAX),
    ] {
        let line = progress_bytes(
            &Status {
                prefill_done: done,
                prefill_total: total,
                ..status(WorkerPhase::Prefill)
            },
            Surface::Tui,
        );
        let text = String::from_utf8(line).unwrap();
        let done = done.min(total);
        let expected = format!(
            " {done}/{total} {:.1}%",
            100.0 * f64::from(done) / f64::from(total)
        );
        assert!(text.ends_with(&expected), "{text} {expected}");
    }
}

#[test]
fn generation_status_line_matches_c_shape_when_tty() {
    let status = Status {
        generated: 10,
        gen_tps: "5.0",
        power_percent: 70,
        ..status(WorkerPhase::Generating)
    };
    assert_eq!(
        progress_bytes(&status, Surface::Tui),
        "ctx 50k/100k | generation 10 tokens 5.0 t/s | ⚡ 70%".as_bytes()
    );
}

#[test]
fn progress_bytes_are_empty_when_not_tty() {
    let status = Status {
        ctx_used: 1,
        ctx_size: 1000,
        prefill_done: 1,
        prefill_total: 2,
        ..status(WorkerPhase::Prefill)
    };
    assert!(progress_bytes(&status, Surface::Plain).is_empty());
}

#[test]
fn generated_sink_skips_live_write_when_not_tty() {
    let mut sink = GeneratedSink::new(Vec::new(), Surface::Plain);
    sink.push(b"hello");
    assert!(sink.out.is_empty());
}

#[test]
fn generated_sink_writes_live_when_tty() {
    let mut sink = GeneratedSink::new(Vec::new(), Surface::Tui);
    sink.push(b"hello");
    assert_eq!(sink.out, b"hello");
}

#[test]
fn surface_from_tty_flag_skips_tui_when_false() {
    assert!(!Surface::from_tty(false).is_tui());
    assert!(Surface::from_tty(true).is_tui());
}

#[test]
fn remaining_status_lines_match_c_shape_when_tty() {
    assert_eq!(
        progress_bytes(&status(WorkerPhase::Idle), Surface::Tui),
        b"ctx 50k/100k | idle"
    );
    assert_eq!(
        progress_bytes(&status(WorkerPhase::Compacting), Surface::Tui),
        "ctx 50k/100k | COMPACTING summary 3 tokens 1.5 t/s".as_bytes()
    );
    assert_eq!(
        progress_bytes(&status(WorkerPhase::Draining), Surface::Tui),
        b"ctx 50k/100k | stopping after distributed cluster drains"
    );
    assert_eq!(
        progress_bytes(&status(WorkerPhase::Saving), Surface::Tui),
        b"ctx 50k/100k | saving session"
    );
    assert_eq!(
        progress_bytes(&status(WorkerPhase::Stopped), Surface::Tui),
        b"ctx 50k/100k | interrupted"
    );
    assert_eq!(
        progress_bytes(&status(WorkerPhase::Error), Surface::Tui),
        b"ctx 50k/100k | error: unknown error"
    );
}

#[test]
fn frames_are_drawn_over_each_other() {
    let mut out = Vec::new();
    write_progress_frame(&mut out, b"");
    assert!(out.is_empty());
    write_progress_frame(&mut out, b"x");
    assert_eq!(out, b"\rx\x1b[K");
    clear_progress_frame(&mut out, Surface::Plain);
    assert_eq!(out, b"\rx\x1b[K");
    clear_progress_frame(&mut out, Surface::Tui);
    assert_eq!(out, b"\rx\x1b[K\r\x1b[K");
}

#[test]
fn views_become_states() {
    let prefill = PrefillView {
        ctx_size: 10,
        done: 3,
        total: 4,
        label: 1,
        power_percent: 50,
    }
    .status();
    assert_eq!(prefill.phase, WorkerPhase::Prefill);
    assert_eq!((prefill.ctx_used, prefill.prefill_done), (3, 3));
    let generation = GenerationView {
        ctx_used: 5,
        ctx_size: 10,
        generated: 2,
        gen_tps: "1.0",
        power_percent: 0,
    }
    .status();
    assert_eq!(generation.phase, WorkerPhase::Generating);
    assert_eq!((generation.ctx_used, generation.generated), (5, 2));
}
