//! The status line and its bar.

use crate::agent::tui::{Status, Surface, WorkerPhase};
use crate::text;
use crate::text::{push_i64, push_u64};
use vstd::prelude::*;
use vstd::slice::*;
use vstd::string::*;
use vstd::utf8::*;

verus! {

pub const BAR_WIDTH: i32 = 32;

pub const STATUS_STYLE_START: &'static str = "\x1b[48;5;238;38;5;252m";

pub const STATUS_BAR_FILL: &'static str = "\x1b[48;5;238;38;5;201;1m";

/// 2 to the 52nd.
pub const BINARY_DIGITS: u128 = 0x10_0000_0000_0000;

/// `a` doubled until its quotient by `b` has 53 binary digits.
pub open spec fn scaled(a: nat, b: nat) -> nat
    decreases 2 * (b * BINARY_DIGITS) - a,
{
    if a == 0 || a >= b * BINARY_DIGITS {
        a
    } else {
        scaled(2 * a, b)
    }
}

/// The tenths of the quotient of `a` by `b`, rounded. The quotient is taken
/// with 53 binary digits: where it lies halfway between two tenths, the error
/// of those digits decides, and where there is none, the even tenth is taken.
pub open spec fn rounded_tenths(a: nat, b: nat) -> nat {
    let q = 10 * a / b;
    let r = 10 * a % b;
    if 2 * r < b {
        q
    } else if 2 * r > b {
        q + 1
    } else {
        let n = scaled(a, b);
        let m = n % b;
        let up = if m == 0 {
            q % 2 == 1
        } else if 2 * m == b {
            n / b % 2 == 1
        } else {
            2 * m > b
        };
        if up {
            q + 1
        } else {
            q
        }
    }
}

fn tenths(a: u64, b: u64) -> (r: u64)
    requires
        0 < b,
        a < 0x40_0000_0000,
        b < 0x8000_0000,
    ensures
        r == rounded_tenths(a as nat, b as nat),
{
    let q: u64 = 10 * a / b;
    let rest: u64 = 10 * a % b;
    assert(q <= 10 * a) by (nonlinear_arith)
        requires
            0 < b,
            q == 10 * a / b as int,
    ;
    if 2 * rest < b {
        return q;
    }
    if 2 * rest > b {
        return q + 1;
    }
    let mut n: u128 = a as u128;
    let wide: u128 = b as u128;
    let bound: u128 = wide * BINARY_DIGITS;
    while n != 0 && n < bound
        invariant
            0 < wide < 0x8000_0000,
            bound == wide * BINARY_DIGITS,
            n < 2 * bound,
            scaled(a as nat, b as nat) == scaled(n as nat, b as nat),
            wide == b,
        decreases 2 * bound - n,
    {
        n = 2 * n;
    }
    let m: u128 = n % wide;
    let up = if m == 0 {
        q % 2 == 1
    } else if 2 * m == wide {
        n / wide % 2 == 1
    } else {
        2 * m > wide
    };
    if up {
        q + 1
    } else {
        q
    }
}

/// A number of tenths in decimal.
pub open spec fn tenths_text(t: nat) -> Seq<char> {
    text::decimal(t / 10) + "."@ + text::decimal(t % 10)
}

fn push_tenths(out: &mut String, t: u64)
    ensures
        final(out)@ == old(out)@ + text::decimal(t as nat / 10) + "."@ + text::decimal(
            t as nat % 10,
        ),
{
    push_u64(out, t / 10);
    out.append(".");
    push_u64(out, t % 10);
}

/// A size of a context: in thousands from 1000 on, with a tenth where it is
/// not a whole thousand.
pub open spec fn ctx_size_text(n: int) -> Seq<char> {
    if n < 1000 {
        text::signed_decimal(n)
    } else if n % 1000 == 0 {
        text::decimal((n / 1000) as nat) + "k"@
    } else {
        tenths_text(rounded_tenths(n as nat, 1000)) + "k"@
    }
}

/// A size of a context.
pub fn format_ctx_size(ctx_size: i32) -> (r: String)
    ensures
        r@ == ctx_size_text(ctx_size as int),
{
    let mut r = String::new();
    if ctx_size < 1000 {
        push_i64(&mut r, ctx_size as i64);
        assert(r@ =~= text::signed_decimal(ctx_size as int));
    } else if ctx_size % 1000 == 0 {
        push_u64(&mut r, (ctx_size / 1000) as u64);
        assert(r@ =~= text::decimal((ctx_size / 1000) as nat));
        r.append("k");
    } else {
        let t: u64 = tenths(ctx_size as u64, 1000);
        push_tenths(&mut r, t);
        assert(r@ =~= tenths_text(t as nat));
        r.append("k");
    }
    r
}

/// `c`, `n` times.
pub open spec fn repeated(c: char, n: int) -> Seq<char> {
    Seq::new(n as nat, |i: int| c)
}

pub open spec fn clamped(v: int, min: int, max: int) -> int {
    if v < min {
        min
    } else if v > max {
        max
    } else {
        v
    }
}

/// How many cells of the bar are filled. A coloured bar that is not at its end
/// has at least one.
pub open spec fn filled_cells(done: int, total: int, color: bool) -> int {
    let t = if total <= 0 {
        1
    } else {
        total
    };
    let d = clamped(done, 0, t);
    let filled = d * BAR_WIDTH / t;
    if color && filled == 0 && d < t {
        1
    } else {
        filled
    }
}

/// The bar with so many filled cells.
pub open spec fn bar_text(filled: int, color: bool) -> Seq<char> {
    if color {
        "["@ + STATUS_BAR_FILL@ + repeated('▶', filled) + (if filled < BAR_WIDTH {
            STATUS_STYLE_START@
        } else {
            ""@
        }) + repeated('·', BAR_WIDTH - filled) + STATUS_STYLE_START@ + "]"@
    } else {
        "["@ + repeated('▶', filled) + repeated('·', BAR_WIDTH - filled) + "]"@
    }
}

fn push_repeated(out: &mut String, c: char, n: i32)
    requires
        0 <= n,
    ensures
        final(out)@ == old(out)@ + repeated(c, n as int),
{
    let ghost before = out@;
    let mut i: i32 = 0;
    assert(out@ =~= before + repeated(c, 0));
    while i < n
        invariant
            0 <= i <= n,
            out@ == before + repeated(c, i as int),
        decreases n - i,
    {
        out.push(c);
        i += 1;
        assert(out@ =~= before + repeated(c, i as int));
    }
}

proof fn lemma_filled(done: int, total: int, color: bool)
    ensures
        0 <= filled_cells(done, total, color) <= BAR_WIDTH,
{
    let t = if total <= 0 {
        1
    } else {
        total
    };
    let d = clamped(done, 0, t);
    assert(0 <= d * BAR_WIDTH / t <= BAR_WIDTH) by (nonlinear_arith)
        requires
            0 <= d <= t,
            0 < t,
            BAR_WIDTH == 32,
    ;
}

fn bar(done: i32, total: i32, color: bool) -> (r: String)
    ensures
        r@ == bar_text(filled_cells(done as int, total as int, color), color),
{
    let t: i64 = if total <= 0 {
        1
    } else {
        total as i64
    };
    let d: i64 = if done < 0 {
        0
    } else if (done as i64) > t {
        t
    } else {
        done as i64
    };
    proof {
        lemma_filled(done as int, total as int, color);
        lemma_filled(done as int, total as int, false);
    }
    let mut filled: i32 = (d * BAR_WIDTH as i64 / t) as i32;
    if color && filled == 0 && d < t {
        filled = 1;
    }
    let mut out = String::from_str("[");
    if color {
        out.append(STATUS_BAR_FILL);
        push_repeated(&mut out, '▶', filled);
        out.append(
            if filled < BAR_WIDTH {
                STATUS_STYLE_START
            } else {
                ""
            },
        );
        push_repeated(&mut out, '·', BAR_WIDTH - filled);
        out.append(STATUS_STYLE_START);
        out.append("]");
    } else {
        push_repeated(&mut out, '▶', filled);
        push_repeated(&mut out, '·', BAR_WIDTH - filled);
        out.append("]");
    }
    out
}

/// The bar of a progress of `done` in `total`.
pub fn progress_bar(done: i32, total: i32, color: bool) -> (r: Vec<u8>)
    ensures
        r@ == encode_utf8(bar_text(filled_cells(done as int, total as int, color), color)),
{
    let s = bar(done, total, color);
    slice_to_vec(s.as_str().as_bytes())
}

/// A bar has 32 cells; without colour it is nothing but those cells between
/// its brackets.
pub proof fn law_bar_has_its_width(done: int, total: int)
    ensures
        0 <= filled_cells(done, total, false) <= BAR_WIDTH,
        0 <= filled_cells(done, total, true) <= BAR_WIDTH,
        bar_text(filled_cells(done, total, false), false).len() == BAR_WIDTH + 2,
{
    lemma_filled(done, total, false);
    lemma_filled(done, total, true);
    reveal_strlit("[");
    reveal_strlit("]");
}

/// A bar never shrinks while the work goes on, and is full at its end.
pub proof fn law_bar_grows(done: int, more: int, total: int, color: bool)
    requires
        done <= more,
    ensures
        filled_cells(done, total, color) <= filled_cells(more, total, color),
        0 < total <= more ==> filled_cells(more, total, color) == BAR_WIDTH,
{
    let t = if total <= 0 {
        1
    } else {
        total
    };
    let d = clamped(done, 0, t);
    let e = clamped(more, 0, t);
    assert(d * BAR_WIDTH / t <= e * BAR_WIDTH / t) by (nonlinear_arith)
        requires
            0 <= d <= e <= t,
            0 < t,
            BAR_WIDTH == 32,
    ;
    assert(t * BAR_WIDTH / t == BAR_WIDTH) by (nonlinear_arith)
        requires
            0 < t,
            BAR_WIDTH == 32,
    ;
}

/// The power that is used, where it is not all.
pub open spec fn power_text(percent: int) -> Seq<char> {
    if 0 < percent < 100 {
        " | ⚡ "@ + text::decimal(percent as nat) + "%"@
    } else {
        ""@
    }
}

fn power_suffix(percent: i32) -> (r: String)
    ensures
        r@ == power_text(percent as int),
{
    if 0 < percent && percent < 100 {
        let mut r = String::from_str(" | ⚡ ");
        push_u64(&mut r, percent as u64);
        r.append("%");
        r
    } else {
        String::from_str("")
    }
}

/// What a prefill is called.
pub open spec fn label_text(index: u32) -> Seq<char> {
    match index % 6 {
        0 => "reading"@,
        1 => "absorbing"@,
        2 => "studying"@,
        3 => "gathering"@,
        4 => "crunching"@,
        _ => "scrutinizing"@,
    }
}

fn prefill_label(index: u32) -> (r: &'static str)
    ensures
        r@ == label_text(index),
{
    match index % 6 {
        0 => "reading",
        1 => "absorbing",
        2 => "studying",
        3 => "gathering",
        4 => "crunching",
        _ => "scrutinizing",
    }
}

/// `done` in `total` as a percentage with one decimal.
pub open spec fn percent_text(done: int, total: int) -> Seq<char> {
    if done < 0 {
        "-"@ + tenths_text(rounded_tenths((-100 * done) as nat, total as nat))
    } else {
        tenths_text(rounded_tenths((100 * done) as nat, total as nat))
    }
}

fn percent(done: i32, total: i32) -> (r: String)
    requires
        0 < total,
    ensures
        r@ == percent_text(done as int, total as int),
{
    let t: u64 = if done < 0 {
        tenths((-(done as i64)) as u64 * 100, total as u64)
    } else {
        tenths(done as u64 * 100, total as u64)
    };
    let mut r = String::new();
    push_tenths(&mut r, t);
    assert(r@ =~= tenths_text(t as nat));
    if done < 0 {
        let mut s = String::from_str("-");
        s.append(r.as_str());
        s
    } else {
        r
    }
}

/// What the agent is at, with its numbers.
pub open spec fn phase_text(s: Status, color: bool) -> Seq<char> {
    match s.phase {
        WorkerPhase::Prefill => {
            let total = if s.prefill_total > 0 {
                s.prefill_total as int
            } else {
                1
            };
            let done = if s.prefill_done < total {
                s.prefill_done as int
            } else {
                total
            };
            label_text(s.prefill_label) + " "@ + bar_text(
                filled_cells(done, total, color),
                color,
            ) + " "@ + text::signed_decimal(done) + "/"@ + text::signed_decimal(total) + " "@
                + percent_text(done, total) + "%"@
        },
        WorkerPhase::Generating => "generation "@ + text::signed_decimal(s.generated as int)
            + " tokens "@ + s.gen_tps@ + " t/s"@,
        WorkerPhase::Compacting => "COMPACTING summary "@ + text::signed_decimal(
            s.generated as int,
        ) + " tokens "@ + s.gen_tps@ + " t/s"@,
        WorkerPhase::Draining => "stopping after distributed cluster drains"@,
        WorkerPhase::Saving => "saving session"@,
        WorkerPhase::Error => "error: "@ + (if s.error@.len() == 0 {
            "unknown error"@
        } else {
            s.error@
        }),
        WorkerPhase::Stopped => "interrupted"@,
        WorkerPhase::Idle => "idle"@,
    }
}

fn rate_text(title: &str, generated: i32, tps: &str) -> (r: String)
    ensures
        r@ == title@ + text::signed_decimal(generated as int) + " tokens "@ + tps@ + " t/s"@,
{
    let mut r = String::from_str(title);
    push_i64(&mut r, generated as i64);
    r.append(" tokens ");
    r.append(tps);
    r.append(" t/s");
    r
}

fn phase_of(s: &Status, color: bool) -> (r: String)
    ensures
        r@ == phase_text(*s, color),
{
    match s.phase {
        WorkerPhase::Prefill => {
            let total: i32 = if s.prefill_total > 0 {
                s.prefill_total
            } else {
                1
            };
            let done: i32 = if s.prefill_done < total {
                s.prefill_done
            } else {
                total
            };
            let b = bar(done, total, color);
            let p = percent(done, total);
            let mut r = String::from_str(prefill_label(s.prefill_label));
            r.append(" ");
            r.append(b.as_str());
            r.append(" ");
            push_i64(&mut r, done as i64);
            r.append("/");
            push_i64(&mut r, total as i64);
            r.append(" ");
            r.append(p.as_str());
            r.append("%");
            r
        },
        WorkerPhase::Generating => rate_text("generation ", s.generated, s.gen_tps),
        WorkerPhase::Compacting => rate_text("COMPACTING summary ", s.generated, s.gen_tps),
        WorkerPhase::Draining => String::from_str("stopping after distributed cluster drains"),
        WorkerPhase::Saving => String::from_str("saving session"),
        WorkerPhase::Error => {
            let mut r = String::from_str("error: ");
            r.append(
                if s.error.unicode_len() == 0 {
                    "unknown error"
                } else {
                    s.error
                },
            );
            r
        },
        WorkerPhase::Stopped => String::from_str("interrupted"),
        WorkerPhase::Idle => String::from_str("idle"),
    }
}

/// The whole status line.
pub open spec fn status_text(s: Status, color: bool) -> Seq<char> {
    "ctx "@ + ctx_size_text(s.ctx_used as int) + "/"@ + ctx_size_text(s.ctx_size as int) + " | "@
        + phase_text(s, color) + power_text(s.power_percent as int)
}

/// The status line, if there is a terminal.
pub fn progress_bytes(status: &Status, surface: Surface) -> (r: Vec<u8>)
    ensures
        r@ == if surface == Surface::Tui {
            encode_utf8(status_text(*status, true))
        } else {
            seq![]
        },
{
    if !surface.is_tui() {
        return Vec::new();
    }
    let used = format_ctx_size(status.ctx_used);
    let size = format_ctx_size(status.ctx_size);
    let phase = phase_of(status, true);
    let power = power_suffix(status.power_percent);
    let mut s = String::from_str("ctx ");
    s.append(used.as_str());
    s.append("/");
    s.append(size.as_str());
    s.append(" | ");
    s.append(phase.as_str());
    s.append(power.as_str());
    slice_to_vec(s.as_str().as_bytes())
}

} // verus!
