//! The lines of the trace.

use crate::agent::options::ChatThinkMode;
use crate::bytes;
use crate::bytes::{push_bytes, push_text};
use crate::model::Backend;
use crate::text;
use crate::text::{push_hex_byte, push_i64, push_u64};
use vstd::prelude::*;
use vstd::slice::*;
use vstd::string::*;
use vstd::utf8::*;

verus! {

pub fn backend_name(backend: Backend) -> (r: &'static str)
    ensures
        r@ == match backend {
            Backend::Metal => "metal"@,
            Backend::Cuda => "cuda"@,
            Backend::Cpu => "cpu"@,
        },
{
    match backend {
        Backend::Metal => "metal",
        Backend::Cuda => "cuda",
        Backend::Cpu => "cpu",
    }
}

pub fn think_mode_name(mode: ChatThinkMode) -> (r: &'static str)
    ensures
        r@ == match mode {
            ChatThinkMode::Disabled => "none"@,
            ChatThinkMode::Low => "low"@,
            ChatThinkMode::High => "high"@,
            ChatThinkMode::Max => "max"@,
        },
{
    match mode {
        ChatThinkMode::Disabled => "none",
        ChatThinkMode::Low => "low",
        ChatThinkMode::High => "high",
        ChatThinkMode::Max => "max",
    }
}

/// The hexadecimal digit of `d`.
pub open spec fn hex_digit_byte(d: int) -> u8 {
    if d < 10 {
        (48 + d) as u8
    } else {
        (87 + d) as u8
    }
}

/// How one byte is written: quotes, backslashes and control bytes are escaped.
pub open spec fn escaped_byte(b: u8) -> Seq<u8> {
    if b == 0x5c {
        seq![0x5cu8, 0x5c]
    } else if b == 0x0a {
        seq![0x5cu8, 0x6e]
    } else if b == 0x0d {
        seq![0x5cu8, 0x72]
    } else if b == 0x09 {
        seq![0x5cu8, 0x74]
    } else if b == 0x22 {
        seq![0x5cu8, 0x22]
    } else if b < 32 || b == 127 {
        seq![0x5cu8, 0x78, hex_digit_byte(b as int / 16), hex_digit_byte(b as int % 16)]
    } else {
        seq![b]
    }
}

/// How bytes are written.
pub open spec fn escaped(s: Seq<u8>) -> Seq<u8>
    decreases s.len(),
{
    if s.len() == 0 {
        seq![]
    } else {
        escaped(s.drop_last()) + escaped_byte(s.last())
    }
}

fn hex_of(d: u8) -> (r: u8)
    requires
        d < 16,
    ensures
        r == hex_digit_byte(d as int),
{
    if d < 10 {
        48 + d
    } else {
        87 + d
    }
}

fn push_escaped_byte(out: &mut Vec<u8>, b: u8)
    ensures
        final(out)@ == old(out)@ + escaped_byte(b),
{
    let ghost before = out@;
    if b == 0x5c || b == 0x22 {
        out.push(0x5c);
        out.push(b);
    } else if b == 0x0a {
        out.push(0x5c);
        out.push(0x6e);
    } else if b == 0x0d {
        out.push(0x5c);
        out.push(0x72);
    } else if b == 0x09 {
        out.push(0x5c);
        out.push(0x74);
    } else if b < 32 || b == 127 {
        out.push(0x5c);
        out.push(0x78);
        out.push(hex_of(b / 16));
        out.push(hex_of(b % 16));
    } else {
        out.push(b);
    }
    assert(out@ =~= before + escaped_byte(b));
}

fn escape_into(out: &mut Vec<u8>, s: &[u8])
    ensures
        final(out)@ == old(out)@ + escaped(s@),
{
    let n: usize = s.len();
    let ghost before = out@;
    let mut i: usize = 0;
    assert(out@ =~= before + escaped(s@.take(0)));
    while i < n
        invariant
            n == s@.len(),
            i <= n,
            out@ == before + escaped(s@.take(i as int)),
        decreases n - i,
    {
        push_escaped_byte(out, s[i]);
        proof {
            let t = s@.take(i + 1);
            assert(t.drop_last() =~= s@.take(i as int));
            assert(t.last() == s@[i as int]);
            bytes::lemma_join(before, escaped(s@.take(i as int)), escaped_byte(s@[i as int]));
        }
        i += 1;
    }
    assert(s@.take(n as int) =~= s@);
}

/// How bytes are written.
pub fn escape(s: &[u8]) -> (r: Vec<u8>)
    ensures
        r@ == escaped(s@),
{
    let mut out: Vec<u8> = Vec::new();
    escape_into(&mut out, s);
    assert(out@ =~= escaped(s@));
    out
}

/// What is written holds no control byte, so it stays on one line.
pub proof fn law_escaped_is_printable(s: Seq<u8>)
    ensures
        forall|i: int|
            0 <= i < escaped(s).len() ==> 32 <= #[trigger] escaped(s)[i] && escaped(s)[i] != 127,
    decreases s.len(),
{
    if s.len() > 0 {
        law_escaped_is_printable(s.drop_last());
        let front = escaped(s.drop_last());
        let last = escaped_byte(s.last());
        assert forall|i: int| 0 <= i < escaped(s).len() implies 32 <= #[trigger] escaped(s)[i]
            && escaped(s)[i] != 127 by {
            if i < front.len() {
                assert(escaped(s)[i] == front[i]);
            } else {
                assert(escaped(s)[i] == last[i - front.len()]);
            }
        }
    }
}

proof fn lemma_escaped_front(s: Seq<u8>)
    requires
        s.len() > 0,
    ensures
        escaped(s) == escaped_byte(s[0]) + escaped(s.skip(1)),
    decreases s.len(),
{
    if s.len() == 1 {
        assert(escaped(s.drop_last()) == Seq::<u8>::empty());
        assert(escaped(s.skip(1)) == Seq::<u8>::empty());
        assert(escaped(s) =~= escaped_byte(s[0]) + escaped(s.skip(1)));
    } else {
        lemma_escaped_front(s.drop_last());
        assert(s.drop_last().skip(1) =~= s.skip(1).drop_last());
        bytes::lemma_join(
            escaped_byte(s[0]),
            escaped(s.skip(1).drop_last()),
            escaped_byte(s.last()),
        );
    }
}

proof fn lemma_first_bytes(a: u8, x: Seq<u8>, b: u8, y: Seq<u8>)
    requires
        escaped_byte(a) + x == escaped_byte(b) + y,
    ensures
        a == b,
        x == y,
{
    let l = escaped_byte(a) + x;
    let r = escaped_byte(b) + y;
    assert(l[0] == escaped_byte(a)[0]);
    assert(r[0] == escaped_byte(b)[0]);
    if l[0] == 0x5c {
        assert(l[1] == escaped_byte(a)[1]);
        assert(r[1] == escaped_byte(b)[1]);
        if l[1] == 0x78 {
            assert(l[2] == escaped_byte(a)[2]);
            assert(r[2] == escaped_byte(b)[2]);
            assert(l[3] == escaped_byte(a)[3]);
            assert(r[3] == escaped_byte(b)[3]);
        }
    }
    assert(a == b);
    let k = escaped_byte(a).len() as int;
    assert(x =~= l.skip(k));
    assert(y =~= r.skip(k));
}

/// Different bytes are written differently.
pub proof fn law_escape_is_injective(a: Seq<u8>, b: Seq<u8>)
    requires
        escaped(a) == escaped(b),
    ensures
        a == b,
    decreases a.len(),
{
    if a.len() > 0 {
        lemma_escaped_front(a);
        assert(escaped(a).len() > 0);
        if b.len() == 0 {
            assert(escaped(b).len() == 0);
        }
        lemma_escaped_front(b);
        lemma_first_bytes(a[0], escaped(a.skip(1)), b[0], escaped(b.skip(1)));
        law_escape_is_injective(a.skip(1), b.skip(1));
        assert(a =~= seq![a[0]] + a.skip(1));
        assert(b =~= seq![b[0]] + b.skip(1));
    } else {
        if b.len() > 0 {
            lemma_escaped_front(b);
            assert(escaped(b).len() > 0);
            assert(escaped(a).len() == 0);
        }
        assert(a =~= b);
    }
}

/// A labelled text as a line of the trace.
pub fn text_line(label: &str, s: &[u8]) -> (r: Vec<u8>)
    ensures
        r@ == encode_utf8(" "@ + label@ + "=\""@) + escaped(s@) + encode_utf8("\""@),
{
    let mut head = String::from_str(" ");
    head.append(label);
    head.append("=\"");
    let mut out = slice_to_vec(head.as_str().as_bytes());
    escape_into(&mut out, s);
    push_text(&mut out, "\"");
    out
}

/// The bytes `s` in hexadecimal.
pub open spec fn hex_text(s: Seq<u8>) -> Seq<char>
    decreases s.len(),
{
    if s.len() == 0 {
        ""@
    } else {
        hex_text(s.drop_last()) + text::hex_byte(s.last())
    }
}

fn hex_string(s: &[u8]) -> (r: String)
    ensures
        r@ == hex_text(s@),
{
    let n: usize = s.len();
    let mut r = String::from_str("");
    let mut i: usize = 0;
    assert(s@.take(0).len() == 0);
    while i < n
        invariant
            n == s@.len(),
            i <= n,
            r@ == hex_text(s@.take(i as int)),
        decreases n - i,
    {
        push_hex_byte(&mut r, s[i]);
        proof {
            let t = s@.take(i + 1);
            assert(t.drop_last() =~= s@.take(i as int));
            assert(t.last() == s@[i as int]);
        }
        i += 1;
    }
    assert(s@.take(n as int) =~= s@);
    r
}

/// A token as a line of the trace.
pub fn format_token_line(token: i32, s: &[u8], index: i32) -> (r: Vec<u8>)
    ensures
        r@ == encode_utf8(
            " token index="@ + text::signed_decimal(index as int) + " id="@ + text::signed_decimal(
                token as int,
            ) + " bytes="@ + text::decimal(s@.len()) + " text=\""@,
        ) + escaped(s@) + encode_utf8("\" hex="@ + hex_text(s@)),
{
    let mut head = String::from_str(" token index=");
    push_i64(&mut head, index as i64);
    head.append(" id=");
    push_i64(&mut head, token as i64);
    head.append(" bytes=");
    push_u64(&mut head, s.len() as u64);
    head.append(" text=\"");
    let mut out = slice_to_vec(head.as_str().as_bytes());
    escape_into(&mut out, s);
    let hex = hex_string(s);
    let mut tail = String::from_str("\" hex=");
    tail.append(hex.as_str());
    push_text(&mut out, tail.as_str());
    out
}

/// The line above a list of tokens, and the first token of the list that is
/// written.
pub fn tokens_line(label: &str, len: usize, start: usize) -> (r: (String, usize))
    ensures
        r.1 == if start < len {
            start
        } else {
            len
        },
        r.0@ == "tokens label="@ + label@ + " start="@ + text::decimal(r.1 as nat) + " len="@
            + text::decimal(len as nat),
{
    let from: usize = if start < len {
        start
    } else {
        len
    };
    let mut r = String::from_str("tokens label=");
    r.append(label);
    r.append(" start=");
    push_u64(&mut r, from as u64);
    r.append(" len=");
    push_u64(&mut r, len as u64);
    (r, from)
}

/// A point in time, in the parts of a calendar.
#[derive(Clone, Copy, Debug, PartialEq, Eq, Structural)]
pub struct TraceTime {
    /// Counted from 1900.
    pub year: i32,
    /// Counted from 0.
    pub month: i32,
    pub day: i32,
    pub hour: i32,
    pub minute: i32,
    pub second: i32,
    pub nanos: i64,
}

/// So many zeros; none where `n` is negative.
pub open spec fn zeros(n: int) -> Seq<char> {
    if n <= 0 {
        seq![]
    } else {
        Seq::new(n as nat, |i: int| '0')
    }
}

/// `n` in decimal, filled up with zeros to `width` characters; a sign stands
/// in front of the zeros.
pub open spec fn padded(n: int, width: int) -> Seq<char> {
    let digits = text::decimal(
        (if n < 0 {
            -n
        } else {
            n
        }) as nat,
    );
    if n < 0 {
        "-"@ + zeros(width - 1 - digits.len()) + digits
    } else {
        zeros(width - digits.len()) + digits
    }
}

fn push_zeros(out: &mut String, n: usize)
    ensures
        final(out)@ == old(out)@ + zeros(n as int),
{
    let ghost before = out@;
    let mut i: usize = 0;
    assert(out@ =~= before + zeros(0));
    while i < n
        invariant
            i <= n,
            out@ == before + zeros(i as int),
        decreases n - i,
    {
        out.push('0');
        i += 1;
        assert(out@ =~= before + zeros(i as int));
    }
}

fn padded_string(n: i64, width: usize) -> (r: String)
    requires
        n > i64::MIN,
        1 <= width,
    ensures
        r@ == padded(n as int, width as int),
{
    let magnitude: u64 = if n < 0 {
        (-n) as u64
    } else {
        n as u64
    };
    let mut digits = String::new();
    push_u64(&mut digits, magnitude);
    assert(digits@ =~= text::decimal(magnitude as nat));
    let len: usize = digits.as_str().unicode_len();
    let mut r = String::from_str(
        if n < 0 {
            "-"
        } else {
            ""
        },
    );
    let room: usize = if n < 0 {
        width - 1
    } else {
        width
    };
    let fill: usize = if len < room {
        room - len
    } else {
        0
    };
    push_zeros(&mut r, fill);
    r.append(digits.as_str());
    proof {
        reveal_strlit("");
        if n < 0 {
            assert(zeros(width - 1 - len) =~= zeros(fill as int));
        } else {
            assert(zeros(width - len) =~= zeros(fill as int));
            assert(r@ =~= padded(n as int, width as int));
        }
    }
    r
}

/// A point in time as the trace writes it.
pub open spec fn time_text(t: TraceTime) -> Seq<char> {
    padded(t.year + 1900, 4) + "-"@ + padded(t.month + 1, 2) + "-"@ + padded(t.day as int, 2) + " "@
        + padded(t.hour as int, 2) + ":"@ + padded(t.minute as int, 2) + ":"@ + padded(
        t.second as int,
        2,
    ) + "."@ + padded(t.nanos as int / 1_000_000, 3)
}

/// A point in time as the trace writes it.
pub fn format_trace_time(t: &TraceTime) -> (r: String)
    requires
        t.year + 1900 <= i32::MAX,
        t.month + 1 <= i32::MAX,
        0 <= t.nanos,
    ensures
        r@ == time_text(*t),
{
    let mut r = padded_string(t.year as i64 + 1900, 4);
    r.append("-");
    r.append(padded_string(t.month as i64 + 1, 2).as_str());
    r.append("-");
    r.append(padded_string(t.day as i64, 2).as_str());
    r.append(" ");
    r.append(padded_string(t.hour as i64, 2).as_str());
    r.append(":");
    r.append(padded_string(t.minute as i64, 2).as_str());
    r.append(":");
    r.append(padded_string(t.second as i64, 2).as_str());
    r.append(".");
    r.append(padded_string(t.nanos / 1_000_000, 3).as_str());
    r
}

/// A line of the trace with its time in front.
pub fn trace_line(time: &TraceTime, message: &[u8]) -> (r: Vec<u8>)
    requires
        time.year + 1900 <= i32::MAX,
        time.month + 1 <= i32::MAX,
        0 <= time.nanos,
    ensures
        r@ == encode_utf8(time_text(*time) + " "@) + message@ + encode_utf8("\n"@),
{
    let mut head = format_trace_time(time);
    head.append(" ");
    let mut out = slice_to_vec(head.as_str().as_bytes());
    push_bytes(&mut out, message);
    push_text(&mut out, "\n");
    out
}

/// What is said where the trace cannot be opened.
pub fn open_failure(name: &str, path: &str, error: &str) -> (r: String)
    ensures
        r@ == name@ + ": failed to open trace "@ + path@ + ": "@ + error@,
{
    let mut r = String::from_str(name);
    r.append(": failed to open trace ");
    r.append(path);
    r.append(": ");
    r.append(error);
    r
}

} // verus!
