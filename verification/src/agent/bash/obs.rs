//! What is shown of a job and its output.

use crate::agent::bash::BashJob;
use crate::bytes;
use crate::bytes::{push_bytes, push_text};
use crate::text;
use crate::text::{push_i64, push_u64};
use vstd::prelude::*;
use vstd::slice::*;
use vstd::string::*;
use vstd::utf8::*;

verus! {

pub const HEAD_BYTES: usize = 8192;

pub const HEAD_LINES: i32 = 100;

pub const TAIL_BYTES: usize = 32768;

pub const PROGRESS_TAIL_LINES: i32 = 4;

pub const FINAL_TAIL_LINES: i32 = 20;

/// How many line feeds `data` holds.
pub open spec fn line_feeds(data: Seq<u8>) -> nat
    decreases data.len(),
{
    if data.len() == 0 {
        0
    } else {
        line_feeds(data.drop_last()) + if data.last() == 0x0a {
            1nat
        } else {
            0
        }
    }
}

/// How many lines `data` has; the last one may lack its line feed.
pub open spec fn line_count(data: Seq<u8>) -> nat {
    line_feeds(data) + if data.len() > 0 && data.last() != 0x0a {
        1nat
    } else {
        0
    }
}

proof fn lemma_line_feeds(data: Seq<u8>)
    ensures
        line_feeds(data) <= data.len(),
        data.len() > 0 && data.last() != 0x0a ==> line_feeds(data) < data.len(),
    decreases data.len(),
{
    if data.len() > 0 {
        lemma_line_feeds(data.drop_last());
    }
}

/// Counts the lines of `data`.
pub fn count_lines(data: &[u8]) -> (r: usize)
    ensures
        r == line_count(data@),
        r <= data@.len(),
{
    let n: usize = data.len();
    let mut feeds: usize = 0;
    let mut i: usize = 0;
    assert(data@.take(0).len() == 0);
    while i < n
        invariant
            n == data@.len(),
            i <= n,
            feeds == line_feeds(data@.take(i as int)),
            feeds <= i,
        decreases n - i,
    {
        proof {
            let t = data@.take(i + 1);
            assert(t.drop_last() =~= data@.take(i as int));
            assert(t.last() == data@[i as int]);
        }
        if data[i] == 0x0a {
            feeds += 1;
        }
        i += 1;
    }
    proof {
        assert(data@.take(n as int) =~= data@);
        lemma_line_feeds(data@);
    }
    if n > 0 && data[n - 1] != 0x0a {
        feeds + 1
    } else {
        feeds
    }
}

/// Where the head ends that begins at the start, when the first `i` bytes hold
/// `feeds` line feeds: behind 100 lines, or 8192 bytes, or at the end.
pub open spec fn head_end(data: Seq<u8>, i: int, feeds: int) -> int
    decreases data.len() - i,
{
    if i < 0 || i >= data.len() || feeds >= HEAD_LINES || i >= HEAD_BYTES {
        i
    } else {
        head_end(
            data,
            i + 1,
            if data[i] == 0x0a {
                feeds + 1
            } else {
                feeds
            },
        )
    }
}

/// The start of the output that is shown.
pub open spec fn head_of(data: Seq<u8>) -> Seq<u8> {
    data.take(head_end(data, 0, 0))
}

/// The start of the output.
pub fn read_head(data: &[u8]) -> (r: Vec<u8>)
    ensures
        r@ == head_of(data@),
        r@.len() <= HEAD_BYTES,
{
    let n: usize = data.len();
    let mut feeds: i32 = 0;
    let mut i: usize = 0;
    while i < n && feeds < HEAD_LINES && i < HEAD_BYTES
        invariant
            n == data@.len(),
            i <= n,
            i <= HEAD_BYTES,
            0 <= feeds <= HEAD_LINES,
            head_end(data@, 0, 0) == head_end(data@, i as int, feeds as int),
        decreases n - i,
    {
        if data[i] == 0x0a {
            feeds += 1;
        }
        i += 1;
    }
    let r = slice_to_vec(slice_subrange(data, 0, i));
    assert(r@ =~= data@.take(i as int));
    r
}

proof fn lemma_head_end(data: Seq<u8>, i: int, feeds: int)
    requires
        0 <= i <= data.len(),
        i <= HEAD_BYTES,
        feeds == line_feeds(data.take(i)),
        feeds <= HEAD_LINES,
    ensures
        i <= head_end(data, i, feeds) <= data.len(),
        head_end(data, i, feeds) <= HEAD_BYTES,
        line_feeds(data.take(head_end(data, i, feeds))) <= HEAD_LINES,
    decreases data.len() - i,
{
    if i < data.len() && feeds < HEAD_LINES && i < HEAD_BYTES {
        let t = data.take(i + 1);
        assert(t.drop_last() =~= data.take(i));
        assert(t.last() == data[i]);
        lemma_head_end(
            data,
            i + 1,
            if data[i] == 0x0a {
                feeds + 1
            } else {
                feeds
            },
        );
    }
}

/// The head is a prefix of the output, within its bounds.
pub proof fn law_head_is_bounded(data: Seq<u8>)
    ensures
        head_of(data).is_prefix_of(data),
        head_of(data).len() <= HEAD_BYTES,
        line_feeds(head_of(data)) <= HEAD_LINES,
{
    assert(data.take(0).len() == 0);
    lemma_head_end(data, 0, 0);
}

/// Where the last `max + 1` line feeds but `seen` of the first `i` bytes leave
/// the end: behind the first of them, or at the start.
pub open spec fn tail_cut(window: Seq<u8>, i: int, seen: int, max: int) -> int
    decreases i,
{
    if i <= 0 {
        0
    } else if window[i - 1] == 0x0a {
        if seen + 1 > max {
            i
        } else {
            tail_cut(window, i - 1, seen + 1, max)
        }
    } else {
        tail_cut(window, i - 1, seen, max)
    }
}

/// The last bytes of the output, in which its end is looked for.
pub open spec fn window_of(data: Seq<u8>) -> Seq<u8> {
    data.skip(
        if data.len() > TAIL_BYTES {
            data.len() - TAIL_BYTES
        } else {
            0
        },
    )
}

/// The end of the output that is shown.
pub open spec fn tail_of(data: Seq<u8>, max: int) -> Seq<u8> {
    let w = window_of(data);
    w.skip(tail_cut(w, w.len() as int, 0, max))
}

/// The end of the output, with at most `max` line feeds.
pub fn read_tail(data: &[u8], max: i32) -> (r: Vec<u8>)
    requires
        0 <= max < i32::MAX,
    ensures
        r@ == tail_of(data@, max as int),
{
    let n: usize = data.len();
    let start: usize = if n > TAIL_BYTES {
        n - TAIL_BYTES
    } else {
        0
    };
    let w = slice_subrange(data, start, n);
    assert(w@ =~= window_of(data@));
    let len: usize = w.len();
    let mut seen: i32 = 0;
    let mut i: usize = len;
    let mut cut: usize = 0;
    while i > 0
        invariant_except_break
            cut == 0,
            tail_cut(w@, len as int, 0, max as int) == tail_cut(
                w@,
                i as int,
                seen as int,
                max as int,
            ),
        invariant
            len == w@.len(),
            i <= len,
            0 <= seen <= max < i32::MAX,
        ensures
            cut <= len,
            cut == tail_cut(w@, len as int, 0, max as int),
        decreases i,
    {
        if w[i - 1] == 0x0a {
            if seen + 1 > max {
                cut = i;
                break;
            }
            seen += 1;
        }
        i -= 1;
    }
    let r = slice_to_vec(slice_subrange(w, cut, len));
    assert(r@ =~= tail_of(data@, max as int));
    r
}

proof fn lemma_tail_cut(w: Seq<u8>, i: int, seen: int, max: int)
    requires
        0 <= i <= w.len(),
        seen == line_feeds(w.skip(i)),
        0 <= seen <= max,
    ensures
        0 <= tail_cut(w, i, seen, max) <= i,
        line_feeds(w.skip(tail_cut(w, i, seen, max))) <= max,
    decreases i,
{
    if i > 0 {
        lemma_feeds_front(w, i - 1);
        if w[i - 1] == 0x0a {
            if seen + 1 <= max {
                lemma_tail_cut(w, i - 1, seen + 1, max);
            }
        } else {
            lemma_tail_cut(w, i - 1, seen, max);
        }
    }
}

proof fn lemma_feeds_front(w: Seq<u8>, i: int)
    requires
        0 <= i < w.len(),
    ensures
        line_feeds(w.skip(i)) == line_feeds(w.skip(i + 1)) + if w[i] == 0x0a {
            1nat
        } else {
            0
        },
    decreases w.len(),
{
    let s = w.skip(i);
    if i + 1 == w.len() {
        assert(line_feeds(s.drop_last()) == 0);
        assert(line_feeds(w.skip(i + 1)) == 0);
        assert(s.last() == w[i]);
    } else {
        let d = w.drop_last();
        lemma_feeds_front(d, i);
        assert(s.drop_last() =~= d.skip(i));
        assert(w.skip(i + 1).drop_last() =~= d.skip(i + 1));
        assert(s.last() == w.last());
        assert(w.skip(i + 1).last() == w.last());
    }
}

/// The tail is a suffix of the output, within its bounds.
pub proof fn law_tail_is_bounded(data: Seq<u8>, max: int)
    requires
        0 <= max,
    ensures
        tail_of(data, max).is_suffix_of(data),
        tail_of(data, max).len() <= TAIL_BYTES,
        line_feeds(tail_of(data, max)) <= max,
{
    let w = window_of(data);
    assert(w.skip(w.len() as int).len() == 0);
    lemma_tail_cut(w, w.len() as int, 0, max);
    let t = tail_of(data, max);
    assert(t =~= data.subrange(data.len() - t.len(), data.len() as int));
}

/// What stands for an output that cannot be read again.
pub const REOPEN_FAILED: &'static str = "<failed to reopen output file>\n";

/// The output as it was read, or what stands for it.
pub open spec fn or_failed(data: Option<Seq<u8>>, part: Seq<u8>) -> Seq<u8> {
    if data is None {
        encode_utf8(REOPEN_FAILED@)
    } else {
        part
    }
}

/// `s` with a line feed behind it, unless it is empty or has one.
pub open spec fn with_feed(s: Seq<u8>) -> Seq<u8> {
    if s.len() > 0 && s.last() != 0x0a {
        s + encode_utf8("\n"@)
    } else {
        s
    }
}

fn push_with_feed(out: &mut Vec<u8>, s: &[u8])
    ensures
        final(out)@ == old(out)@ + with_feed(s@),
{
    let ghost before = out@;
    push_bytes(out, s);
    if s.len() > 0 && s[s.len() - 1] != 0x0a {
        push_text(out, "\n");
        proof {
            bytes::lemma_join(before, s@, encode_utf8("\n"@));
        }
    }
}

/// The line that tells the state of a job.
pub open spec fn status_text(job: BashJob, elapsed: Seq<char>) -> Seq<char> {
    "bash job="@ + text::signed_decimal(job.id as int) + " pid="@ + text::signed_decimal(
        job.pid as int,
    ) + (if job.running {
        " status=running elapsed_sec="@ + elapsed + " timeout_sec="@ + text::signed_decimal(
            job.timeout_sec as int,
        ) + "\n"@
    } else {
        " status=done elapsed_sec="@ + elapsed + " timed_out="@ + (if job.timed_out {
            "1"@
        } else {
            "0"@
        }) + "\nexit_status="@ + text::signed_decimal(job.exit_status as int) + "\n"@
    })
}

fn status_line(job: &BashJob, elapsed: &str) -> (r: String)
    ensures
        r@ == status_text(*job, elapsed@),
{
    let mut tail = String::new();
    if job.running {
        tail.append(" status=running elapsed_sec=");
        tail.append(elapsed);
        tail.append(" timeout_sec=");
        push_i64(&mut tail, job.timeout_sec as i64);
        tail.append("\n");
        assert(tail@ =~= " status=running elapsed_sec="@ + elapsed@ + " timeout_sec="@
            + text::signed_decimal(job.timeout_sec as int) + "\n"@);
    } else {
        tail.append(" status=done elapsed_sec=");
        tail.append(elapsed);
        tail.append(" timed_out=");
        tail.append(
            if job.timed_out {
                "1"
            } else {
                "0"
            },
        );
        tail.append("\nexit_status=");
        push_i64(&mut tail, job.exit_status as i64);
        tail.append("\n");
        assert(tail@ =~= " status=done elapsed_sec="@ + elapsed@ + " timed_out="@ + (
        if job.timed_out {
            "1"@
        } else {
            "0"@
        }) + "\nexit_status="@ + text::signed_decimal(job.exit_status as int) + "\n"@);
    }
    let mut r = String::from_str("bash job=");
    push_i64(&mut r, job.id as i64);
    r.append(" pid=");
    push_i64(&mut r, job.pid as i64);
    r.append(tail.as_str());
    r
}

/// The line that names the file with the output.
pub open spec fn output_path_text(path: Seq<char>, data: Seq<u8>) -> Seq<char> {
    "output_path="@ + path + " ("@ + text::decimal(data.len()) + " bytes, "@ + text::decimal(
        line_count(data),
    ) + " lines)\n"@
}

/// The line above a part of the output.
pub open spec fn open_tag(tag: Seq<char>, lines: int, path: Seq<char>) -> Seq<char> {
    "<"@ + tag + " -"@ + text::signed_decimal(lines) + " "@ + path + ">\n"@
}

/// The line below a part of the output.
pub open spec fn close_tag(tag: Seq<char>) -> Seq<char> {
    "</"@ + tag + ">\n"@
}

/// A part of the output between tags.
pub open spec fn part_text(tag: Seq<char>, lines: int, path: Seq<char>, part: Seq<u8>) -> Seq<u8> {
    encode_utf8(open_tag(tag, lines, path)) + with_feed(part) + encode_utf8(close_tag(tag))
}

/// What is shown of the output of a job. `measured` is the output when it was
/// measured, `again` when it was read after that. A finished job that fits is
/// shown whole at its first look; otherwise its head is shown at the first
/// look, and its tail at later ones.
pub open spec fn output_text(job: BashJob, measured: Seq<u8>, again: Option<Seq<u8>>) -> Seq<u8> {
    if measured.len() == 0 {
        encode_utf8("<output>\n</output>\n"@)
    } else if !job.observed_once {
        let head = or_failed(again, head_of(again->0));
        if !job.running && !is_truncated(measured, again) {
            encode_utf8("<output>\n"@) + with_feed(head) + encode_utf8("</output>\n"@)
        } else {
            encode_utf8(output_path_text(job.path@, measured)) + part_text(
                "head"@,
                HEAD_LINES as int,
                job.path@,
                head,
            )
        }
    } else {
        let lines = tail_lines(job.running);
        encode_utf8(output_path_text(job.path@, measured)) + part_text(
            "tail"@,
            lines,
            job.path@,
            or_failed(again, tail_of(again->0, lines)),
        )
    }
}

/// The head does not show all: it reached its bound, or has fewer lines.
pub open spec fn is_truncated(measured: Seq<u8>, again: Option<Seq<u8>>) -> bool {
    match again {
        None => true,
        Some(data) => head_of(data).len() >= HEAD_BYTES || line_count(measured) > line_count(
            head_of(data),
        ),
    }
}

/// How many lines a tail shows.
pub open spec fn tail_lines(running: bool) -> int {
    if running {
        PROGRESS_TAIL_LINES as int
    } else {
        FINAL_TAIL_LINES as int
    }
}

fn push_output_path(out: &mut Vec<u8>, path: &str, data: &[u8])
    ensures
        final(out)@ == old(out)@ + encode_utf8(output_path_text(path@, data@)),
{
    let mut line = String::from_str("output_path=");
    line.append(path);
    line.append(" (");
    push_u64(&mut line, data.len() as u64);
    line.append(" bytes, ");
    push_u64(&mut line, count_lines(data) as u64);
    line.append(" lines)\n");
    push_text(out, line.as_str());
}

fn push_part(out: &mut Vec<u8>, tag: &str, lines: i32, path: &str, part: &[u8])
    ensures
        final(out)@ == old(out)@ + part_text(tag@, lines as int, path@, part@),
{
    let ghost before = out@;
    let mut open = String::from_str("<");
    open.append(tag);
    open.append(" -");
    push_i64(&mut open, lines as i64);
    open.append(" ");
    open.append(path);
    open.append(">\n");
    let mut close = String::from_str("</");
    close.append(tag);
    close.append(">\n");
    push_text(out, open.as_str());
    push_with_feed(out, part);
    push_text(out, close.as_str());
    assert(out@ =~= before + part_text(tag@, lines as int, path@, part@));
}

fn head_or_failed(again: Option<&[u8]>) -> (r: Vec<u8>)
    ensures
        r@ == or_failed(data_view(again), head_of(data_view(again)->0)),
{
    match again {
        None => slice_to_vec(REOPEN_FAILED.as_bytes()),
        Some(data) => read_head(data),
    }
}

fn tail_or_failed(again: Option<&[u8]>, lines: i32) -> (r: Vec<u8>)
    requires
        0 <= lines < i32::MAX,
    ensures
        r@ == or_failed(data_view(again), tail_of(data_view(again)->0, lines as int)),
{
    match again {
        None => slice_to_vec(REOPEN_FAILED.as_bytes()),
        Some(data) => read_tail(data, lines),
    }
}

pub open spec fn data_view(d: Option<&[u8]>) -> Option<Seq<u8>> {
    match d {
        Some(b) => Some(b@),
        None => None,
    }
}

fn truncated(measured: &[u8], again: Option<&[u8]>, head: &[u8]) -> (r: bool)
    requires
        again is Some ==> head@ == head_of(again->0@),
    ensures
        r == is_truncated(measured@, data_view(again)),
{
    match again {
        None => true,
        Some(_) => head.len() >= HEAD_BYTES || count_lines(measured) > count_lines(head),
    }
}

fn push_output(out: &mut Vec<u8>, job: &BashJob, measured: &[u8], again: Option<&[u8]>)
    ensures
        final(out)@ == old(out)@ + output_text(*job, measured@, data_view(again)),
{
    let ghost before = out@;
    if measured.len() == 0 {
        push_text(out, "<output>\n</output>\n");
        return;
    }
    if !job.observed_once {
        let head = head_or_failed(again);
        if !job.running && !truncated(measured, again, head.as_slice()) {
            push_text(out, "<output>\n");
            push_with_feed(out, head.as_slice());
            push_text(out, "</output>\n");
            assert(out@ =~= before + output_text(*job, measured@, data_view(again)));
            return;
        }
        push_output_path(out, job.path.as_str(), measured);
        push_part(out, "head", HEAD_LINES, job.path.as_str(), head.as_slice());
        assert(out@ =~= before + output_text(*job, measured@, data_view(again)));
        return;
    }
    let lines: i32 = if job.running {
        PROGRESS_TAIL_LINES
    } else {
        FINAL_TAIL_LINES
    };
    let tail = tail_or_failed(again, lines);
    push_output_path(out, job.path.as_str(), measured);
    push_part(out, "tail", lines, job.path.as_str(), tail.as_slice());
    assert(out@ =~= before + output_text(*job, measured@, data_view(again)));
}

/// What is said about a job that still runs.
pub open spec fn follow_text(job: BashJob) -> Seq<char> {
    if job.running {
        "\nUse bash_status job="@ + text::signed_decimal(job.id as int)
            + " to get info before refresh time; use bash_stop job="@ + text::signed_decimal(
            job.id as int,
        ) + " to stop execution\n"@
    } else {
        ""@
    }
}

fn follow_line(job: &BashJob) -> (r: String)
    ensures
        r@ == follow_text(*job),
{
    if !job.running {
        return String::from_str("");
    }
    let mut r = String::from_str("\nUse bash_status job=");
    push_i64(&mut r, job.id as i64);
    r.append(" to get info before refresh time; use bash_stop job=");
    push_i64(&mut r, job.id as i64);
    r.append(" to stop execution\n");
    r
}

/// Everything that is shown of a job.
pub open spec fn observation_text(
    job: BashJob,
    elapsed: Seq<char>,
    measured: Seq<u8>,
    again: Option<Seq<u8>>,
) -> Seq<u8> {
    encode_utf8(status_text(job, elapsed)) + output_text(job, measured, again) + encode_utf8(
        follow_text(job),
    )
}

/// Everything that is shown of a job that has run `elapsed` seconds, written
/// out in decimal. `measured` is its output when it was measured, empty where
/// it could not be read; `again` is what a second reading gave. Lines are
/// counted in 32 bits.
pub fn observation(job: &mut BashJob, elapsed: &str, measured: &[u8], again: Option<&[u8]>) -> (r:
    Vec<u8>)
    requires
        line_count(measured@) <= i32::MAX,
    ensures
        r@ == observation_text(*old(job), elapsed@, measured@, data_view(again)),
        *final(job) == (BashJob { observed_once: true, ..*old(job) }),
{
    let status = status_line(job, elapsed);
    let follow = follow_line(job);
    let mut out = slice_to_vec(status.as_str().as_bytes());
    push_output(&mut out, job, measured, again);
    push_text(&mut out, follow.as_str());
    job.observed_once = true;
    out
}

proof fn lemma_feeds_join(a: Seq<u8>, b: Seq<u8>)
    ensures
        line_feeds(a + b) == line_feeds(a) + line_feeds(b),
    decreases b.len(),
{
    if b.len() == 0 {
        assert(a + b =~= a);
    } else {
        assert((a + b).drop_last() =~= a + b.drop_last());
        lemma_feeds_join(a, b.drop_last());
    }
}

proof fn lemma_feeds_none(a: Seq<u8>)
    requires
        !a.contains(0x0a),
    ensures
        line_feeds(a) == 0,
    decreases a.len(),
{
    if a.len() > 0 {
        assert(a.contains(a.last()));
        assert forall|b: u8| a.drop_last().contains(b) implies a.contains(b) by {
            let i = a.drop_last().index_of(b);
            assert(a[i] == b);
        }
        lemma_feeds_none(a.drop_last());
    }
}

/// A line ends with its line feed, and the last one counts without.
pub proof fn law_lines_are_counted(line: Seq<u8>, rest: Seq<u8>)
    requires
        !line.contains(0x0a),
    ensures
        line_count(line + seq![0x0au8] + rest) == 1 + line_count(rest),
        line_count(line) == if line.len() > 0 {
            1nat
        } else {
            0
        },
{
    let feed = seq![0x0au8];
    lemma_feeds_none(line);
    assert(line_feeds(feed.drop_last()) == 0);
    assert(feed.last() == 0x0a);
    assert(line_feeds(feed) == 1);
    lemma_feeds_join(line, feed);
    lemma_feeds_join(line + feed, rest);
    if rest.len() > 0 {
        assert((line + feed + rest).last() == rest.last());
    } else {
        assert((line + feed + rest).last() == 0x0a);
    }
    if line.len() > 0 {
        assert(line.contains(line.last()));
    }
}

proof fn lemma_head_stops(data: Seq<u8>, i: int, feeds: int)
    requires
        0 <= i <= data.len(),
        i <= 8192,
        feeds == line_feeds(data.take(i)),
        feeds <= 100,
        i > 0 ==> line_feeds(data.take(i - 1)) < 100,
    ensures
        ({
            let e = head_end(data, i, feeds);
            &&& i <= e <= data.len()
            &&& e <= 8192
            &&& e > 0 ==> line_feeds(data.take(e - 1)) < 100
            &&& e == data.len() || e == 8192 || line_feeds(data.take(e)) == 100
        }),
    decreases data.len() - i,
{
    if i < data.len() && feeds < 100 && i < 8192 {
        let t = data.take(i + 1);
        assert(t.drop_last() =~= data.take(i));
        assert(t.last() == data[i]);
        lemma_head_stops(
            data,
            i + 1,
            if data[i] == 0x0a {
                feeds + 1
            } else {
                feeds
            },
        );
    }
}

/// The head is as long as it may be: it ends with the output, or with its byte
/// 8192, or with its line 100, and no later.
pub proof fn law_head_is_as_long_as_it_may_be(data: Seq<u8>)
    ensures
        ({
            let h = head_of(data);
            &&& h == data.take(h.len() as int)
            &&& h.len() <= data.len()
            &&& h.len() <= 8192
            &&& h.len() > 0 ==> line_feeds(h.drop_last()) < 100
            &&& h == data || h.len() == 8192 || line_feeds(h) == 100
        }),
{
    assert(data.take(0).len() == 0);
    lemma_head_stops(data, 0, 0);
    let e = head_end(data, 0, 0);
    let h = head_of(data);
    assert(h =~= data.take(h.len() as int));
    if e > 0 {
        assert(h.drop_last() =~= data.take(e - 1));
    }
    if e == data.len() {
        assert(h =~= data);
    }
}

proof fn lemma_tail_stops(w: Seq<u8>, i: int, seen: int, max: int)
    requires
        0 <= i <= w.len(),
        seen == line_feeds(w.skip(i)),
        0 <= seen <= max,
    ensures
        ({
            let c = tail_cut(w, i, seen, max);
            &&& 0 <= c <= i
            &&& c == 0 || w[c - 1] == 0x0a && line_feeds(w.skip(c)) == max
        }),
    decreases i,
{
    if i > 0 {
        lemma_feeds_front(w, i - 1);
        if w[i - 1] == 0x0a {
            if seen + 1 <= max {
                lemma_tail_stops(w, i - 1, seen + 1, max);
            }
        } else {
            lemma_tail_stops(w, i - 1, seen, max);
        }
    }
}

/// The tail is as long as it may be: it begins with the output, or 32768 bytes
/// before the end, or at the start of a line with `max` line feeds behind it.
pub proof fn law_tail_is_as_long_as_it_may_be(data: Seq<u8>, max: int)
    requires
        0 <= max,
    ensures
        ({
            let t = tail_of(data, max);
            &&& t.len() <= data.len()
            &&& t == data.skip(data.len() - t.len())
            &&& t.len() <= 32768
            &&& line_feeds(t) <= max
            &&& t == data || t.len() == 32768 || data[data.len() - t.len() - 1] == 0x0a
                && line_feeds(t) == max
        }),
{
    let w = window_of(data);
    assert(w.skip(w.len() as int).len() == 0);
    lemma_tail_cut(w, w.len() as int, 0, max);
    lemma_tail_stops(w, w.len() as int, 0, max);
    let t = tail_of(data, max);
    let c = tail_cut(w, w.len() as int, 0, max);
    assert(t =~= data.skip(data.len() - t.len()));
    if c == 0 && data.len() <= 32768 {
        assert(t =~= data);
    }
    if c > 0 {
        assert(w[c - 1] == data[data.len() - t.len() - 1]);
    }
}

/// A finished job whose output is under 8192 bytes and has at most 100 lines is
/// shown with all of it at the first look.
pub proof fn law_short_output_is_shown_whole(job: BashJob, elapsed: Seq<char>, data: Seq<u8>)
    requires
        !job.running,
        !job.observed_once,
        0 < data.len() < 8192,
        line_count(data) <= 100,
    ensures
        observation_text(job, elapsed, data, Some(data)) == encode_utf8(status_text(job, elapsed))
            + (encode_utf8("<output>\n"@) + (if data.last() == 0x0a {
            data
        } else {
            data + encode_utf8("\n"@)
        }) + encode_utf8("</output>\n"@)) + encode_utf8(""@),
{
    law_head_is_as_long_as_it_may_be(data);
    let h = head_of(data);
    if h != data {
        let rest = data.skip(h.len() as int);
        assert(data =~= h + rest);
        lemma_feeds_join(h, rest);
        lemma_line_feeds(rest);
        assert(rest.last() == data.last());
        if data.last() == 0x0a {
            assert(rest.drop_last().len() >= 0);
        }
    }
}

/// What is looked at again shows its end: 4 lines while the job runs, 20 when it
/// is done.
pub proof fn law_later_looks_show_the_end(job: BashJob, measured: Seq<u8>, again: Seq<u8>)
    requires
        job.observed_once,
        measured.len() > 0,
    ensures
        job.running ==> output_text(job, measured, Some(again)) == encode_utf8(
            output_path_text(job.path@, measured),
        ) + part_text("tail"@, 4, job.path@, tail_of(again, 4)),
        !job.running ==> output_text(job, measured, Some(again)) == encode_utf8(
            output_path_text(job.path@, measured),
        ) + part_text("tail"@, 20, job.path@, tail_of(again, 20)),
{
}

/// The first look at a job that still runs shows its start.
pub proof fn law_first_look_shows_the_start(job: BashJob, measured: Seq<u8>, again: Seq<u8>)
    requires
        job.running,
        !job.observed_once,
        measured.len() > 0,
    ensures
        output_text(job, measured, Some(again)) == encode_utf8(
            output_path_text(job.path@, measured),
        ) + part_text("head"@, 100, job.path@, head_of(again)),
{
}

} // verus!
