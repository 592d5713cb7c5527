//! The lines of a file.

use vstd::prelude::*;

verus! {

/// Where a line starts, where its text ends, and where it ends with its line
/// break.
#[derive(Clone, Copy, Debug, PartialEq, Eq, Structural)]
pub struct LineSpan {
    pub start: usize,
    pub content_end: usize,
    pub end: usize,
}

pub open spec fn is_break(b: u8) -> bool {
    b == 0x0a || b == 0x0d
}

/// The first place at or after `pos` that breaks a line.
pub open spec fn content_end(data: Seq<u8>, pos: int) -> int
    decreases data.len() - pos,
{
    if 0 <= pos < data.len() && !is_break(data[pos]) {
        content_end(data, pos + 1)
    } else {
        pos
    }
}

/// The place behind the break at `at`; a carriage return and the line feed
/// behind it are one break.
pub open spec fn after_break(data: Seq<u8>, at: int) -> int {
    if at >= data.len() {
        at
    } else if data[at] == 0x0d && at + 1 < data.len() && data[at + 1] == 0x0a {
        at + 2
    } else {
        at + 1
    }
}

/// The line that starts at `pos`.
pub open spec fn span_at(data: Seq<u8>, pos: int) -> LineSpan {
    let end = content_end(data, pos);
    LineSpan {
        start: pos as usize,
        content_end: end as usize,
        end: after_break(data, end) as usize,
    }
}

proof fn lemma_content_end(data: Seq<u8>, pos: int)
    requires
        0 <= pos <= data.len(),
    ensures
        pos <= content_end(data, pos) <= data.len(),
        content_end(data, pos) < data.len() ==> is_break(data[content_end(data, pos)]),
        forall|i: int| pos <= i < content_end(data, pos) ==> !is_break(#[trigger] data[i]),
        pos < data.len() ==> pos < after_break(data, content_end(data, pos)) <= data.len(),
    decreases data.len() - pos,
{
    if pos < data.len() && !is_break(data[pos]) {
        lemma_content_end(data, pos + 1);
    }
}

/// The lines from `pos` on.
pub open spec fn spans_from(data: Seq<u8>, pos: int) -> Seq<LineSpan>
    decreases data.len() - pos,
    when 0 <= pos <= data.len()
    via spans_from_decreases
{
    if pos >= data.len() {
        seq![]
    } else {
        seq![span_at(data, pos)] + spans_from(data, after_break(data, content_end(data, pos)))
    }
}

#[via_fn]
proof fn spans_from_decreases(data: Seq<u8>, pos: int) {
    lemma_content_end(data, pos);
}

/// The lines of `data`.
pub open spec fn spans_of(data: Seq<u8>) -> Seq<LineSpan> {
    spans_from(data, 0)
}

/// The lines `s` lie one behind the other from `from` to `to`, and none but
/// the last is without a break.
pub open spec fn tile(s: Seq<LineSpan>, data: Seq<u8>, from: int, to: int) -> bool {
    &&& s.len() == 0 ==> from == to
    &&& s.len() > 0 ==> s[0].start == from && s.last().end == to
    &&& forall|i: int|
        0 <= i < s.len() ==> {
            &&& from <= (#[trigger] s[i]).start <= s[i].content_end <= s[i].end <= to
            &&& s[i].start < s[i].end
            &&& forall|k: int|
                s[i].start <= k < s[i].content_end ==> !is_break(#[trigger] data[k])
            &&& s[i].content_end < to ==> is_break(data[s[i].content_end as int])
        }
    &&& forall|i: int, j: int|
        0 <= i && j == i + 1 && j < s.len() ==> (#[trigger] s[i]).end == (#[trigger] s[j]).start
}

proof fn lemma_spans_tile(data: Seq<u8>, pos: int)
    requires
        0 <= pos <= data.len() <= usize::MAX,
    ensures
        tile(spans_from(data, pos), data, pos, data.len() as int),
        spans_from(data, pos).len() <= data.len() - pos,
        pos < data.len() ==> spans_from(data, pos).len() > 0,
    decreases data.len() - pos,
{
    if pos < data.len() {
        lemma_content_end(data, pos);
        let next = after_break(data, content_end(data, pos));
        lemma_spans_tile(data, next);
        let rest = spans_from(data, next);
        let all = spans_from(data, pos);
        assert(all =~= seq![span_at(data, pos)] + rest);
        assert forall|i: int| 0 <= i < all.len() implies {
            &&& pos <= (#[trigger] all[i]).start <= all[i].content_end <= all[i].end <= data.len()
            &&& all[i].start < all[i].end
            &&& forall|k: int|
                all[i].start <= k < all[i].content_end ==> !is_break(#[trigger] data[k])
            &&& all[i].content_end < data.len() ==> is_break(data[all[i].content_end as int])
        } by {
            if i > 0 {
                assert(all[i] == rest[i - 1]);
            }
        }
        assert forall|i: int, j: int| 0 <= i && j == i + 1 && j < all.len() implies (
        #[trigger] all[i]).end == (#[trigger] all[j]).start by {
            assert(all[j] == rest[i]);
            if i > 0 {
                assert(all[i] == rest[i - 1]);
            }
        }
        if rest.len() > 0 {
            assert(all.last() == rest.last());
            assert(all[1] == rest[0]);
        } else {
            assert(all.last() == span_at(data, pos));
        }
    }
}

/// The lines of `data` cover it without gaps or overlaps: each begins where
/// the one before ends, and holds its break, if it has one, at its end.
pub proof fn law_lines_cover(data: Seq<u8>)
    requires
        data.len() <= usize::MAX,
    ensures
        tile(spans_of(data), data, 0, data.len() as int),
        spans_of(data).len() <= data.len(),
        data.len() > 0 ==> spans_of(data).len() > 0,
{
    lemma_spans_tile(data, 0);
}

proof fn lemma_spans_step(data: Seq<u8>, done: Seq<LineSpan>, pos: int)
    requires
        0 <= pos < data.len(),
    ensures
        done + spans_from(data, pos) == done.push(span_at(data, pos)) + spans_from(
            data,
            after_break(data, content_end(data, pos)),
        ),
{
    lemma_content_end(data, pos);
    assert(done + spans_from(data, pos) =~= done.push(span_at(data, pos)) + spans_from(
        data,
        after_break(data, content_end(data, pos)),
    ));
}

/// The lines of `data`.
pub fn split_lines(data: &[u8]) -> (r: Vec<LineSpan>)
    ensures
        r@ == spans_of(data@),
        tile(r@, data@, 0, data@.len() as int),
        r@.len() <= data@.len(),
{
    let n: usize = data.len();
    let mut spans: Vec<LineSpan> = Vec::new();
    let mut pos: usize = 0;
    assert(spans@ + spans_from(data@, 0) =~= spans_of(data@));
    while pos < n
        invariant
            n == data@.len(),
            pos <= n,
            spans@ + spans_from(data@, pos as int) == spans_of(data@),
        decreases n - pos,
    {
        let start: usize = pos;
        proof {
            lemma_content_end(data@, start as int);
        }
        while pos < n && data[pos] != 0x0a && data[pos] != 0x0d
            invariant
                n == data@.len(),
                start <= pos <= n,
                content_end(data@, start as int) == content_end(data@, pos as int),
            decreases n - pos,
        {
            pos += 1;
        }
        let stop: usize = pos;
        if pos < n {
            if data[pos] == 0x0d && n - pos > 1 && data[pos + 1] == 0x0a {
                pos += 2;
            } else {
                pos += 1;
            }
        }
        proof {
            lemma_spans_step(data@, spans@, start as int);
        }
        spans.push(LineSpan { start, content_end: stop, end: pos });
    }
    proof {
        law_lines_cover(data@);
        assert(spans@ + spans_from(data@, n as int) =~= spans@);
    }
    spans
}

/// A line ends at the first line feed or carriage return, which is no part of
/// its content; a carriage return and the line feed behind it are one break, and
/// only the last line may have none.
pub proof fn law_where_lines_end(data: Seq<u8>, i: int)
    requires
        data.len() <= usize::MAX,
        0 <= i < spans_of(data).len(),
    ensures
        ({
            let s = spans_of(data)[i];
            &&& s.start <= s.content_end <= s.end <= data.len()
            &&& forall|k: int|
                s.start <= k < s.content_end ==> #[trigger] data[k] != 0x0a && data[k] != 0x0d
            &&& if s.content_end == data.len() {
                s.end == s.content_end && i == spans_of(data).len() - 1
            } else if data[s.content_end as int] == 0x0d && s.content_end + 1 < data.len()
                && data[s.content_end + 1] == 0x0a {
                s.end == s.content_end + 2
            } else {
                s.end == s.content_end + 1 && (data[s.content_end as int] == 0x0a
                    || data[s.content_end as int] == 0x0d)
            }
            &&& s.start == if i == 0 {
                0
            } else {
                spans_of(data)[i - 1].end as int
            }
        }),
{
    law_lines_cover(data);
    lemma_is_span(data, 0, i);
    let s = spans_of(data)[i];
    lemma_content_end(data, s.start as int);
    if i > 0 {
        assert(spans_of(data)[i - 1].end == spans_of(data)[i].start);
    }
    if s.content_end == data.len() && i < spans_of(data).len() - 1 {
        assert(spans_of(data)[i].end == spans_of(data)[i + 1].start);
    }
}

proof fn lemma_is_span(data: Seq<u8>, pos: int, i: int)
    requires
        0 <= pos <= data.len() <= usize::MAX,
        0 <= i < spans_from(data, pos).len(),
    ensures
        spans_from(data, pos)[i] == span_at(data, spans_from(data, pos)[i].start as int),
    decreases data.len() - pos,
{
    if pos < data.len() {
        lemma_content_end(data, pos);
        let next = after_break(data, content_end(data, pos));
        if i > 0 {
            lemma_is_span(data, next, i - 1);
            assert(spans_from(data, pos)[i] == spans_from(data, next)[i - 1]);
        }
    }
}

} // verus!
