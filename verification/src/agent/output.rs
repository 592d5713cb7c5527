//! What of a reply is shown.

use crate::bytes;
use vstd::prelude::*;
use vstd::slice::*;
use vstd::string::*;
use vstd::utf8::*;

verus! {

/// `needle` occurs somewhere in `haystack`.
pub open spec fn contains(haystack: Seq<u8>, needle: Seq<u8>) -> bool {
    exists|i: int| bytes::occurs_at(haystack, needle, i)
}

/// Whether `needle` occurs somewhere in `haystack`.
pub fn contains_bytes(haystack: &[u8], needle: &[u8]) -> (r: bool)
    requires
        needle@.len() > 0,
    ensures
        r == contains(haystack@, needle@),
{
    proof {
        bytes::lemma_first_at(haystack@, needle@, 0);
    }
    bytes::find(haystack, needle, 0).is_some()
}

/// The tag that opens a tool block.
pub open spec fn opener() -> Seq<u8> {
    encode_utf8("<｜DSML｜tool_calls>"@)
}

/// The opening tag as some models write it, without the first bar.
pub open spec fn bare_opener() -> Seq<u8> {
    encode_utf8("<DSML｜tool_calls>"@)
}

/// A tool block opens in `raw`.
pub open spec fn opens_block(raw: Seq<u8>) -> bool {
    contains(raw, opener()) || contains(raw, bare_opener())
}

pub open spec fn think_open() -> Seq<u8> {
    encode_utf8("<think>"@)
}

pub open spec fn think_close() -> Seq<u8> {
    encode_utf8("</think>"@)
}

/// The bytes that are dropped behind the end of the thinking.
pub open spec fn is_blank(b: u8) -> bool {
    b == 0x20 || b == 0x09 || b == 0x0d || b == 0x0a
}

/// What was shown so far.
#[verifier::ext_equal]
pub struct Shown {
    pub out: Seq<u8>,
    /// The thinking has just ended: blanks are dropped.
    pub gap: bool,
    /// A byte of the reply was shown.
    pub visible: bool,
    /// The next byte begins a line.
    pub newline: bool,
}

impl Shown {
    pub open spec fn start() -> Shown {
        Shown { out: seq![], gap: false, visible: false, newline: true }
    }

    /// Behind the tag that ends the thinking: an empty line follows.
    pub open spec fn ended_thinking(self) -> Shown {
        Shown {
            out: (if self.newline {
                self.out
            } else {
                self.out.push(0x0a)
            }).push(0x0a),
            gap: true,
            newline: true,
            ..self
        }
    }

    /// Behind the byte `b` of the reply.
    pub open spec fn byte(self, b: u8) -> Shown {
        if self.gap && is_blank(b) {
            self
        } else {
            Shown { out: self.out.push(b), gap: false, visible: true, newline: b == 0x0a }
        }
    }

    /// The end of the reply: an empty line, if anything was visible.
    pub open spec fn closed(self) -> Seq<u8> {
        if !self.visible {
            self.out
        } else if self.newline {
            self.out.push(0x0a)
        } else {
            self.out.push(0x0a).push(0x0a)
        }
    }
}

/// What is shown of `raw` from `i` on, after `s`. The tags around the thinking
/// are not shown.
pub open spec fn shown_from(raw: Seq<u8>, i: int, s: Shown) -> Shown
    decreases raw.len() - i,
    when 0 <= i
    via shown_from_decreases
{
    if i >= raw.len() {
        s
    } else if bytes::occurs_at(raw, think_open(), i) {
        shown_from(raw, i + think_open().len(), Shown { gap: false, ..s })
    } else if bytes::occurs_at(raw, think_close(), i) {
        shown_from(raw, i + think_close().len(), s.ended_thinking())
    } else {
        shown_from(raw, i + 1, s.byte(raw[i]))
    }
}

#[via_fn]
proof fn shown_from_decreases(raw: Seq<u8>, i: int, s: Shown) {
    lemma_tags();
}

proof fn lemma_tags()
    ensures
        think_open().len() > 0,
        think_close().len() > 0,
        opener().len() > 0,
        bare_opener().len() > 0,
{
    reveal_strlit("<think>");
    reveal_strlit("</think>");
    reveal_strlit("<｜DSML｜tool_calls>");
    reveal_strlit("<DSML｜tool_calls>");
    lemma_encoded("<think>"@);
    lemma_encoded("</think>"@);
    lemma_encoded("<｜DSML｜tool_calls>"@);
    lemma_encoded("<DSML｜tool_calls>"@);
}

proof fn lemma_encoded(s: Seq<char>)
    requires
        s.len() > 0,
    ensures
        encode_utf8(s).len() > 0,
{
    encode_utf8_decode_utf8(s);
    if encode_utf8(s).len() == 0 {
        assert(encode_utf8(s) =~= encode_utf8(seq![]));
        encode_utf8_decode_utf8(seq![]);
    }
}

/// What is shown of the whole reply.
pub open spec fn projected(raw: Seq<u8>) -> Seq<u8> {
    shown_from(raw, 0, Shown::start()).closed()
}

/// The first `n` chunks, one behind the other.
pub open spec fn concatenated(chunks: Seq<Vec<u8>>, n: nat) -> Seq<u8>
    decreases n,
{
    if n == 0 || n > chunks.len() {
        seq![]
    } else {
        concatenated(chunks, (n - 1) as nat) + chunks[n - 1]@
    }
}

/// What is answered to a reply with a tool block.
pub const TOOL_UNSUPPORTED_ERROR: &'static str =
    "tool execution is not implemented in ds4-agent-rs; use ./ds4-agent";

/// What is shown of a reply that came as `raw`. A reply with a tool block is
/// refused.
pub fn project_bytes(raw: &[u8]) -> (r: Result<Vec<u8>, &'static str>)
    ensures
        match r {
            Ok(out) => !opens_block(raw@) && out@ == projected(raw@),
            Err(e) => opens_block(raw@) && e@ == TOOL_UNSUPPORTED_ERROR@,
        },
{
    proof {
        lemma_tags();
    }
    if contains_bytes(raw, "<｜DSML｜tool_calls>".as_bytes()) || contains_bytes(
        raw,
        "<DSML｜tool_calls>".as_bytes(),
    ) {
        return Err(TOOL_UNSUPPORTED_ERROR);
    }
    let open = "<think>".as_bytes();
    let close = "</think>".as_bytes();
    let n: usize = raw.len();
    let mut out: Vec<u8> = Vec::new();
    let mut gap = false;
    let mut visible = false;
    let mut newline = true;
    let mut i: usize = 0;
    while i < n
        invariant
            n == raw@.len(),
            i <= n,
            open@ == think_open(),
            close@ == think_close(),
            open@.len() > 0,
            close@.len() > 0,
            shown_from(raw@, 0, Shown::start()) == shown_from(
                raw@,
                i as int,
                (Shown { out: out@, gap, visible, newline }),
            ),
        decreases n - i,
    {
        if bytes::matches_at(raw, open, i) {
            gap = false;
            i += open.len();
            continue;
        }
        if bytes::matches_at(raw, close, i) {
            if !newline {
                out.push(0x0a);
            }
            out.push(0x0a);
            newline = true;
            gap = true;
            i += close.len();
            continue;
        }
        let b: u8 = raw[i];
        if gap && (b == 0x20 || b == 0x09 || b == 0x0d || b == 0x0a) {
            i += 1;
            continue;
        }
        gap = false;
        out.push(b);
        visible = true;
        newline = b == 0x0a;
        i += 1;
    }
    if visible {
        if !newline {
            out.push(0x0a);
        }
        out.push(0x0a);
    }
    Ok(out)
}

/// What is shown of a reply that came in `chunks`. A reply with a tool block
/// is refused; where the chunks are cut does not matter.
pub fn project_output(chunks: &[Vec<u8>]) -> (r: Result<Vec<u8>, &'static str>)
    ensures
        ({
            let raw = concatenated(chunks@, chunks@.len());
            match r {
                Ok(out) => !opens_block(raw) && out@ == projected(raw),
                Err(e) => opens_block(raw) && e@ == TOOL_UNSUPPORTED_ERROR@,
            }
        }),
{
    let mut raw: Vec<u8> = Vec::new();
    let mut k: usize = 0;
    while k < chunks.len()
        invariant
            k <= chunks@.len(),
            raw@ == concatenated(chunks@, k as nat),
        decreases chunks@.len() - k,
    {
        raw.extend_from_slice(chunks[k].as_slice());
        k += 1;
    }
    project_bytes(raw.as_slice())
}

proof fn lemma_shown_lines(raw: Seq<u8>, i: int, s: Shown)
    requires
        0 <= i,
        s.newline == (s.out.len() == 0 || s.out.last() == 0x0a),
        !s.visible ==> s.newline,
    ensures
        ({
            let e = shown_from(raw, i, s);
            &&& e.newline == (e.out.len() == 0 || e.out.last() == 0x0a)
            &&& !e.visible ==> e.newline
        }),
    decreases raw.len() - i,
{
    lemma_tags();
    if i < raw.len() {
        if bytes::occurs_at(raw, think_open(), i) {
            lemma_shown_lines(raw, i + think_open().len(), Shown { gap: false, ..s });
        } else if bytes::occurs_at(raw, think_close(), i) {
            lemma_shown_lines(raw, i + think_close().len(), s.ended_thinking());
        } else {
            lemma_shown_lines(raw, i + 1, s.byte(raw[i]));
        }
    }
}

/// What is shown of a reply is empty or ends with the end of a line.
pub proof fn law_shown_lines_end(raw: Seq<u8>)
    ensures
        projected(raw).len() == 0 || projected(raw).last() == 0x0a,
{
    lemma_shown_lines(raw, 0, Shown::start());
}

/// The length of the longer opening tag.
pub open spec fn longest_opener() -> int {
    if opener().len() > bare_opener().len() {
        opener().len() as int
    } else {
        bare_opener().len() as int
    }
}

/// Where the search for a tag begins when `appended` bytes are new: far enough
/// back for a tag that the new bytes complete.
pub open spec fn suffix_start(len: int, appended: int) -> int {
    if len > appended + longest_opener() - 1 {
        len - (appended + longest_opener() - 1)
    } else {
        0
    }
}

/// Whether a tool block opens in the last `appended` bytes of `raw`, or in
/// those and some before them.
pub fn tool_marker_in_new_suffix(raw: &[u8], appended: usize) -> (r: bool)
    ensures
        r == opens_block(
            raw@.subrange(suffix_start(raw@.len() as int, appended as int), raw@.len() as int),
        ),
{
    proof {
        lemma_tags();
    }
    let full = "<｜DSML｜tool_calls>".as_bytes();
    let bare = "<DSML｜tool_calls>".as_bytes();
    let longest: usize = if full.len() > bare.len() {
        full.len()
    } else {
        bare.len()
    };
    let n: usize = raw.len();
    let start: usize = if n > appended && n - appended > longest - 1 {
        n - appended - (longest - 1)
    } else {
        0
    };
    let tail = slice_subrange(raw, start, n);
    contains_bytes(tail, full) || contains_bytes(tail, bare)
}

proof fn lemma_contains_tail(raw: Seq<u8>, start: int, tag: Seq<u8>)
    requires
        0 <= start <= raw.len(),
        tag.len() > 0,
        forall|i: int| 0 <= i < start ==> !bytes::occurs_at(raw, tag, i),
    ensures
        contains(raw, tag) == contains(raw.subrange(start, raw.len() as int), tag),
{
    let tail = raw.subrange(start, raw.len() as int);
    if contains(raw, tag) {
        let i = choose|i: int| bytes::occurs_at(raw, tag, i);
        assert(tail.subrange(i - start, i - start + tag.len()) =~= raw.subrange(i, i + tag.len()));
        assert(bytes::occurs_at(tail, tag, i - start));
    }
    if contains(tail, tag) {
        let i = choose|i: int| bytes::occurs_at(tail, tag, i);
        assert(tail.subrange(i, i + tag.len()) =~= raw.subrange(
            i + start,
            i + start + tag.len(),
        ));
        assert(bytes::occurs_at(raw, tag, i + start));
    }
}

proof fn lemma_none_before(raw: Seq<u8>, appended: int, tag: Seq<u8>)
    requires
        0 <= appended <= raw.len(),
        0 < tag.len() <= longest_opener(),
        !contains(raw.subrange(0, raw.len() - appended), tag),
    ensures
        forall|i: int|
            0 <= i < suffix_start(raw.len() as int, appended) ==> !bytes::occurs_at(raw, tag, i),
{
    let before = raw.subrange(0, raw.len() - appended);
    assert forall|i: int| 0 <= i < suffix_start(raw.len() as int, appended) implies
        !bytes::occurs_at(raw, tag, i) by {
        if bytes::occurs_at(raw, tag, i) {
            assert(before.subrange(i, i + tag.len()) =~= raw.subrange(i, i + tag.len()));
            assert(bytes::occurs_at(before, tag, i));
        }
    }
}

/// While a reply grows, it is enough to look at its new end: where no tool
/// block opened before the last `appended` bytes came, one opens in the whole
/// exactly if one opens in the part that is searched.
pub proof fn law_new_suffix_suffices(raw: Seq<u8>, appended: int)
    requires
        0 <= appended <= raw.len(),
        !opens_block(raw.subrange(0, raw.len() - appended)),
    ensures
        opens_block(raw) == opens_block(
            raw.subrange(suffix_start(raw.len() as int, appended), raw.len() as int),
        ),
{
    lemma_tags();
    let start = suffix_start(raw.len() as int, appended);
    lemma_none_before(raw, appended, opener());
    lemma_none_before(raw, appended, bare_opener());
    lemma_contains_tail(raw, start, opener());
    lemma_contains_tail(raw, start, bare_opener());
}

proof fn lemma_plain(raw: Seq<u8>, i: int, j: int, s: Shown)
    requires
        0 <= i <= j <= raw.len(),
        forall|k: int| i <= k < j ==> #[trigger] raw[k] != 0x3c,
        i < j ==> !s.gap || !is_blank(raw[i]),
    ensures
        i < j ==> shown_from(raw, i, s) == shown_from(
            raw,
            j,
            Shown {
                out: s.out + raw.subrange(i, j),
                gap: false,
                visible: true,
                newline: raw[j - 1] == 0x0a,
            },
        ),
    decreases j - i,
{
    crate::token_printer::lemma_tags();
    if i < j {
        assert(raw.subrange(i, i + 7)[0] == raw[i] || i + 7 > raw.len());
        assert(raw.subrange(i, i + 8)[0] == raw[i] || i + 8 > raw.len());
        assert(!bytes::occurs_at(raw, think_open(), i));
        assert(!bytes::occurs_at(raw, think_close(), i));
        let n = s.byte(raw[i]);
        assert(shown_from(raw, i, s) == shown_from(raw, i + 1, n));
        if i + 1 < j {
            lemma_plain(raw, i + 1, j, n);
            assert(n.out + raw.subrange(i + 1, j) =~= s.out + raw.subrange(i, j));
        } else {
            assert(n.out =~= s.out + raw.subrange(i, j));
        }
    }
}

proof fn lemma_gap(raw: Seq<u8>, i: int, j: int, s: Shown)
    requires
        0 <= i <= j <= raw.len(),
        s.gap,
        forall|k: int|
            i <= k < j ==> #[trigger] raw[k] == 0x20 || raw[k] == 0x09 || raw[k] == 0x0d || raw[k]
                == 0x0a,
    ensures
        shown_from(raw, i, s) == shown_from(raw, j, s),
    decreases j - i,
{
    crate::token_printer::lemma_tags();
    if i < j {
        assert(raw.subrange(i, i + 7)[0] == raw[i] || i + 7 > raw.len());
        assert(raw.subrange(i, i + 8)[0] == raw[i] || i + 8 > raw.len());
        lemma_gap(raw, i + 1, j, s);
    }
}

/// A reply without tags is shown as it came, and an empty line behind it.
pub proof fn law_plain_reply_is_shown(raw: Seq<u8>)
    requires
        raw.len() > 0,
        !raw.contains(0x3c),
    ensures
        projected(raw) == raw + (if raw.last() == 0x0a {
            seq![0x0au8]
        } else {
            seq![0x0au8, 0x0a]
        }),
{
    assert forall|k: int| 0 <= k < raw.len() implies #[trigger] raw[k] != 0x3c by {
        assert(raw.contains(raw[k]));
    }
    lemma_plain(raw, 0, raw.len() as int, Shown::start());
    assert(seq![] + raw.subrange(0, raw.len() as int) =~= raw);
}

/// Nothing is shown of an empty reply.
pub proof fn law_empty_reply()
    ensures
        projected(seq![]).len() == 0,
{
}

/// Of a reply that thinks first, the thinking is shown without its tags, then an
/// empty line, then the answer from its first byte that is not blank, and an
/// empty line behind it.
pub proof fn law_thinking_is_set_apart(
    tagged: bool,
    thought: Seq<u8>,
    blanks: Seq<u8>,
    answer: Seq<u8>,
)
    requires
        !thought.contains(0x3c),
        !answer.contains(0x3c),
        forall|k: int|
            0 <= k < blanks.len() ==> #[trigger] blanks[k] == 0x20 || blanks[k] == 0x09 || blanks[k]
                == 0x0d || blanks[k] == 0x0a,
        answer.len() > 0,
        answer[0] != 0x20 && answer[0] != 0x09 && answer[0] != 0x0d && answer[0] != 0x0a,
    ensures
        projected(
            (if tagged {
                encode_utf8("<think>"@)
            } else {
                seq![]
            }) + thought + encode_utf8("</think>"@) + blanks + answer,
        ) == thought + (if thought.len() == 0 || thought.last() == 0x0a {
            seq![0x0au8]
        } else {
            seq![0x0au8, 0x0a]
        }) + answer + (if answer.last() == 0x0a {
            seq![0x0au8]
        } else {
            seq![0x0au8, 0x0a]
        }),
{
    crate::token_printer::lemma_tags();
    let tag = if tagged {
        encode_utf8("<think>"@)
    } else {
        seq![]
    };
    let close = encode_utf8("</think>"@);
    let raw = tag + thought + close + blanks + answer;
    let a = tag.len() as int;
    let b = a + thought.len();
    let c = b + 8;
    let d = c + blanks.len();
    let e = raw.len() as int;
    assert(forall|k: int| 0 <= k < thought.len() ==> raw[a + k] == #[trigger] thought[k]);
    assert(raw.subrange(a, b) =~= thought);
    assert(raw.subrange(b, c) =~= close);
    assert(raw.subrange(d, e) =~= answer);
    assert forall|k: int| a <= k < b implies #[trigger] raw[k] != 0x3c by {
        assert(raw[k] == thought[k - a]);
        assert(thought.contains(thought[k - a]));
    }
    assert forall|k: int| d <= k < e implies #[trigger] raw[k] != 0x3c by {
        assert(raw[k] == answer[k - d]);
        assert(answer.contains(answer[k - d]));
    }
    assert forall|k: int| c <= k < d implies #[trigger] raw[k] == 0x20 || raw[k] == 0x09 || raw[k]
        == 0x0d || raw[k] == 0x0a by {
        assert(raw[k] == blanks[k - c]);
    }
    let s0 = Shown::start();
    if tagged {
        assert(raw.subrange(0, 7) =~= think_open());
        assert(shown_from(raw, 0, s0) == shown_from(raw, a, s0));
    }
    let s1 = if thought.len() > 0 {
        Shown { out: thought, gap: false, visible: true, newline: thought.last() == 0x0a }
    } else {
        s0
    };
    if thought.len() > 0 {
        lemma_plain(raw, a, b, s0);
        assert(s0.out + raw.subrange(a, b) =~= thought);
        assert(raw[b - 1] == thought.last());
    } else {
        assert(thought =~= seq![]);
    }
    assert(shown_from(raw, 0, s0) == shown_from(raw, b, s1));
    assert(raw.subrange(b, b + 7)[1] == raw[b + 1]);
    assert(raw[b + 1] == close[1]);
    assert(!bytes::occurs_at(raw, think_open(), b));
    assert(bytes::occurs_at(raw, think_close(), b));
    let s2 = s1.ended_thinking();
    assert(shown_from(raw, b, s1) == shown_from(raw, c, s2));
    lemma_gap(raw, c, d, s2);
    assert(raw[d] == answer[0]);
    lemma_plain(raw, d, e, s2);
    assert(raw[e - 1] == answer.last());
}

/// A tool block opens exactly where one of the two tags stands somewhere in the
/// reply.
pub proof fn law_where_a_block_opens(raw: Seq<u8>)
    ensures
        opens_block(raw) <==> exists|front: Seq<u8>, rest: Seq<u8>|
            raw == #[trigger] (front + encode_utf8("<｜DSML｜tool_calls>"@) + rest) || raw == (front
                + encode_utf8("<DSML｜tool_calls>"@) + rest),
{
    let a = encode_utf8("<｜DSML｜tool_calls>"@);
    let b = encode_utf8("<DSML｜tool_calls>"@);
    if opens_block(raw) {
        let tag = if contains(raw, a) {
            a
        } else {
            b
        };
        let i = choose|i: int| bytes::occurs_at(raw, tag, i);
        let front = raw.take(i);
        let rest = raw.skip(i + tag.len());
        assert(raw =~= front + raw.subrange(i, i + tag.len()) + rest);
        let seen = front + a + rest;
        assert(raw == seen || raw == front + b + rest);
    }
    if exists|front: Seq<u8>, rest: Seq<u8>|
        raw == #[trigger] (front + a + rest) || raw == (front + b + rest) {
        let (front, rest) = choose|front: Seq<u8>, rest: Seq<u8>|
            raw == #[trigger] (front + a + rest) || raw == (front + b + rest);
        let i = front.len() as int;
        if raw == front + a + rest {
            assert(raw.subrange(i, i + a.len()) =~= a);
            assert(bytes::occurs_at(raw, a, i));
        } else {
            assert(raw.subrange(i, i + b.len()) =~= b);
            assert(bytes::occurs_at(raw, b, i));
        }
    }
}

} // verus!
