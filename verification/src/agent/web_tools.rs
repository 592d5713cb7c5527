//! Tool calls in a model's reply.
//!
//! A reply may end in a block of calls, written in tags of the form
//! `<｜DSML｜…>`. The block is found in the raw bytes; its text, which must be
//! UTF-8, is read as characters.

use crate::bytes;
use crate::text;
use crate::text::{
    chars_of, find_text, has_at, is_ascii_white, push_u64, str_eq, substring, utf8_str,
};
use vstd::prelude::*;
use vstd::slice::{slice_subrange, slice_to_vec};
use vstd::string::*;
use vstd::utf8::*;

verus! {

pub open spec fn dsml_open() -> Seq<char> {
    "<｜DSML｜tool_calls>"@
}

/// The opening tag as some models write it, without the first bar.
pub open spec fn dsml_open_missing_bar() -> Seq<char> {
    "<DSML｜tool_calls>"@
}

pub open spec fn unsupported_error() -> Seq<char> {
    "tool execution is not implemented in ds4-agent-rs; use ./ds4-agent"@
}

/// What a reply with a tool block comes to: the text in front of the block and
/// what the calls gave.
pub struct ToolRound {
    pub visible: Vec<u8>,
    pub observation: String,
}

/// The browser that searches the web.
pub trait Browser {
    /// What it was asked so far and what it replied, in order. It exists in
    /// proofs alone, so a type that is only ever run need not say; one that is
    /// verified cannot keep this default.
    open spec fn log(&self) -> Seq<(Seq<char>, Result<Seq<char>, Seq<char>>)> {
        seq![]
    }

    /// Asks for `query`.
    fn google_search(&mut self, query: &str) -> (r: Result<String, String>)
        ensures
            final(self).log() == old(self).log().push((query@, reply_view(r))),
    ;
}

/// A browser that may not be started: it replies to every search with the same
/// refusal.
pub struct RefusingBrowser {
    pub refusal: String,
    /// What it was asked and what it replied.
    pub asked: Ghost<Seq<(Seq<char>, Result<Seq<char>, Seq<char>>)>>,
}

impl RefusingBrowser {
    /// A browser that was not asked yet.
    pub fn new(refusal: &str) -> (r: RefusingBrowser)
        ensures
            r.refusal@ == refusal@,
            r.log().len() == 0,
    {
        RefusingBrowser { refusal: String::from_str(refusal), asked: Ghost(Seq::empty()) }
    }
}

impl Browser for RefusingBrowser {
    open spec fn log(&self) -> Seq<(Seq<char>, Result<Seq<char>, Seq<char>>)> {
        self.asked@
    }

    fn google_search(&mut self, query: &str) -> (r: Result<String, String>)
        ensures
            reply_view(r) == Err::<Seq<char>, Seq<char>>(old(self).refusal@),
            final(self).refusal == old(self).refusal,
    {
        let r: Result<String, String> = Err(self.refusal.clone());
        self.asked = Ghost(self.asked@.push((query@, reply_view(r))));
        r
    }
}

/// One call: the tool and its named arguments.
pub struct ToolCall {
    pub name: String,
    pub args: Vec<(String, String)>,
}

/// A [`ToolCall`] as plain values.
#[verifier::ext_equal]
pub struct Call {
    pub name: Seq<char>,
    pub args: Seq<(Seq<char>, Seq<char>)>,
}

/// The arguments `args` as plain values.
pub open spec fn arg_texts(args: Seq<(String, String)>) -> Seq<(Seq<char>, Seq<char>)> {
    Seq::new(args.len(), |i: int| (args[i].0@, args[i].1@))
}

impl View for ToolCall {
    type V = Call;

    open spec fn view(&self) -> Call {
        Call { name: self.name@, args: arg_texts(self.args@) }
    }
}

/// The calls `calls` as plain values.
pub open spec fn call_views(calls: Seq<ToolCall>) -> Seq<Call> {
    Seq::new(calls.len(), |i: int| calls[i]@)
}

impl Call {
    /// The value of the first argument from `i` on that is named `name`.
    pub open spec fn arg(self, name: Seq<char>, i: int) -> Option<Seq<char>>
        decreases self.args.len() - i,
    {
        if i < 0 || i >= self.args.len() {
            None
        } else if self.args[i].0 == name {
            Some(self.args[i].1)
        } else {
            self.arg(name, i + 1)
        }
    }
}

impl ToolCall {
    /// The value of the first argument named `name`.
    pub fn arg(&self, name: &str) -> (r: Option<&str>)
        ensures
            match (r, self@.arg(name@, 0)) {
                (Some(v), Some(x)) => v@ == x,
                (None, None) => true,
                _ => false,
            },
    {
        let mut i: usize = 0;
        while i < self.args.len()
            invariant
                i <= self.args@.len(),
                self@.arg(name@, 0) == self@.arg(name@, i as int),
            decreases self.args@.len() - i,
        {
            if str_eq(self.args[i].0.as_str(), name) {
                return Some(self.args[i].1.as_str());
            }
            i += 1;
        }
        None
    }
}

/// Where the tool block of `raw` opens, and how long its opening tag is: the
/// earlier of the two spellings.
pub open spec fn block_start(raw: Seq<u8>) -> Option<(int, int)> {
    let full = encode_utf8(dsml_open());
    let bare = encode_utf8(dsml_open_missing_bar());
    match (bytes::first_at(raw, full, 0), bytes::first_at(raw, bare, 0)) {
        (Some(a), Some(b)) => if a <= b {
            Some((a, full.len() as int))
        } else {
            Some((b, bare.len() as int))
        },
        (Some(a), None) => Some((a, full.len() as int)),
        (None, Some(b)) => Some((b, bare.len() as int)),
        (None, None) => None,
    }
}

fn start(raw: &[u8]) -> (r: Option<(usize, usize)>)
    ensures
        match (r, block_start(raw@)) {
            (Some(p), Some(q)) => p.0 == q.0 && p.1 == q.1 && p.0 + p.1 <= raw@.len(),
            (None, None) => true,
            _ => false,
        },
{
    let full = "<｜DSML｜tool_calls>".as_bytes();
    let bare = "<DSML｜tool_calls>".as_bytes();
    proof {
        bytes::lemma_first_at(raw@, full@, 0);
        bytes::lemma_first_at(raw@, bare@, 0);
    }
    match (bytes::find(raw, full, 0), bytes::find(raw, bare, 0)) {
        (Some(a), Some(b)) => if a <= b {
            Some((a, full.len()))
        } else {
            Some((b, bare.len()))
        },
        (Some(a), None) => Some((a, full.len())),
        (None, Some(b)) => Some((b, bare.len())),
        (None, None) => None,
    }
}

/// The first place at or after `at` that holds no ASCII white space.
pub open spec fn after_space(t: Seq<char>, at: int) -> int
    decreases t.len() - at,
{
    if 0 <= at < t.len() && text::is_ascii_space(t[at]) {
        after_space(t, at + 1)
    } else {
        at
    }
}

fn skip_space(t: &[char], at: usize) -> (r: usize)
    requires
        at <= t@.len(),
    ensures
        at <= r <= t@.len(),
        r == after_space(t@, at as int),
{
    let mut i: usize = at;
    while i < t.len() && is_ascii_white(t[i])
        invariant
            at <= i <= t@.len(),
            after_space(t@, at as int) == after_space(t@, i as int),
        decreases t@.len() - i,
    {
        i += 1;
    }
    i
}

/// Where the closing tag of `name` that stands at `at` ends: the tag may hold
/// white space and a bar in front of its `>`.
pub open spec fn close_end(t: Seq<char>, at: int, name: Seq<char>) -> Option<int> {
    let prefix = "</｜DSML｜"@ + name;
    if !text::stands_at(t, prefix, at) {
        None
    } else {
        let a = after_space(t, at + prefix.len());
        let b = after_space(
            t,
            if a < t.len() && t[a] == '｜' {
                a + 1
            } else {
                a
            },
        );
        if b < t.len() && t[b] == '>' {
            Some(b + 1)
        } else {
            None
        }
    }
}

proof fn lemma_after_space_grows(t: Seq<char>, at: int)
    requires
        0 <= at <= t.len(),
    ensures
        at <= after_space(t, at) <= t.len(),
    decreases t.len() - at,
{
    if at < t.len() && text::is_ascii_space(t[at]) {
        lemma_after_space_grows(t, at + 1);
    }
}

proof fn lemma_close_end_grows(t: Seq<char>, at: int, name: Seq<char>)
    ensures
        close_end(t, at, name) matches Some(e) ==> 0 <= at < e <= t.len(),
{
    let prefix = "</｜DSML｜"@ + name;
    if text::stands_at(t, prefix, at) {
        lemma_after_space_grows(t, at + prefix.len());
        let a = after_space(t, at + prefix.len());
        lemma_after_space_grows(
            t,
            if a < t.len() && t[a] == '｜' {
                a + 1
            } else {
                a
            },
        );
    }
}

fn close_at(t: &[char], at: usize, name: &str) -> (r: Option<usize>)
    requires
        at <= t@.len(),
    ensures
        match (r, close_end(t@, at as int, name@)) {
            (Some(e), Some(k)) => e == k && at < e <= t@.len(),
            (None, None) => true,
            _ => false,
        },
{
    let mut prefix = String::from_str("</｜DSML｜");
    prefix.append(name);
    let p = chars_of(prefix.as_str());
    if !has_at(t, p.as_slice(), at) {
        return None;
    }
    let n: usize = t.len();
    let mut end: usize = skip_space(t, at + p.len());
    if end < n && t[end] == '｜' {
        end += 1;
    }
    end = skip_space(t, end);
    if end < n && t[end] == '>' {
        Some(end + 1)
    } else {
        None
    }
}

/// The first closing tag of `name` at or after `at`: where it starts and ends.
pub open spec fn first_close(t: Seq<char>, at: int, name: Seq<char>) -> Option<(int, int)>
    decreases t.len() - at,
{
    if at < 0 || at >= t.len() {
        None
    } else {
        match close_end(t, at, name) {
            Some(e) => Some((at, e)),
            None => first_close(t, at + 1, name),
        }
    }
}

fn find_close(t: &[char], from: usize, name: &str) -> (r: Option<(usize, usize)>)
    requires
        from <= t@.len(),
    ensures
        match (r, first_close(t@, from as int, name@)) {
            (Some(p), Some(q)) => p.0 == q.0 && p.1 == q.1 && from <= p.0 < p.1 <= t@.len(),
            (None, None) => true,
            _ => false,
        },
{
    let mut at: usize = from;
    while at < t.len()
        invariant
            from <= at <= t@.len(),
            first_close(t@, from as int, name@) == first_close(t@, at as int, name@),
        decreases t@.len() - at,
    {
        if let Some(end) = close_at(t, at, name) {
            return Some((at, end));
        }
        at += 1;
    }
    None
}

/// The value of the attribute `name` of the tag `tag`: what stands in quotes
/// behind the first `name="`.
pub open spec fn attribute(tag: Seq<char>, name: Seq<char>) -> Option<Seq<char>> {
    let pattern = name + "=\""@;
    match text::first_stand(tag, pattern, 0) {
        None => None,
        Some(k) => match text::first_stand(tag, "\""@, k + pattern.len()) {
            None => None,
            Some(e) => Some(tag.subrange(k + pattern.len(), e)),
        },
    }
}

fn attr(tag: &[char], name: &str) -> (r: Option<String>)
    ensures
        match (r, attribute(tag@, name@)) {
            (Some(v), Some(x)) => v@ == x,
            (None, None) => true,
            _ => false,
        },
{
    let mut pattern = String::from_str(name);
    pattern.append("=\"");
    let p = chars_of(pattern.as_str());
    let q = chars_of("\"");
    match find_text(tag, p.as_slice(), 0) {
        None => None,
        Some(k) => {
            let n: usize = tag.len();
            let from: usize = k + p.len();
            match find_text(tag, q.as_slice(), from) {
                None => None,
                Some(e) => Some(substring(tag, from, e)),
            }
        },
    }
}

/// `calls`, with `open` at the end where there is one.
pub open spec fn with_open(calls: Seq<Call>, open: Option<Call>) -> Seq<Call> {
    match open {
        Some(c) => calls.push(c),
        None => calls,
    }
}

/// The calls of the block whose text continues at `at`, after `calls` and the
/// call `open` that is not closed yet; or what is wrong with the text.
pub open spec fn calls_from(t: Seq<char>, at: int, open: Option<Call>, calls: Seq<Call>) -> Result<
    Seq<Call>,
    Seq<char>,
>
    decreases t.len() - at,
    when 0 <= at <= t.len()
    via calls_from_decreases
{
    let a = after_space(t, at);
    if close_end(t, a, "tool_calls"@) is Some {
        Ok(with_open(calls, open))
    } else if close_end(t, a, "invoke"@) is Some {
        calls_from(t, close_end(t, a, "invoke"@)->0, None, with_open(calls, open))
    } else {
        match text::first_stand(t, ">"@, a) {
            None => Err("incomplete DSML tool call"@),
            Some(g) => {
                let end = g + 1;
                let tag = t.subrange(a, end);
                if text::stands_at(tag, "<｜DSML｜invoke"@, 0) {
                    match attribute(tag, "name"@) {
                        None => Err("tool invoke without name"@),
                        Some(name) => calls_from(t, end, Some(Call { name, args: seq![] }), calls),
                    }
                } else if text::stands_at(tag, "<｜DSML｜parameter"@, 0) {
                    match (attribute(tag, "name"@), first_close(t, end, "parameter"@)) {
                        (None, _) => Err("tool parameter without name"@),
                        (Some(_), None) => Err("incomplete DSML tool parameter"@),
                        (Some(name), Some(close)) => calls_from(
                            t,
                            close.1,
                            match open {
                                Some(c) => Some(
                                    Call {
                                        args: c.args.push((name, t.subrange(end, close.0))),
                                        ..c
                                    },
                                ),
                                None => None,
                            },
                            calls,
                        ),
                    }
                } else {
                    Err("unexpected DSML tag: "@ + tag.take(
                        if tag.len() < 80 {
                            tag.len() as int
                        } else {
                            80
                        },
                    ))
                }
            },
        }
    }
}

proof fn lemma_first_close_grows(t: Seq<char>, at: int, name: Seq<char>)
    ensures
        first_close(t, at, name) matches Some(p) ==> 0 <= at <= p.0 < p.1 <= t.len(),
    decreases t.len() - at,
{
    if 0 <= at < t.len() {
        lemma_close_end_grows(t, at, name);
        if close_end(t, at, name) is None {
            lemma_first_close_grows(t, at + 1, name);
        }
    }
}

proof fn lemma_first_stand_grows(t: Seq<char>, p: Seq<char>, at: int)
    ensures
        text::first_stand(t, p, at) matches Some(k) ==> 0 <= at <= k && k + p.len() <= t.len(),
    decreases t.len() + 1 - at,
{
    if 0 <= at <= t.len() && !text::stands_at(t, p, at) {
        lemma_first_stand_grows(t, p, at + 1);
    }
}

proof fn lemma_step_grows(t: Seq<char>, at: int)
    requires
        0 <= at <= t.len(),
    ensures
        at <= after_space(t, at) <= t.len(),
        close_end(t, after_space(t, at), "invoke"@) matches Some(e) ==> at < e <= t.len(),
        text::first_stand(t, ">"@, after_space(t, at)) matches Some(g) ==> at < g + 1 <= t.len() && (
        first_close(t, g + 1, "parameter"@) matches Some(p) ==> at < p.1 <= t.len()),
{
    reveal_strlit(">");
    let a = after_space(t, at);
    lemma_after_space_grows(t, at);
    lemma_close_end_grows(t, a, "invoke"@);
    lemma_first_stand_grows(t, ">"@, a);
    if let Some(g) = text::first_stand(t, ">"@, a) {
        lemma_first_close_grows(t, g + 1, "parameter"@);
    }
}

#[via_fn]
proof fn calls_from_decreases(t: Seq<char>, at: int, open: Option<Call>, calls: Seq<Call>) {
    lemma_step_grows(t, at);
}

/// The calls of the block in `raw` whose opening tag ends at `end`; or what is
/// wrong with it.
pub open spec fn block_calls(raw: Seq<u8>, end: int) -> Result<Seq<Call>, Seq<char>> {
    if !valid_utf8(raw) {
        Err("invalid UTF-8 in DSML tool call"@)
    } else {
        calls_from(decode_utf8(raw.subrange(end, raw.len() as int)), 0, None, seq![])
    }
}

pub open spec fn open_view(open: Option<ToolCall>) -> Option<Call> {
    match open {
        Some(c) => Some(c@),
        None => None,
    }
}

/// `r` reports the calls or the error that `model` states.
pub open spec fn calls_match(
    r: Result<Vec<ToolCall>, String>,
    model: Result<Seq<Call>, Seq<char>>,
) -> bool {
    match (r, model) {
        (Ok(v), Ok(calls)) => call_views(v@) == calls,
        (Err(e), Err(x)) => e@ == x,
        _ => false,
    }
}

/// Moves the call that is open, if there is one, to the end of `calls`.
fn close_call(calls: &mut Vec<ToolCall>, open: Option<ToolCall>)
    ensures
        call_views(final(calls)@) == with_open(call_views(old(calls)@), open_view(open)),
{
    if let Some(c) = open {
        calls.push(c);
    }
}

/// What a tag behind the white space at `at` does to the parse.
enum TagStep {
    /// A call opens; the text goes on at the place given.
    Invoke(ToolCall, usize),
    /// An argument of the open call; the text goes on at the place given.
    Parameter(String, String, usize),
    Fail(String),
}

/// `calls_from` at a place `a` that holds no white space and no closing tag.
spec fn tag_step(t: Seq<char>, a: int, step: TagStep) -> bool {
    match text::first_stand(t, ">"@, a) {
        None => step matches TagStep::Fail(e) && e@ == "incomplete DSML tool call"@,
        Some(g) => {
            let end = g + 1;
            let tag = t.subrange(a, end);
            if text::stands_at(tag, "<｜DSML｜invoke"@, 0) {
                match attribute(tag, "name"@) {
                    None => step matches TagStep::Fail(e) && e@ == "tool invoke without name"@,
                    Some(name) => step matches TagStep::Invoke(c, k) && k == end && c@ == (Call {
                        name,
                        args: seq![],
                    }),
                }
            } else if text::stands_at(tag, "<｜DSML｜parameter"@, 0) {
                match (attribute(tag, "name"@), first_close(t, end, "parameter"@)) {
                    (None, _) => step matches TagStep::Fail(e) && e@
                        == "tool parameter without name"@,
                    (Some(_), None) => step matches TagStep::Fail(e) && e@
                        == "incomplete DSML tool parameter"@,
                    (Some(name), Some(close)) => step matches TagStep::Parameter(n, v, k) && n@
                        == name && v@ == t.subrange(end, close.0) && k == close.1,
                }
            } else {
                step matches TagStep::Fail(e) && e@ == "unexpected DSML tag: "@ + tag.take(
                    if tag.len() < 80 {
                        tag.len() as int
                    } else {
                        80
                    },
                )
            }
        },
    }
}

fn read_tag(t: &[char], a: usize) -> (r: TagStep)
    requires
        a <= t@.len(),
    ensures
        tag_step(t@, a as int, r),
{
    let gt = chars_of(">");
    let n: usize = t.len();
    proof {
        reveal_strlit(">");
    }
    let end: usize = match find_text(t, gt.as_slice(), a) {
        None => {
            return TagStep::Fail(String::from_str("incomplete DSML tool call"));
        },
        Some(g) => g + 1,
    };
    let tag = slice_subrange(t, a, end);
    let invoke = chars_of("<｜DSML｜invoke");
    let parameter = chars_of("<｜DSML｜parameter");
    if has_at(tag, invoke.as_slice(), 0) {
        return match attr(tag, "name") {
            None => TagStep::Fail(String::from_str("tool invoke without name")),
            Some(name) => {
                let c = ToolCall { name, args: Vec::new() };
                assert(arg_texts(c.args@) =~= seq![]);
                TagStep::Invoke(c, end)
            },
        };
    }
    if has_at(tag, parameter.as_slice(), 0) {
        let name = match attr(tag, "name") {
            None => {
                return TagStep::Fail(String::from_str("tool parameter without name"));
            },
            Some(n) => n,
        };
        return match find_close(t, end, "parameter") {
            None => TagStep::Fail(String::from_str("incomplete DSML tool parameter")),
            Some(close) => TagStep::Parameter(name, substring(t, end, close.0), close.1),
        };
    }
    let shown: usize = if tag.len() < 80 {
        tag.len()
    } else {
        80
    };
    let mut e = String::from_str("unexpected DSML tag: ");
    e.append(substring(tag, 0, shown).as_str());
    assert(tag@.subrange(0, shown as int) =~= tag@.take(shown as int));
    TagStep::Fail(e)
}

/// The calls of the block whose text is `t`.
pub fn parse_calls(t: &[char]) -> (r: Result<Vec<ToolCall>, String>)
    ensures
        calls_match(r, calls_from(t@, 0, None, seq![])),
{
    let mut at: usize = 0;
    let mut current: Option<ToolCall> = None;
    let mut calls: Vec<ToolCall> = Vec::new();
    assert(call_views(calls@) =~= seq![]);
    loop
        invariant
            at <= t@.len(),
            calls_from(t@, 0, None, seq![]) == calls_from(
                t@,
                at as int,
                open_view(current),
                call_views(calls@),
            ),
        decreases t@.len() - at,
    {
        proof {
            lemma_step_grows(t@, at as int);
        }
        let a: usize = skip_space(t, at);
        if close_at(t, a, "tool_calls").is_some() {
            close_call(&mut calls, current);
            return Ok(calls);
        }
        if let Some(end) = close_at(t, a, "invoke") {
            close_call(&mut calls, current);
            current = None;
            at = end;
            continue;
        }
        match read_tag(t, a) {
            TagStep::Fail(e) => {
                return Err(e);
            },
            TagStep::Invoke(c, end) => {
                current = Some(c);
                at = end;
            },
            TagStep::Parameter(name, value, end) => {
                if let Some(mut c) = current {
                    let ghost before = c@;
                    let ghost pair = (name@, value@);
                    c.args.push((name, value));
                    assert(arg_texts(c.args@) =~= before.args.push(pair));
                    current = Some(c);
                } else {
                    current = None;
                }
                at = end;
            },
        }
    }
}

/// Behind a tag that starts with `<`, what is left of valid UTF-8 is valid.
proof fn lemma_rest_valid(raw: Seq<u8>, tag: Seq<char>, at: int)
    requires
        valid_utf8(raw),
        bytes::occurs_at(raw, encode_utf8(tag), at),
        tag.len() > 0,
        tag[0] == '<',
    ensures
        valid_utf8(raw.subrange(at + encode_utf8(tag).len(), raw.len() as int)),
{
    let p = encode_utf8(tag);
    let end = at + p.len();
    encode_utf8_valid_utf8(tag);
    encode_utf8_first_scalar(tag);
    assert(p.len() > 0 && p[0] == 0x3c) by {
        assert(encode_scalar('<' as u32) =~= seq![0x3cu8]) by {
            assert(0x3cu32 & 0x7f == 0x3c) by (bit_vector);
        }
        assert(p =~= encode_scalar('<' as u32) + encode_utf8(tag.drop_first()));
    }
    assert(raw[at] == raw.subrange(at, end)[0]);
    assert(!is_continuation_byte(0x3c)) by (bit_vector);
    is_char_boundary_iff_not_is_continuation_byte(raw, at);
    valid_utf8_split(raw, at);
    valid_utf8_concat(raw.subrange(0, at), p);
    assert(raw.subrange(0, at) + p =~= raw.subrange(0, end));
    if !valid_utf8(raw.subrange(end, raw.len() as int)) {
        partial_valid_partial_invalid_utf8(raw, end);
    }
}

proof fn lemma_block_rest_valid(raw: Seq<u8>)
    requires
        valid_utf8(raw),
        block_start(raw) is Some,
    ensures
        ({
            let s = block_start(raw)->0;
            &&& 0 <= s.0 <= s.0 + s.1 <= raw.len()
            &&& valid_utf8(raw.subrange(s.0 + s.1, raw.len() as int))
        }),
{
    reveal_strlit("<｜DSML｜tool_calls>");
    reveal_strlit("<DSML｜tool_calls>");
    let s = block_start(raw)->0;
    bytes::lemma_first_at(raw, encode_utf8(dsml_open()), 0);
    bytes::lemma_first_at(raw, encode_utf8(dsml_open_missing_bar()), 0);
    if bytes::first_at(raw, encode_utf8(dsml_open()), 0) == Some(s.0) && s.1 == encode_utf8(
        dsml_open(),
    ).len() {
        lemma_rest_valid(raw, dsml_open(), s.0);
    } else {
        lemma_rest_valid(raw, dsml_open_missing_bar(), s.0);
    }
}

/// The text of the block of `raw` that opens as `s` says.
fn block_text(raw: &[u8], s: (usize, usize)) -> (r: Option<Vec<char>>)
    requires
        block_start(raw@) == Some((s.0 as int, s.1 as int)),
        s.0 + s.1 <= raw@.len(),
    ensures
        r is Some == valid_utf8(raw@),
        r matches Some(t) ==> t@ == decode_utf8(
            raw@.subrange(s.0 + s.1, raw@.len() as int),
        ),
{
    if utf8_str(raw).is_none() {
        return None;
    }
    let len: usize = raw.len();
    proof {
        lemma_block_rest_valid(raw@);
    }
    match utf8_str(slice_subrange(raw, s.0 + s.1, len)) {
        Some(t) => Some(chars_of(t)),
        None => None,
    }
}

/// `raw` holds a whole tool block.
pub open spec fn complete(raw: Seq<u8>) -> bool {
    match block_start(raw) {
        None => false,
        Some(s) => valid_utf8(raw) && first_close(
            decode_utf8(raw.subrange(s.0 + s.1, raw.len() as int)),
            0,
            "tool_calls"@,
        ) is Some,
    }
}

/// Whether `raw` holds a whole tool block.
pub fn block_complete(raw: &[u8]) -> (r: bool)
    ensures
        r == complete(raw@),
{
    match start(raw) {
        None => false,
        Some(s) => match block_text(raw, s) {
            None => false,
            Some(t) => find_close(t.as_slice(), 0, "tool_calls").is_some(),
        },
    }
}

/// Whether a tool block opens in `raw`.
pub fn has_block(raw: &[u8]) -> (r: bool)
    ensures
        r == block_start(raw@) is Some,
{
    start(raw).is_some()
}

/// What the search call `c` asks the browser for.
pub open spec fn query_of(c: Call) -> Option<Seq<char>> {
    match c.arg("query"@, 0) {
        Some(q) if q.len() > 0 => Some(q),
        _ => None,
    }
}

/// What the search call `call` asks the browser for, if anything.
pub fn search_query(call: &ToolCall) -> (r: Option<&str>)
    ensures
        match (r, query_of(call@)) {
            (Some(q), Some(m)) => q@ == m,
            (None, None) => true,
            _ => false,
        },
{
    match call.arg("query") {
        Some(q) => if q.is_empty() {
            None
        } else {
            Some(q)
        },
        None => None,
    }
}

/// The text of the reply `reply` to the search call `c`.
pub open spec fn search_text(c: Call, reply: Result<Seq<char>, Seq<char>>) -> Seq<char> {
    match query_of(c) {
        Some(_) => match reply {
            Ok(markdown) => markdown,
            Err(e) => "Tool error: google_search failed: "@ + e + "\n"@,
        },
        _ => "Tool error: google_search requires query\n"@,
    }
}

/// `s`, ended by a line break unless it is empty or has one.
pub open spec fn ended(s: Seq<char>) -> Seq<char> {
    if s.len() > 0 && s.last() != '\n' {
        s.push('\n')
    } else {
        s
    }
}

/// What the model is shown of the first `n` calls and their replies.
pub open spec fn observation_of(
    calls: Seq<Call>,
    replies: Seq<Result<Seq<char>, Seq<char>>>,
    n: nat,
) -> Seq<char>
    decreases n,
{
    if n == 0 {
        if calls.len() == 0 {
            "Tool error: empty tool call block\n"@
        } else {
            seq![]
        }
    } else {
        observation_of(calls, replies, (n - 1) as nat) + ("Tool result "@ + text::decimal(n)
            + " (google_search):\n"@ + ended(search_text(calls[n - 1], replies[n - 1])))
    }
}

/// Every call is one that can be carried out.
pub open spec fn all_supported(calls: Seq<Call>) -> bool {
    forall|i: int| 0 <= i < calls.len() ==> (#[trigger] calls[i]).name == "google_search"@
}

pub open spec fn reply_view(r: Result<String, String>) -> Result<Seq<char>, Seq<char>> {
    match r {
        Ok(s) => Ok(s@),
        Err(e) => Err(e@),
    }
}

/// Appends the result of call `index` to `observation`.
pub fn append_result(
    observation: &mut String,
    index: usize,
    call: &ToolCall,
    reply: &Result<String, String>,
)
    requires
        index < usize::MAX,
    ensures
        final(observation)@ == old(observation)@ + ("Tool result "@ + text::decimal(
            (index + 1) as nat,
        ) + " (google_search):\n"@ + ended(search_text(call@, reply_view(*reply)))),
{
    let mut result = String::from_str("Tool error: google_search requires query\n");
    if search_query(call).is_some() {
        match reply {
            Ok(markdown) => {
                result = markdown.clone();
            },
            Err(e) => {
                let mut s = String::from_str("Tool error: google_search failed: ");
                s.append(e.as_str());
                s.append("\n");
                result = s;
            },
        }
    }
    let mut block = String::from_str("Tool result ");
    push_u64(&mut block, (index + 1) as u64);
    block.append(" (google_search):\n");
    let chars = chars_of(result.as_str());
    if chars.len() > 0 && chars[chars.len() - 1] != '\n' {
        result.push('\n');
    }
    block.append(result.as_str());
    observation.append(block.as_str());
}

/// The text in front of the tool block of `raw`, and the calls of the block.
pub open spec fn block_of(raw: Seq<u8>) -> Result<(Seq<u8>, Seq<Call>), Seq<char>> {
    match block_start(raw) {
        None => Err("missing DSML tool call"@),
        Some(s) => match block_calls(raw, s.0 + s.1) {
            Err(x) => Err(x),
            Ok(calls) => Ok((raw.subrange(0, s.0), calls)),
        },
    }
}

/// The tool block of a reply: the text in front of it, and its calls.
pub struct ToolBlock {
    pub visible: Vec<u8>,
    pub calls: Vec<ToolCall>,
}

/// Reads the tool block of `raw`.
pub fn read_block(raw: &[u8]) -> (r: Result<ToolBlock, String>)
    ensures
        match (r, block_of(raw@)) {
            (Ok(b), Ok(m)) => b.visible@ == m.0 && call_views(b.calls@) == m.1,
            (Err(e), Err(x)) => e@ == x,
            _ => false,
        },
{
    let s = match start(raw) {
        None => {
            return Err(String::from_str("missing DSML tool call"));
        },
        Some(s) => s,
    };
    match block_text(raw, s) {
        None => Err(String::from_str("invalid UTF-8 in DSML tool call")),
        Some(t) => match parse_calls(t.as_slice()) {
            Ok(calls) => {
                let len: usize = raw.len();
                let visible = slice_to_vec(slice_subrange(raw, 0, s.0));
                Ok(ToolBlock { visible, calls })
            },
            Err(e) => Err(e),
        },
    }
}

/// Where the first call from `i` on stands that cannot be carried out; the
/// number of calls where there is none.
pub open spec fn first_unsupported(calls: Seq<Call>, i: int) -> int
    decreases calls.len() - i,
{
    if i < 0 || i >= calls.len() || calls[i].name != "google_search"@ {
        i
    } else {
        first_unsupported(calls, i + 1)
    }
}

/// What the first `n` calls ask the browser for, each with the reply to it. A
/// call without a query asks nothing.
pub open spec fn asked(
    calls: Seq<Call>,
    replies: Seq<Result<Seq<char>, Seq<char>>>,
    n: nat,
) -> Seq<(Seq<char>, Result<Seq<char>, Seq<char>>)>
    decreases n,
{
    if n == 0 {
        seq![]
    } else {
        let before = asked(calls, replies, (n - 1) as nat);
        match query_of(calls[n - 1]) {
            Some(q) => before.push((q, replies[n - 1])),
            None => before,
        }
    }
}

/// What the round of `raw` asks the browser for, with `replies` to its calls:
/// the queries of the calls up to the first that cannot be carried out, and
/// nothing where there is no block to carry out.
pub open spec fn round_asks(raw: Seq<u8>, replies: Seq<Result<Seq<char>, Seq<char>>>) -> Seq<
    (Seq<char>, Result<Seq<char>, Seq<char>>),
> {
    match block_of(raw) {
        Err(_) => seq![],
        Ok(b) => asked(b.1, replies, replies.len()),
    }
}

/// `r` is the round that `raw` comes to with `replies` to its calls; there is
/// one for each call up to the first that cannot be carried out.
pub open spec fn round_matches(
    raw: Seq<u8>,
    replies: Seq<Result<Seq<char>, Seq<char>>>,
    r: Result<ToolRound, String>,
) -> bool {
    match block_of(raw) {
        Err(x) => r matches Err(e) && e@ == x,
        Ok(b) => {
            &&& replies.len() == first_unsupported(b.1, 0)
            &&& if !all_supported(b.1) {
                r matches Err(e) && e@ == unsupported_error()
            } else {
                &&& r matches Ok(round)
                &&& round.visible@ == b.0
                &&& replies.len() == b.1.len()
                &&& round.observation@ == observation_of(b.1, replies, b.1.len())
            }
        },
    }
}

/// Carries out the tool block of `raw`. The query of each search goes to `web`,
/// in order, and nothing else does; what the round comes to is fixed by the
/// replies.
pub fn handle_round<B: Browser>(raw: &[u8], web: &mut B) -> (r: Result<ToolRound, String>)
    ensures
        exists|replies: Seq<Result<Seq<char>, Seq<char>>>| #[trigger]
            round_matches(raw@, replies, r) && final(web).log() == old(web).log() + round_asks(
                raw@,
                replies,
            ),
{
    let block = match read_block(raw) {
        Ok(b) => b,
        Err(e) => {
            let r: Result<ToolRound, String> = Err(e);
            proof {
                assert(round_matches(raw@, seq![], r));
                assert(web.log() =~= old(web).log() + round_asks(raw@, seq![]));
            }
            return r;
        },
    };
    let calls = block.calls;
    let ghost views = call_views(calls@);
    let mut observation = String::new();
    if calls.len() == 0 {
        observation.append("Tool error: empty tool call block\n");
    }
    let ghost mut replies: Seq<Result<Seq<char>, Seq<char>>> = seq![];
    let mut i: usize = 0;
    assert(web.log() =~= old(web).log() + asked(views, replies, 0));
    while i < calls.len()
        invariant
            i <= calls@.len(),
            views == call_views(calls@),
            replies.len() == i,
            block_of(raw@) == Ok::<(Seq<u8>, Seq<Call>), Seq<char>>((block.visible@, views)),
            forall|k: int| 0 <= k < i ==> (#[trigger] views[k]).name == "google_search"@,
            first_unsupported(views, 0) == first_unsupported(views, i as int),
            web.log() == old(web).log() + asked(views, replies, i as nat),
            observation@ == observation_of(views, replies, i as nat),
        decreases calls@.len() - i,
    {
        if !str_eq(calls[i].name.as_str(), "google_search") {
            let r: Result<ToolRound, String> = Err(
                String::from_str(
                    "tool execution is not implemented in ds4-agent-rs; use ./ds4-agent",
                ),
            );
            proof {
                assert(views[i as int].name != "google_search"@);
                assert(round_matches(raw@, replies, r));
            }
            return r;
        }
        let ghost log = web.log();
        let mut reply: Result<String, String> = Ok(String::new());
        if let Some(query) = search_query(&calls[i]) {
            reply = web.google_search(query);
        }
        append_result(&mut observation, i, &calls[i], &reply);
        proof {
            let before = replies;
            replies = replies.push(reply_view(reply));
            lemma_observation_prefix(views, before, replies, i as nat);
            lemma_asked_prefix(views, before, replies, i as nat);
            assert(web.log() =~= old(web).log() + asked(views, replies, (i + 1) as nat));
        }
        i += 1;
    }
    let r = Ok(ToolRound { visible: block.visible, observation });
    assert(round_matches(raw@, replies, r));
    r
}

proof fn lemma_asked_prefix(
    calls: Seq<Call>,
    a: Seq<Result<Seq<char>, Seq<char>>>,
    b: Seq<Result<Seq<char>, Seq<char>>>,
    n: nat,
)
    requires
        n <= a.len() <= b.len(),
        b.take(a.len() as int) =~= a,
    ensures
        asked(calls, a, n) == asked(calls, b, n),
    decreases n,
{
    if n > 0 {
        lemma_asked_prefix(calls, a, b, (n - 1) as nat);
        assert(b.take(a.len() as int)[n - 1] == a[n - 1]);
    }
}

proof fn lemma_observation_prefix(
    calls: Seq<Call>,
    a: Seq<Result<Seq<char>, Seq<char>>>,
    b: Seq<Result<Seq<char>, Seq<char>>>,
    n: nat,
)
    requires
        n <= a.len() <= b.len(),
        b.take(a.len() as int) =~= a,
    ensures
        observation_of(calls, a, n) == observation_of(calls, b, n),
    decreases n,
{
    if n > 0 {
        lemma_observation_prefix(calls, a, b, (n - 1) as nat);
        assert(b.take(a.len() as int)[n - 1] == a[n - 1]);
    }
}

/// The value of an argument is that of the first argument of its name.
pub proof fn law_first_argument_counts(c: Call, name: Seq<char>, k: int)
    requires
        0 <= k <= c.args.len(),
        forall|i: int| 0 <= i < k ==> (#[trigger] c.args[i]).0 != name,
    ensures
        k < c.args.len() && c.args[k].0 == name ==> c.arg(name, 0) == Some(c.args[k].1),
        k == c.args.len() ==> c.arg(name, 0) is None,
{
    lemma_arg_from(c, name, 0, k);
}

proof fn lemma_arg_from(c: Call, name: Seq<char>, from: int, k: int)
    requires
        0 <= from <= k <= c.args.len(),
        forall|i: int| 0 <= i < k ==> (#[trigger] c.args[i]).0 != name,
    ensures
        c.arg(name, from) == c.arg(name, k),
    decreases k - from,
{
    if from < k {
        lemma_arg_from(c, name, from + 1, k);
    }
}

/// What the model is shown of one more call: its number, then the reply as it
/// came, or why there is none, on lines of its own.
pub proof fn law_reply_is_shown(
    calls: Seq<Call>,
    replies: Seq<Result<Seq<char>, Seq<char>>>,
    n: nat,
    query: Seq<char>,
)
    requires
        n < calls.len(),
        n < replies.len(),
    ensures
        ({
            let before = observation_of(calls, replies, n);
            let after = observation_of(calls, replies, n + 1);
            let title = "Tool result "@ + text::decimal(n + 1) + " (google_search):\n"@;
            let asked = calls[n as int].arg("query"@, 0) == Some(query) && query.len() > 0;
            &&& asked && replies[n as int] is Ok && replies[n as int]->Ok_0.len() > 0
                && replies[n as int]->Ok_0.last() == '\n' ==> after == before + (title
                + replies[n as int]->Ok_0)
            &&& asked && replies[n as int] is Ok && replies[n as int]->Ok_0.len() > 0
                && replies[n as int]->Ok_0.last() != '\n' ==> after == before + (title
                + replies[n as int]->Ok_0.push('\n'))
            &&& asked && replies[n as int] is Ok && replies[n as int]->Ok_0.len() == 0 ==> after
                == before + title
            &&& asked && replies[n as int] is Err ==> after == before + (title + (
            "Tool error: google_search failed: "@ + replies[n as int]->Err_0 + "\n"@))
            &&& calls[n as int].arg("query"@, 0) is None || calls[n as int].arg(
                "query"@,
                0,
            )->0.len() == 0 ==> after == before + (title
                + "Tool error: google_search requires query\n"@)
        }),
        observation_of(calls, replies, 0) == Seq::<char>::empty(),
{
    reveal_strlit("\n");
    reveal_strlit("Tool error: google_search requires query\n");
    let title = "Tool result "@ + text::decimal(n + 1) + " (google_search):\n"@;
    assert(title + Seq::<char>::empty() =~= title);
    if replies[n as int] is Ok && replies[n as int]->Ok_0.len() == 0 {
        assert(replies[n as int]->Ok_0 =~= seq![]);
    }
    let e = "Tool error: google_search failed: "@ + replies[n as int]->Err_0 + "\n"@;
    assert(e.last() == '\n');
}

/// Where every call can be carried out and has a query, the browser is asked for
/// each query once, in order.
pub proof fn law_every_query_is_asked(
    calls: Seq<Call>,
    replies: Seq<Result<Seq<char>, Seq<char>>>,
    queries: Seq<Seq<char>>,
    n: nat,
)
    requires
        n <= calls.len(),
        n <= replies.len(),
        queries.len() == n,
        forall|i: int|
            0 <= i < n ==> (#[trigger] calls[i]).arg("query"@, 0) == Some(queries[i])
                && queries[i].len() > 0,
    ensures
        asked(calls, replies, n).len() == n,
        forall|i: int|
            0 <= i < n ==> #[trigger] asked(calls, replies, n)[i] == (queries[i], replies[i]),
    decreases n,
{
    if n > 0 {
        let m = (n - 1) as nat;
        law_every_query_is_asked(calls, replies, queries.take(m as int), m);
        assert(calls[m as int].arg("query"@, 0) == Some(queries[m as int]));
        assert forall|i: int| 0 <= i < n implies #[trigger] asked(calls, replies, n)[i] == (
            queries[i],
            replies[i],
        ) by {
            if i < m {
                assert(asked(calls, replies, m)[i] == (queries.take(m as int)[i], replies[i]));
            }
        }
    }
}

} // verus!
