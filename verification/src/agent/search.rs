//! The tool that searches files for a text.

pub mod scan;

use crate::agent::lines;
use crate::agent::lines::{split_lines, LineSpan};
use crate::agent::search::scan::{
    clamp_usize, glob_match, literal_match, parse_int_default, Body, BodyBuf, FILE_MAX_BYTES,
};
use crate::bytes;
use crate::bytes::{push_bytes, push_decimal, push_text};
use crate::text;
use crate::text::{bytes_eq, str_eq};
use vstd::prelude::*;
use vstd::slice::*;
use vstd::string::*;
use vstd::utf8::*;

verus! {

/// The name of the tool.
pub const SEARCH: &'static str = "search";

pub const SEARCH_MAX_DEPTH: i32 = 24;

pub const CONTEXT_MAX: i32 = 5;

pub const MAX_RESULTS_DEFAULT: i32 = 50;

pub const MAX_RESULTS_CAP: i32 = 500;

/// The arguments of a call.
#[derive(Clone, Copy, Debug)]
pub struct SearchArgs<'a> {
    pub query: Option<&'a str>,
    pub path: Option<&'a str>,
    pub mode: Option<&'a str>,
    pub glob: Option<&'a str>,
    /// Absent: it is.
    pub case_sensitive: Option<bool>,
    pub context: Option<&'a str>,
    pub max_results: Option<&'a str>,
}

/// A search under way.
pub struct SearchCtx {
    pub query: Vec<u8>,
    pub glob: Option<Vec<u8>>,
    pub case_sensitive: bool,
    pub context: usize,
    pub max_results: usize,
    pub results: usize,
    pub out: BodyBuf,
}

/// What a call comes to before a file is read.
pub enum SearchStep {
    /// It is answered at once.
    Answer(&'static str),
    /// It cannot be carried out.
    Unsupported,
    Search(SearchCtx),
}

/// The place where a search begins.
pub open spec fn search_root(path: Option<&str>) -> Seq<char> {
    if crate::agent::write::given(path) {
        path->0@
    } else {
        "."@
    }
}

/// The place where a search begins: the current directory, unless one is
/// given.
pub fn default_search_path<'a>(path: Option<&'a str>) -> (r: &'a str)
    ensures
        r@ == search_root(path),
{
    match path {
        Some(p) if p.unicode_len() > 0 => p,
        _ => ".",
    }
}

/// The bytes of a glob, where one is given.
pub open spec fn glob_bytes(glob: Option<&str>) -> Option<Seq<u8>> {
    if crate::agent::write::given(glob) {
        Some(encode_utf8(glob->0@))
    } else {
        None
    }
}

pub open spec fn vec_view(v: Option<Vec<u8>>) -> Option<Seq<u8>> {
    match v {
        Some(b) => Some(b@),
        None => None,
    }
}

/// What a call comes to before a file is read.
pub fn plan_search(args: SearchArgs) -> (r: SearchStep)
    ensures
        match r {
            SearchStep::Answer(s) => !crate::agent::write::given(args.query) && s@
                == "Tool error: search requires query\n"@,
            SearchStep::Unsupported => crate::agent::write::given(args.query) && args.mode is Some
                && args.mode->0@ == "regex"@,
            SearchStep::Search(c) => {
                &&& crate::agent::write::given(args.query)
                &&& !(args.mode is Some && args.mode->0@ == "regex"@)
                &&& c.query@ == encode_utf8(args.query->0@)
                &&& vec_view(c.glob) == glob_bytes(args.glob)
                &&& c.case_sensitive == !(args.case_sensitive == Some(false))
                &&& c.context == scan::int_or(args.context, 0, 0, CONTEXT_MAX)
                &&& c.max_results == scan::int_or(
                    args.max_results,
                    MAX_RESULTS_DEFAULT,
                    1,
                    MAX_RESULTS_CAP,
                )
                &&& c.results == 0
                &&& c.out@ == Body::empty()
                &&& c.out@.well_formed()
            },
        },
{
    let query = match args.query {
        Some(q) if q.unicode_len() > 0 => q,
        _ => {
            return SearchStep::Answer("Tool error: search requires query\n");
        },
    };
    if let Some(mode) = args.mode {
        if str_eq(mode, "regex") {
            return SearchStep::Unsupported;
        }
    }
    let glob = match args.glob {
        Some(g) if g.unicode_len() > 0 => Some(slice_to_vec(g.as_bytes())),
        _ => None,
    };
    SearchStep::Search(
        SearchCtx {
            query: slice_to_vec(query.as_bytes()),
            glob,
            case_sensitive: match args.case_sensitive {
                Some(given) => given,
                None => true,
            },
            context: clamp_usize(parse_int_default(args.context, 0, 0, CONTEXT_MAX)),
            max_results: clamp_usize(
                parse_int_default(args.max_results, MAX_RESULTS_DEFAULT, 1, MAX_RESULTS_CAP),
            ),
            results: 0,
            out: BodyBuf::new(),
        },
    )
}

/// What a search answers that found `results` lines and shows `body`.
pub open spec fn search_answer(results: nat, body: Seq<u8>) -> Seq<u8> {
    if body.len() == 0 {
        encode_utf8("No matches\n"@)
    } else {
        encode_utf8(text::decimal(results)) + encode_utf8(
            if results == 1 {
                " match shown\n\n"@
            } else {
                " matches shown\n\n"@
            },
        ) + body
    }
}

impl SearchCtx {
    /// Whether a place at this depth is looked at.
    pub fn goes_on(&self, depth: i32) -> (r: bool)
        ensures
            r == (self.results < self.max_results && depth <= SEARCH_MAX_DEPTH),
    {
        self.results < self.max_results && depth <= SEARCH_MAX_DEPTH
    }

    /// What the search answers in the end.
    pub fn finish_search(&self) -> (r: Vec<u8>)
        ensures
            r@ == search_answer(self.results as nat, self.out.bytes@),
    {
        let mut out: Vec<u8> = Vec::new();
        if self.out.bytes.len() == 0 {
            push_text(&mut out, "No matches\n");
            assert(out@ =~= encode_utf8("No matches\n"@));
            return out;
        }
        push_decimal(&mut out, self.results as u64);
        push_text(
            &mut out,
            if self.results == 1 {
                " match shown\n\n"
            } else {
                " matches shown\n\n"
            },
        );
        push_bytes(&mut out, self.out.bytes.as_slice());
        assert(out@ =~= search_answer(self.results as nat, self.out.bytes@));
        out
    }
}

/// Whether an entry of a directory is looked at.
pub fn enters(name: &[u8]) -> (r: bool)
    ensures
        r == (name@ != encode_utf8("."@) && name@ != encode_utf8(".."@) && name@ != encode_utf8(
            ".git"@,
        )),
{
    !bytes_eq(name, ".".as_bytes()) && !bytes_eq(name, "..".as_bytes()) && !bytes_eq(
        name,
        ".git".as_bytes(),
    )
}

/// The path of an entry of a directory.
pub fn child_path(path: &[u8], name: &[u8]) -> (r: Vec<u8>)
    ensures
        r@ == path@ + encode_utf8("/"@) + name@,
{
    let mut child = slice_to_vec(path);
    push_text(&mut child, "/");
    push_bytes(&mut child, name);
    child
}

/// The place behind the last slash among the first `i` bytes.
pub open spec fn base_start(path: Seq<u8>, i: int) -> int
    decreases i,
{
    if i <= 0 {
        0
    } else if path[i - 1] == 0x2f {
        i
    } else {
        base_start(path, i - 1)
    }
}

/// The name of a file without its directory.
pub open spec fn base_name(path: Seq<u8>) -> Seq<u8> {
    path.subrange(base_start(path, path.len() as int), path.len() as int)
}

proof fn lemma_base_start(path: Seq<u8>, i: int)
    requires
        0 <= i <= path.len(),
    ensures
        0 <= base_start(path, i) <= i,
    decreases i,
{
    if i > 0 && path[i - 1] != 0x2f {
        lemma_base_start(path, i - 1);
    }
}

/// A file is searched: there is no glob, or it fits the name or the whole
/// path.
pub open spec fn selected(glob: Option<Seq<u8>>, path: Seq<u8>) -> bool {
    match glob {
        None => true,
        Some(g) => scan::fits(g, base_name(path)) || scan::fits(g, path),
    }
}

impl SearchCtx {
    /// Whether the file at `path` is searched.
    pub fn wants_file(&self, path: &[u8]) -> (r: bool)
        ensures
            r == (self.results < self.max_results && selected(vec_view(self.glob), path@)),
    {
        if self.results >= self.max_results {
            return false;
        }
        match &self.glob {
            None => true,
            Some(g) => {
                let n: usize = path.len();
                let mut i: usize = n;
                while i > 0 && path[i - 1] != 0x2f
                    invariant
                        n == path@.len(),
                        i <= n,
                        base_start(path@, n as int) == base_start(path@, i as int),
                    decreases i,
                {
                    i -= 1;
                }
                let base = slice_subrange(path, i, n);
                glob_match(g.as_slice(), base) || glob_match(g.as_slice(), path)
            },
        }
    }
}

/// What a search looks for, and how it shows what it finds.
pub struct Rule {
    pub query: Seq<u8>,
    pub case_sensitive: bool,
    pub context: int,
    pub max_results: int,
}

/// Where a search within one file stands.
#[verifier::ext_equal]
pub struct Progress {
    pub results: int,
    pub out: Body,
    /// The name of the file was shown.
    pub printed: bool,
    /// The last line that was shown, counted from 0; -1 before the first.
    pub last: int,
}

/// A line as it is shown, counted from 0.
pub open spec fn shown_line(data: Seq<u8>, spans: Seq<LineSpan>, line: int) -> Seq<u8> {
    encode_utf8("  "@) + encode_utf8(text::decimal((line + 1) as nat)) + encode_utf8(" "@)
        + data.subrange(spans[line].start as int, spans[line].content_end as int) + encode_utf8(
        "\n"@,
    )
}

/// The lines from `from` up to `to` as they are shown.
pub open spec fn shown_lines(data: Seq<u8>, spans: Seq<LineSpan>, from: int, to: int) -> Seq<u8>
    decreases to - from + 1,
{
    if from > to {
        seq![]
    } else {
        shown_lines(data, spans, from, to - 1) + shown_line(data, spans, to)
    }
}

/// The line holds what is looked for.
pub open spec fn is_hit(rule: Rule, data: Seq<u8>, span: LineSpan) -> bool {
    scan::is_found(
        data.subrange(span.start as int, span.content_end as int),
        rule.query,
        rule.case_sensitive,
    )
}

/// The first line that is shown for a hit: not one that was shown before.
pub open spec fn context_from(rule: Rule, index: int, last: int) -> int {
    let from = if index - rule.context < 0 {
        0
    } else {
        index - rule.context
    };
    if from <= last {
        last + 1
    } else {
        from
    }
}

/// The last line that is shown for a hit.
pub open spec fn context_to(rule: Rule, index: int, n: int) -> int {
    if index + rule.context >= n {
        n - 1
    } else {
        index + rule.context
    }
}

/// Behind a hit in line `index`: its lines are shown, below the name of the
/// file, and it is counted.
pub open spec fn after_hit(
    rule: Rule,
    path: Seq<u8>,
    data: Seq<u8>,
    spans: Seq<LineSpan>,
    p: Progress,
    index: int,
) -> Progress {
    let named = if p.printed {
        p.out
    } else {
        p.out.plus(path + encode_utf8("\n"@))
    };
    let from = context_from(rule, index, p.last);
    let to = context_to(rule, index, spans.len() as int);
    Progress {
        results: p.results + 1,
        out: named.plus(shown_lines(data, spans, from, to)),
        printed: true,
        last: if from <= to {
            to
        } else {
            p.last
        },
    }
}

/// The search from line `index` on, until enough was found.
pub open spec fn search_from(
    rule: Rule,
    path: Seq<u8>,
    data: Seq<u8>,
    spans: Seq<LineSpan>,
    p: Progress,
    index: int,
) -> Progress
    decreases spans.len() - index,
{
    if index < 0 || index >= spans.len() || p.results >= rule.max_results {
        p
    } else if is_hit(rule, data, spans[index]) {
        search_from(
            rule,
            path,
            data,
            spans,
            after_hit(rule, path, data, spans, p, index),
            index + 1,
        )
    } else {
        search_from(rule, path, data, spans, p, index + 1)
    }
}

/// A file is searched through: it is not too long and holds no zero byte.
pub open spec fn searchable(data: Seq<u8>) -> bool {
    &&& data.len() <= FILE_MAX_BYTES
    &&& forall|i: int| 0 <= i < data.len() ==> #[trigger] data[i] != 0
}

/// A search behind one file.
pub open spec fn after_file(
    rule: Rule,
    path: Seq<u8>,
    data: Seq<u8>,
    results: int,
    out: Body,
) -> (int, Body) {
    if !searchable(data) {
        (results, out)
    } else {
        let p = search_from(
            rule,
            path,
            data,
            lines::spans_of(data),
            Progress { results, out, printed: false, last: -1 },
            0,
        );
        (
            p.results,
            if p.printed {
                p.out.plus(encode_utf8("\n"@))
            } else {
                p.out
            },
        )
    }
}

fn holds_zero(data: &[u8]) -> (r: bool)
    ensures
        r == exists|i: int| 0 <= i < data@.len() && #[trigger] data@[i] == 0,
{
    let n: usize = data.len();
    let mut i: usize = 0;
    while i < n
        invariant
            n == data@.len(),
            i <= n,
            forall|k: int| 0 <= k < i ==> #[trigger] data@[k] != 0,
        decreases n - i,
    {
        if data[i] == 0 {
            return true;
        }
        i += 1;
    }
    false
}

impl SearchCtx {
    pub open spec fn rule(self) -> Rule {
        Rule {
            query: self.query@,
            case_sensitive: self.case_sensitive,
            context: self.context as int,
            max_results: self.max_results as int,
        }
    }

    /// The bounds that [`plan_search`] sets, and that a search keeps.
    pub open spec fn well_formed(self) -> bool {
        &&& self.context <= CONTEXT_MAX
        &&& self.max_results <= MAX_RESULTS_CAP
        &&& self.out@.well_formed()
    }

    fn emit_line(&mut self, data: &[u8], spans: &[LineSpan], line: usize)
        requires
            old(self).well_formed(),
            line < spans@.len(),
            lines::tile(spans@, data@, 0, data@.len() as int),
        ensures
            final(self).well_formed(),
            final(self).rule() == old(self).rule(),
            final(self).glob == old(self).glob,
            final(self).results == old(self).results,
            final(self).out@ == old(self).out@.plus(shown_line(data@, spans@, line as int)),
    {
        let span = spans[line];
        let mut text: Vec<u8> = Vec::new();
        push_text(&mut text, "  ");
        push_decimal(&mut text, line as u64 + 1);
        push_text(&mut text, " ");
        push_bytes(&mut text, slice_subrange(data, span.start, span.content_end));
        push_text(&mut text, "\n");
        assert(text@ =~= shown_line(data@, spans@, line as int));
        self.out.append(text.as_slice());
    }

    fn emit_lines(&mut self, data: &[u8], spans: &[LineSpan], from: usize, to: usize)
        requires
            old(self).well_formed(),
            from <= to + 1,
            to < spans@.len(),
            lines::tile(spans@, data@, 0, data@.len() as int),
        ensures
            final(self).well_formed(),
            final(self).rule() == old(self).rule(),
            final(self).glob == old(self).glob,
            final(self).results == old(self).results,
            final(self).out@ == old(self).out@.plus(
                shown_lines(data@, spans@, from as int, to as int),
            ),
    {
        let n: usize = spans.len();
        let mut line: usize = from;
        assert(self.out@ =~= self.out@.plus(seq![])) by {
            assert(self.out@.bytes + Seq::<u8>::empty() =~= self.out@.bytes);
        }
        while line <= to
            invariant
                n == spans@.len(),
                from <= line <= to + 1,
                to < n,
                lines::tile(spans@, data@, 0, data@.len() as int),
                self.well_formed(),
                old(self).out@.well_formed(),
                self.rule() == old(self).rule(),
                self.glob == old(self).glob,
                self.results == old(self).results,
                self.out@ == old(self).out@.plus(
                    shown_lines(data@, spans@, from as int, line - 1),
                ),
            decreases to + 1 - line,
        {
            self.emit_line(data, spans, line);
            proof {
                scan::law_pieces_do_not_matter(
                    old(self).out@,
                    shown_lines(data@, spans@, from as int, line - 1),
                    shown_line(data@, spans@, line as int),
                );
            }
            line += 1;
        }
    }

    fn name_file(&mut self, path: &[u8])
        requires
            old(self).well_formed(),
        ensures
            final(self).well_formed(),
            final(self).rule() == old(self).rule(),
            final(self).glob == old(self).glob,
            final(self).results == old(self).results,
            final(self).out@ == old(self).out@.plus(path@ + encode_utf8("\n"@)),
    {
        proof {
            scan::law_pieces_do_not_matter(self.out@, path@, encode_utf8("\n"@));
        }
        self.out.append(path);
        self.out.append("\n".as_bytes());
    }

    /// Searches the content of the file at `path`.
    pub fn search_file(&mut self, path: &[u8], data: &[u8])
        requires
            old(self).well_formed(),
            old(self).results <= old(self).max_results,
        ensures
            final(self).well_formed(),
            final(self).rule() == old(self).rule(),
            final(self).glob == old(self).glob,
            final(self).results <= final(self).max_results,
            (final(self).results as int, final(self).out@) == after_file(
                old(self).rule(),
                path@,
                data@,
                old(self).results as int,
                old(self).out@,
            ),
    {
        if data.len() > FILE_MAX_BYTES || holds_zero(data) {
            return;
        }
        let spans = split_lines(data);
        let n: usize = spans.len();
        let mut printed = false;
        // One more than the last line that was shown.
        let mut shown: usize = 0;
        let mut index: usize = 0;
        let ghost rule = self.rule();
        let ghost start = Progress {
            results: self.results as int,
            out: self.out@,
            printed: false,
            last: -1,
        };
        while index < n && self.results < self.max_results
            invariant
                n == spans@.len(),
                n <= data@.len() <= FILE_MAX_BYTES,
                index <= n,
                shown <= n,
                spans@ == lines::spans_of(data@),
                lines::tile(spans@, data@, 0, data@.len() as int),
                self.well_formed(),
                rule == old(self).rule(),
                self.rule() == rule,
                self.glob == old(self).glob,
                self.results <= self.max_results,
                search_from(rule, path@, data@, spans@, start, 0) == search_from(
                    rule,
                    path@,
                    data@,
                    spans@,
                    (Progress {
                        results: self.results as int,
                        out: self.out@,
                        printed,
                        last: shown - 1,
                    }),
                    index as int,
                ),
            decreases n - index,
        {
            let span = spans[index];
            if !literal_match(
                slice_subrange(data, span.start, span.content_end),
                self.query.as_slice(),
                self.case_sensitive,
            ) {
                index += 1;
                continue;
            }
            if !printed {
                self.name_file(path);
                printed = true;
            }
            let near: usize = if index < self.context {
                0
            } else {
                index - self.context
            };
            let from: usize = if near < shown {
                shown
            } else {
                near
            };
            let to: usize = if self.context >= n - index {
                n - 1
            } else {
                index + self.context
            };
            if from <= to {
                self.emit_lines(data, spans.as_slice(), from, to);
                shown = to + 1;
            } else {
                assert(self.out@ =~= self.out@.plus(seq![])) by {
                    assert(self.out@.bytes + Seq::<u8>::empty() =~= self.out@.bytes);
                }
            }
            self.results = self.results + 1;
            index += 1;
        }
        if printed {
            self.out.append("\n".as_bytes());
        }
    }
}

proof fn lemma_search_bounded(
    rule: Rule,
    path: Seq<u8>,
    data: Seq<u8>,
    spans: Seq<LineSpan>,
    p: Progress,
    index: int,
)
    requires
        p.results <= rule.max_results,
        p.out.well_formed(),
    ensures
        ({
            let e = search_from(rule, path, data, spans, p, index);
            p.results <= e.results <= rule.max_results && e.out.well_formed()
        }),
    decreases spans.len() - index,
{
    if 0 <= index < spans.len() && p.results < rule.max_results {
        if is_hit(rule, data, spans[index]) {
            let name = path + encode_utf8("\n"@);
            scan::law_pieces_do_not_matter(p.out, name, seq![]);
            let from = context_from(rule, index, p.last);
            let to = context_to(rule, index, spans.len() as int);
            let shown = shown_lines(data, spans, from, to);
            scan::law_pieces_do_not_matter(p.out.plus(name), shown, seq![]);
            scan::law_pieces_do_not_matter(p.out, shown, seq![]);
            lemma_search_bounded(
                rule,
                path,
                data,
                spans,
                after_hit(rule, path, data, spans, p, index),
                index + 1,
            );
        } else {
            lemma_search_bounded(rule, path, data, spans, p, index + 1);
        }
    }
}

/// However many files are searched, no more lines are counted than were asked
/// for, and no more is shown than there is room for.
pub proof fn law_search_is_bounded(
    rule: Rule,
    path: Seq<u8>,
    data: Seq<u8>,
    results: int,
    out: Body,
)
    requires
        results <= rule.max_results,
        out.well_formed(),
    ensures
        ({
            let (n, b) = after_file(rule, path, data, results, out);
            results <= n <= rule.max_results && b.well_formed() && b.bytes.len()
                <= scan::RESULT_MAX_BYTES
        }),
{
    let p = Progress { results, out, printed: false, last: -1 };
    lemma_search_bounded(rule, path, data, lines::spans_of(data), p, 0);
    let e = search_from(rule, path, data, lines::spans_of(data), p, 0);
    scan::law_pieces_do_not_matter(e.out, encode_utf8("\n"@), seq![]);
}

/// The bytes of line `i` of `data`, counted from 0, without its break.
pub open spec fn line_bytes(data: Seq<u8>, i: int) -> Seq<u8> {
    data.subrange(
        lines::spans_of(data)[i].start as int,
        lines::spans_of(data)[i].content_end as int,
    )
}

/// `s` with every ASCII capital made small.
pub open spec fn folded(s: Seq<u8>) -> Seq<u8> {
    Seq::new(
        s.len(),
        |i: int|
            if 0x41 <= s[i] <= 0x5a {
                (s[i] + 0x20) as u8
            } else {
                s[i]
            },
    )
}

/// `query` occurs in `line`, at whatever place.
pub open spec fn holds(line: Seq<u8>, query: Seq<u8>, case_sensitive: bool) -> bool {
    if case_sensitive {
        exists|k: int| bytes::occurs_at(line, query, k)
    } else {
        exists|k: int| bytes::occurs_at(folded(line), folded(query), k)
    }
}

/// How many of the first `n` lines of `data` hold `query`.
pub open spec fn holding_lines(data: Seq<u8>, query: Seq<u8>, case_sensitive: bool, n: int) -> int
    decreases n,
{
    if n <= 0 {
        0
    } else {
        holding_lines(data, query, case_sensitive, n - 1) + if holds(
            line_bytes(data, n - 1),
            query,
            case_sensitive,
        ) {
            1int
        } else {
            0
        }
    }
}

/// Line `h` holds what is looked for and is one of the first `room` that do.
pub open spec fn counted(rule: Rule, data: Seq<u8>, room: int, h: int) -> bool {
    &&& 0 <= h < lines::spans_of(data).len()
    &&& holds(line_bytes(data, h), rule.query, rule.case_sensitive)
    &&& holding_lines(data, rule.query, rule.case_sensitive, h) < room
}

/// Line `l` lies within the context of a line that is counted.
pub open spec fn near(rule: Rule, data: Seq<u8>, room: int, l: int) -> bool {
    exists|h: int| #[trigger]
        counted(rule, data, room, h) && h - rule.context <= l <= h + rule.context
}

/// The lines near a counted one among the first `n`, each with its number.
pub open spec fn near_lines(rule: Rule, data: Seq<u8>, room: int, n: int) -> Seq<u8>
    decreases n,
{
    if n <= 0 {
        seq![]
    } else {
        near_lines(rule, data, room, n - 1) + if near(rule, data, room, n - 1) {
            encode_utf8("  "@) + encode_utf8(text::decimal(n as nat)) + encode_utf8(" "@)
                + line_bytes(data, n - 1) + encode_utf8("\n"@)
        } else {
            seq![]
        }
    }
}

proof fn lemma_hit_holds(rule: Rule, data: Seq<u8>, i: int)
    ensures
        is_hit(rule, data, lines::spans_of(data)[i]) == holds(
            line_bytes(data, i),
            rule.query,
            rule.case_sensitive,
        ),
{
    let line = line_bytes(data, i);
    let q = rule.query;
    if rule.case_sensitive {
        scan::law_case_only_widens(line, q);
    } else {
        assert forall|at: int|
            scan::found_at(line, q, false, at) == bytes::occurs_at(folded(line), folded(q), at) by {
            if scan::found_at(line, q, false, at) {
                assert forall|k: int| 0 <= k < q.len() implies folded(line).subrange(
                    at,
                    at + q.len(),
                )[k] == folded(q)[k] by {
                    assert(scan::same_byte(line[at + k], q[k], false));
                }
                assert(folded(line).subrange(at, at + q.len()) =~= folded(q));
            }
            if bytes::occurs_at(folded(line), folded(q), at) {
                assert forall|k: int| 0 <= k < q.len() implies scan::same_byte(
                    #[trigger] line[at + k],
                    q[k],
                    false,
                ) by {
                    assert(folded(line).subrange(at, at + q.len())[k] == folded(q)[k]);
                }
            }
        }
        if scan::is_found(line, q, false) {
            let at = choose|at: int| scan::found_at(line, q, false, at);
            assert(bytes::occurs_at(folded(line), folded(q), at));
        }
        if exists|k: int| bytes::occurs_at(folded(line), folded(q), k) {
            let at = choose|k: int| bytes::occurs_at(folded(line), folded(q), k);
            assert(scan::found_at(line, q, false, at));
        }
    }
}

proof fn lemma_holding_grows(rule: Rule, data: Seq<u8>, m: int, n: int)
    requires
        0 <= m <= n,
    ensures
        0 <= holding_lines(data, rule.query, rule.case_sensitive, m) <= holding_lines(
            data,
            rule.query,
            rule.case_sensitive,
            n,
        ),
    decreases n,
{
    if n > 0 {
        if m < n {
            lemma_holding_grows(rule, data, m, n - 1);
        } else {
            lemma_holding_grows(rule, data, m - 1, n - 1);
        }
    }
}

/// Where none of the lines from `m` up to `n` is near a counted one, they add
/// nothing.
proof fn lemma_far_lines(rule: Rule, data: Seq<u8>, room: int, m: int, n: int)
    requires
        0 <= m <= n,
        forall|l: int| m <= l < n ==> !near(rule, data, room, l),
    ensures
        near_lines(rule, data, room, n) == near_lines(rule, data, room, m),
    decreases n,
{
    if m < n {
        lemma_far_lines(rule, data, room, m, n - 1);
        assert(near_lines(rule, data, room, m) + Seq::<u8>::empty() =~= near_lines(
            rule,
            data,
            room,
            m,
        ));
    }
}

/// Where all of the lines from `from` up to `to` are near a counted one, they
/// are shown as they stand.
proof fn lemma_near_lines(rule: Rule, data: Seq<u8>, room: int, from: int, to: int)
    requires
        0 <= from <= to + 1,
        forall|l: int| from <= l <= to ==> near(rule, data, room, l),
    ensures
        near_lines(rule, data, room, to + 1) == near_lines(rule, data, room, from) + shown_lines(
            data,
            lines::spans_of(data),
            from,
            to,
        ),
    decreases to + 1 - from,
{
    if from <= to {
        lemma_near_lines(rule, data, room, from, to - 1);
        assert(near(rule, data, room, to));
        bytes::lemma_join(
            near_lines(rule, data, room, from),
            shown_lines(data, lines::spans_of(data), from, to - 1),
            shown_line(data, lines::spans_of(data), to),
        );
    } else {
        assert(near_lines(rule, data, room, from) + Seq::<u8>::empty() =~= near_lines(
            rule,
            data,
            room,
            from,
        ));
    }
}

/// Where a search stands in front of line `index` that began with `results` and
/// `out`.
spec fn stands(
    rule: Rule,
    path: Seq<u8>,
    data: Seq<u8>,
    results: int,
    out: Body,
    p: Progress,
    index: int,
) -> bool {
    let room = rule.max_results - results;
    let n = lines::spans_of(data).len() as int;
    let found = holding_lines(data, rule.query, rule.case_sensitive, index);
    &&& p.results == results + if found < room {
        found
    } else {
        room
    }
    &&& p.printed == (p.results > results)
    &&& -1 <= p.last < n
    &&& !p.printed ==> p.last == -1 && p.out == out
    &&& p.printed ==> p.out == out.plus(
        path + encode_utf8("\n"@) + near_lines(rule, data, room, p.last + 1),
    )
    &&& forall|h: int| #[trigger]
        counted(rule, data, room, h) && h < index ==> h + rule.context <= p.last || p.last == n - 1
}

proof fn lemma_search_stands(
    rule: Rule,
    path: Seq<u8>,
    data: Seq<u8>,
    results: int,
    out: Body,
    p: Progress,
    index: int,
)
    requires
        results <= rule.max_results,
        rule.context >= 0,
        out.well_formed(),
        0 <= index <= lines::spans_of(data).len(),
        stands(rule, path, data, results, out, p, index),
    ensures
        ({
            let e = search_from(rule, path, data, lines::spans_of(data), p, index);
            let n = lines::spans_of(data).len() as int;
            &&& stands(rule, path, data, results, out, e, n)
        }),
    decreases lines::spans_of(data).len() - index,
{
    let spans = lines::spans_of(data);
    let n = spans.len() as int;
    let room = rule.max_results - results;
    lemma_holding_grows(rule, data, index, n);
    if index >= n {
    } else if p.results >= rule.max_results {
        assert forall|h: int| #[trigger] counted(rule, data, room, h) && h < n implies h
            + rule.context <= p.last || p.last == n - 1 by {
            if h >= index {
                lemma_holding_grows(rule, data, index, h);
            }
        }
    } else {
        lemma_hit_holds(rule, data, index);
        if is_hit(rule, data, spans[index]) {
            let q = after_hit(rule, path, data, spans, p, index);
            let from = context_from(rule, index, p.last);
            let to = context_to(rule, index, n);
            assert(counted(rule, data, room, index));
            assert forall|l: int| p.last < l < from implies !near(rule, data, room, l) by {
                if near(rule, data, room, l) {
                    let h = choose|h: int| #[trigger]
                        counted(rule, data, room, h) && h - rule.context <= l <= h + rule.context;
                    assert(h < index ==> h + rule.context <= p.last);
                }
            }
            assert forall|l: int| from <= l <= to implies near(rule, data, room, l) by {
                assert(counted(rule, data, room, index) && index - rule.context <= l <= index
                    + rule.context);
            }
            let nl = encode_utf8("\n"@);
            let head = path + nl;
            scan::law_pieces_do_not_matter(out, head, shown_lines(data, spans, from, to));
            scan::law_pieces_do_not_matter(
                out,
                head + near_lines(rule, data, room, p.last + 1),
                shown_lines(data, spans, from, to),
            );
            lemma_far_lines(rule, data, room, p.last + 1, from);
            if from <= to {
                lemma_near_lines(rule, data, room, from, to);
            } else {
                assert(shown_lines(data, spans, from, to) =~= seq![]);
                assert(near_lines(rule, data, room, p.last + 1) + Seq::<u8>::empty() =~= near_lines(
                    rule,
                    data,
                    room,
                    p.last + 1,
                ));
            }
            bytes::lemma_join(
                head,
                near_lines(rule, data, room, p.last + 1),
                shown_lines(data, spans, from, to),
            );
            if !p.printed {
                assert(near_lines(rule, data, room, 0) =~= seq![]);
                assert(Seq::<u8>::empty() + shown_lines(data, spans, from, to) =~= shown_lines(
                    data,
                    spans,
                    from,
                    to,
                ));
            }
            assert(stands(rule, path, data, results, out, q, index + 1));
            lemma_search_stands(rule, path, data, results, out, q, index + 1);
        } else {
            assert(stands(rule, path, data, results, out, p, index + 1));
            lemma_search_stands(rule, path, data, results, out, p, index + 1);
        }
    }
}

/// What searching a file adds. As many lines are counted as hold the query, at
/// whatever place, until the limit is reached; and where there are any, the
/// name of the file is shown, then every line within the context of a counted
/// one, once, in order and with its number, then an empty line. A file that is
/// too long or holds a zero byte adds nothing.
pub proof fn law_every_line_with_the_query_is_found(
    rule: Rule,
    path: Seq<u8>,
    data: Seq<u8>,
    results: int,
    out: Body,
)
    requires
        results <= rule.max_results,
        rule.context >= 0,
        out.well_formed(),
    ensures
        ({
            let (r, body) = after_file(rule, path, data, results, out);
            let n = lines::spans_of(data).len() as int;
            let room = rule.max_results - results;
            let found = holding_lines(data, rule.query, rule.case_sensitive, n);
            let added = if found < room {
                found
            } else {
                room
            };
            if data.len() <= 16_777_216 && !data.contains(0) {
                &&& r == results + added
                &&& body == if added == 0 {
                    out
                } else {
                    out.plus(
                        path + encode_utf8("\n"@) + near_lines(rule, data, room, n) + encode_utf8(
                            "\n"@,
                        ),
                    )
                }
            } else {
                r == results && body == out
            }
        }),
{
    let spans = lines::spans_of(data);
    let n = spans.len() as int;
    let room = rule.max_results - results;
    let start = Progress { results, out, printed: false, last: -1 };
    if data.len() <= 16_777_216 && !data.contains(0) {
        assert(searchable(data));
        lemma_search_stands(rule, path, data, results, out, start, 0);
        let e = search_from(rule, path, data, spans, start, 0);
        lemma_holding_grows(rule, data, 0, n);
        if e.printed {
            assert forall|l: int| e.last + 1 <= l < n implies !near(rule, data, room, l) by {
                if near(rule, data, room, l) {
                    let h = choose|h: int| #[trigger]
                        counted(rule, data, room, h) && h - rule.context <= l <= h + rule.context;
                    assert(h + rule.context <= e.last || e.last == n - 1);
                }
            }
            lemma_far_lines(rule, data, room, e.last + 1, n);
            scan::law_pieces_do_not_matter(
                out,
                path + encode_utf8("\n"@) + near_lines(rule, data, room, n),
                encode_utf8("\n"@),
            );
        }
    } else if data.contains(0) {
        let i = data.index_of(0);
        assert(data[i] == 0);
        assert(!searchable(data));
    }
}

/// The part of a pattern in front of its first zero byte.
pub open spec fn before_zero(pattern: Seq<u8>, i: int) -> int
    decreases pattern.len() - i,
{
    if 0 <= i < pattern.len() && pattern[i] != 0 {
        before_zero(pattern, i + 1)
    } else {
        i
    }
}

/// The part of a pattern that a matcher of zero-terminated text sees.
pub fn regex_pattern(pattern: &str) -> (r: Vec<u8>)
    ensures
        r@ == encode_utf8(pattern@).subrange(0, before_zero(encode_utf8(pattern@), 0)),
{
    let b = pattern.as_bytes();
    let n: usize = b.len();
    let mut i: usize = 0;
    while i < n && b[i] != 0
        invariant
            n == b@.len(),
            i <= n,
            before_zero(b@, 0) == before_zero(b@, i as int),
        decreases n - i,
    {
        i += 1;
    }
    slice_to_vec(slice_subrange(b, 0, i))
}

/// A file is chosen where its name, which is what stands behind the last slash
/// of its path, fits the glob, or where the whole path does.
pub proof fn law_glob_chooses_by_name(glob: Seq<u8>, dir: Seq<u8>, name: Seq<u8>)
    requires
        !name.contains(0x2f),
    ensures
        selected(Some(glob), dir + seq![0x2fu8] + name) == (scan::fits(glob, name) || scan::fits(
            glob,
            dir + seq![0x2fu8] + name,
        )),
        selected(Some(glob), name) == scan::fits(glob, name),
        selected(None, dir + seq![0x2fu8] + name),
{
    let path = dir + seq![0x2fu8] + name;
    let n = path.len() as int;
    lemma_base_behind(path, dir.len() as int + 1, n);
    assert(path.subrange(dir.len() as int + 1, n) =~= name);
    lemma_base_whole(name, name.len() as int);
    assert(name.subrange(0, name.len() as int) =~= name);
}

proof fn lemma_base_behind(path: Seq<u8>, at: int, i: int)
    requires
        1 <= at <= i <= path.len(),
        path[at - 1] == 0x2f,
        !path.subrange(at, path.len() as int).contains(0x2f),
    ensures
        base_start(path, i) == at,
    decreases i,
{
    if i > at {
        assert(path.subrange(at, path.len() as int)[i - 1 - at] == path[i - 1]);
        lemma_base_behind(path, at, i - 1);
    }
}

proof fn lemma_base_whole(path: Seq<u8>, i: int)
    requires
        0 <= i <= path.len(),
        !path.contains(0x2f),
    ensures
        base_start(path, i) == 0,
    decreases i,
{
    if i > 0 {
        assert(path.contains(path[i - 1]));
        lemma_base_whole(path, i - 1);
    }
}

} // verus!
