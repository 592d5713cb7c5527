//! Writing a tool block, and reading back what was written.

use crate::agent::web_tools;
use crate::agent::web_tools::Call;
use crate::bytes;
use crate::text;
use vstd::prelude::*;
use vstd::string::*;
use vstd::utf8::*;

verus! {

/// How a block is written, where there is a choice: what stands between two
/// tags, what stands in an opening tag behind the name, and what stands in a
/// closing tag in front of its `>`.
pub struct Style {
    pub gap: Seq<char>,
    pub extra: Seq<char>,
    pub before_bar: Seq<char>,
    pub bar: bool,
    pub behind_bar: Seq<char>,
}

/// `s` holds nothing but ASCII white space.
pub open spec fn white(s: Seq<char>) -> bool {
    forall|i: int|
        0 <= i < s.len() ==> (#[trigger] s[i] == ' ' || s[i] == '\t' || s[i] == '\n' || s[i]
            == '\x0c' || s[i] == '\r')
}

/// `s` can stand in quotes within a tag.
pub open spec fn quotable(s: Seq<char>) -> bool {
    forall|i: int| 0 <= i < s.len() ==> #[trigger] s[i] != '"' && s[i] != '>'
}

/// A closing parameter tag stands somewhere in `s`.
pub open spec fn holds_close(s: Seq<char>) -> bool {
    exists|j: int, k: int|
        #![trigger s[j], s[k]]
        {
            &&& 0 <= j
            &&& j + 17 <= k < s.len()
            &&& s.subrange(j, j + 17) == "</｜DSML｜parameter"@
            &&& forall|i: int|
                j + 17 <= i < k ==> (#[trigger] s[i] == ' ' || s[i] == '\t' || s[i] == '\n' || s[i]
                    == '\x0c' || s[i] == '\r' || s[i] == '｜')
            &&& s[k] == '>'
        }
}

impl Style {
    pub open spec fn fits(self) -> bool {
        &&& white(self.gap)
        &&& white(self.before_bar)
        &&& white(self.behind_bar)
        &&& forall|i: int| 0 <= i < self.extra.len() ==> #[trigger] self.extra[i] != '>'
    }

    /// What stands in a closing tag in front of its `>`.
    pub open spec fn slack(self) -> Seq<char> {
        self.before_bar + (if self.bar {
            seq!['｜']
        } else {
            seq![]
        }) + self.behind_bar
    }

    /// The opening tag of a `kind` named `name`.
    pub open spec fn opening(self, kind: Seq<char>, name: Seq<char>) -> Seq<char> {
        "<｜DSML｜"@ + kind + " name=\""@ + name + seq!['"'] + self.extra + seq!['>']
    }

    /// The closing tag of a `kind`.
    pub open spec fn closing(self, kind: Seq<char>) -> Seq<char> {
        "</｜DSML｜"@ + kind + self.slack() + seq!['>']
    }

    /// The argument `arg`.
    pub open spec fn argument(self, arg: (Seq<char>, Seq<char>)) -> Seq<char> {
        self.gap + self.opening("parameter"@, arg.0) + arg.1 + self.closing("parameter"@)
    }

    /// The first `n` of the arguments `args`.
    pub open spec fn arguments(self, args: Seq<(Seq<char>, Seq<char>)>, n: nat) -> Seq<char>
        decreases n,
    {
        if n == 0 {
            seq![]
        } else {
            self.arguments(args, (n - 1) as nat) + self.argument(args[n - 1])
        }
    }

    /// The call `c`.
    pub open spec fn call(self, c: Call) -> Seq<char> {
        self.gap + self.opening("invoke"@, c.name) + self.arguments(c.args, c.args.len())
            + self.gap + self.closing("invoke"@)
    }

    /// The first `n` of the calls `calls`.
    pub open spec fn calls(self, calls: Seq<Call>, n: nat) -> Seq<char>
        decreases n,
    {
        if n == 0 {
            seq![]
        } else {
            self.calls(calls, (n - 1) as nat) + self.call(calls[n - 1])
        }
    }

    /// The block of `calls`, behind its opening tag.
    pub open spec fn block(self, calls: Seq<Call>) -> Seq<char> {
        self.calls(calls, calls.len()) + self.gap + self.closing("tool_calls"@)
    }
}

/// The call can be written in tags.
pub open spec fn writable(c: Call) -> bool {
    &&& quotable(c.name)
    &&& forall|i: int|
        0 <= i < c.args.len() ==> quotable((#[trigger] c.args[i]).0) && !holds_close(c.args[i].1)
}

proof fn lemma_chars(t: Seq<char>, p: Seq<char>, at: int)
    requires
        text::stands_at(t, p, at),
    ensures
        forall|k: int| 0 <= k < p.len() ==> #[trigger] p[k] == t[at + k],
        forall|j: int| at <= j < at + p.len() ==> #[trigger] t[j] == p[j - at],
{
    assert forall|k: int| 0 <= k < p.len() implies #[trigger] p[k] == t[at + k] by {
        assert(t.subrange(at, at + p.len())[k] == t[at + k]);
    }
    assert forall|j: int| at <= j < at + p.len() implies #[trigger] t[j] == p[j - at] by {
        assert(t.subrange(at, at + p.len())[j - at] == t[j]);
    }
}

proof fn lemma_split(t: Seq<char>, a: Seq<char>, b: Seq<char>, at: int)
    requires
        text::stands_at(t, a + b, at),
    ensures
        text::stands_at(t, a, at),
        text::stands_at(t, b, at + a.len()),
{
    lemma_chars(t, a + b, at);
    assert(t.subrange(at, at + a.len()) =~= a);
    assert forall|k: int| 0 <= k < b.len() implies t.subrange(
        at + a.len(),
        at + a.len() + b.len(),
    )[k] == b[k] by {
        assert((a + b)[a.len() + k] == b[k]);
    }
    assert(t.subrange(at + a.len(), at + a.len() + b.len()) =~= b);
}

proof fn lemma_skip(t: Seq<char>, at: int, q: int)
    requires
        0 <= at <= q <= t.len(),
        forall|i: int| at <= i < q ==> text::is_ascii_space(#[trigger] t[i]),
        q < t.len() ==> !text::is_ascii_space(t[q]),
    ensures
        web_tools::after_space(t, at) == q,
    decreases q - at,
{
    if at < q {
        lemma_skip(t, at + 1, q);
    }
}

proof fn lemma_skip_white(t: Seq<char>, w: Seq<char>, at: int)
    requires
        text::stands_at(t, w, at),
        white(w),
        at + w.len() < t.len(),
        !text::is_ascii_space(t[at + w.len()]),
    ensures
        web_tools::after_space(t, at) == at + w.len(),
{
    lemma_chars(t, w, at);
    assert forall|i: int| at <= i < at + w.len() implies text::is_ascii_space(#[trigger] t[i]) by {
        assert(t[i] == w[i - at]);
    }
    lemma_skip(t, at, at + w.len());
}

proof fn lemma_closing(t: Seq<char>, st: Style, kind: Seq<char>, at: int)
    requires
        st.fits(),
        text::stands_at(t, st.closing(kind), at),
    ensures
        web_tools::close_end(t, at, kind) == Some(at + st.closing(kind).len()),
{
    let prefix = "</｜DSML｜"@ + kind;
    let n = at + prefix.len();
    lemma_split(t, prefix + st.slack(), seq!['>'], at);
    lemma_split(t, prefix, st.slack(), at);
    let g = n + st.slack().len();
    lemma_chars(t, seq!['>'], g);
    assert(t[g] == seq!['>'][0]);
    let bar = if st.bar {
        seq!['｜']
    } else {
        Seq::<char>::empty()
    };
    lemma_split(t, st.before_bar + bar, st.behind_bar, n);
    lemma_split(t, st.before_bar, bar, n);
    if st.bar {
        let b = n + st.before_bar.len();
        lemma_chars(t, bar, b);
        assert(t[b] == bar[0]);
        lemma_skip_white(t, st.before_bar, n);
        lemma_skip_white(t, st.behind_bar, b + 1);
    } else {
        let w = st.before_bar + st.behind_bar;
        assert(st.slack() =~= w);
        assert(white(w));
        lemma_skip_white(t, w, n);
        lemma_skip(t, g, g);
    }
}

/// What begins as an opening tag is no closing tag.
proof fn lemma_not_closing(t: Seq<char>, kind: Seq<char>, at: int)
    requires
        0 <= at,
        at + 1 < t.len(),
        t[at + 1] != '/',
    ensures
        web_tools::close_end(t, at, kind) is None,
{
    reveal_strlit("</｜DSML｜");
    let prefix = "</｜DSML｜"@ + kind;
    if text::stands_at(t, prefix, at) {
        lemma_chars(t, prefix, at);
        assert(prefix[1] == '/');
    }
}

/// The closing tag of an invocation is none of a block.
proof fn lemma_other_closing(t: Seq<char>, st: Style, at: int)
    requires
        text::stands_at(t, st.closing("invoke"@), at),
    ensures
        web_tools::close_end(t, at, "tool_calls"@) is None,
{
    reveal_strlit("</｜DSML｜");
    reveal_strlit("invoke");
    reveal_strlit("tool_calls");
    let prefix = "</｜DSML｜"@ + "tool_calls"@;
    lemma_chars(t, st.closing("invoke"@), at);
    assert(st.closing("invoke"@)[8] == 'i');
    if text::stands_at(t, prefix, at) {
        lemma_chars(t, prefix, at);
        assert(prefix[8] == 't');
    }
}

proof fn lemma_first_stand(t: Seq<char>, p: Seq<char>, from: int, k: int)
    requires
        0 <= from <= k,
        text::stands_at(t, p, k),
        forall|j: int| from <= j < k ==> !text::stands_at(t, p, j),
    ensures
        text::first_stand(t, p, from) == Some(k),
    decreases k - from,
{
    if from < k {
        lemma_first_stand(t, p, from + 1, k);
    }
}

proof fn lemma_first_char(t: Seq<char>, p: Seq<char>, from: int, k: int)
    requires
        p.len() == 1,
        0 <= from <= k < t.len(),
        t[k] == p[0],
        forall|j: int| from <= j < k ==> #[trigger] t[j] != p[0],
    ensures
        text::first_stand(t, p, from) == Some(k),
{
    assert(t.subrange(k, k + 1) =~= p);
    assert forall|j: int| from <= j < k implies !text::stands_at(t, p, j) by {
        if text::stands_at(t, p, j) {
            lemma_chars(t, p, j);
            assert(t[j] == p[0]);
        }
    }
    lemma_first_stand(t, p, from, k);
}

/// The two kinds of tags that open, with the place of the first letter in which
/// they differ.
spec fn opens(kind: Seq<char>) -> bool {
    kind == "invoke"@ || kind == "parameter"@
}

proof fn lemma_front(kind: Seq<char>)
    requires
        opens(kind),
    ensures
        ({
            let front = "<｜DSML｜"@ + kind + " name=\""@;
            &&& kind.len() >= 6
            &&& front.len() == kind.len() + 14
            &&& front[0] == '<'
            &&& front[1] == '｜'
            &&& forall|j: int| 0 <= j < front.len() ==> #[trigger] front[j] != '>'
            &&& forall|j: int|
                0 <= j < kind.len() + 8 ==> !(#[trigger] front[j] == 'n' && front[j + 1] == 'a')
            &&& front.subrange(kind.len() as int + 8, kind.len() as int + 14) == "name"@ + "=\""@
        }),
{
    reveal_strlit("<｜DSML｜");
    reveal_strlit("invoke");
    reveal_strlit("parameter");
    reveal_strlit(" name=\"");
    reveal_strlit("name");
    reveal_strlit("=\"");
    let front = "<｜DSML｜"@ + kind + " name=\""@;
    assert(front.subrange(kind.len() as int + 8, kind.len() as int + 14) =~= "name"@ + "=\""@);
}

proof fn lemma_opening_text(st: Style, kind: Seq<char>, name: Seq<char>)
    requires
        st.fits(),
        opens(kind),
        quotable(name),
    ensures
        ({
            let tag = st.opening(kind, name);
            &&& tag.len() == kind.len() + 14 + name.len() + 1 + st.extra.len() + 1
            &&& tag[0] == '<'
            &&& tag[1] == '｜'
            &&& tag.last() == '>'
            &&& forall|j: int| 0 <= j < tag.len() - 1 ==> #[trigger] tag[j] != '>'
            &&& web_tools::attribute(tag, "name"@) == Some(name)
            &&& text::stands_at(tag, "<｜DSML｜"@ + kind, 0)
        }),
{
    let tag = st.opening(kind, name);
    let front = "<｜DSML｜"@ + kind + " name=\""@;
    let named = front + name;
    let quoted = named + seq!['"'];
    let body = quoted + st.extra;
    lemma_front(kind);
    assert(tag =~= body + seq!['>']);
    assert(body.len() == tag.len() - 1);
    assert forall|j: int| 0 <= j < tag.len() - 1 implies #[trigger] tag[j] != '>' by {
        assert(tag[j] == body[j]);
        if j < front.len() {
            assert(tag[j] == front[j]);
        } else if j < named.len() {
            assert(tag[j] == name[j - front.len()]);
        } else if j < quoted.len() {
            assert(tag[j] == '"');
        } else {
            assert(tag[j] == st.extra[j - quoted.len()]);
        }
    }
    let pattern = "name"@ + "=\""@;
    let k = kind.len() as int + 8;
    reveal_strlit("name");
    reveal_strlit("=\"");
    reveal_strlit("\"");
    assert(tag.subrange(k, k + 6) =~= front.subrange(k, k + 6));
    assert(text::stands_at(tag, pattern, k));
    assert forall|j: int| 0 <= j < k implies !text::stands_at(tag, pattern, j) by {
        if text::stands_at(tag, pattern, j) {
            lemma_chars(tag, pattern, j);
            assert(pattern[0] == 'n' && pattern[1] == 'a');
            assert(tag[j] == front[j] && tag[j + 1] == front[j + 1]);
        }
    }
    lemma_first_stand(tag, pattern, 0, k);
    let q = k + 6 + name.len();
    assert(tag[q] == '"');
    assert forall|j: int| k + 6 <= j < q implies #[trigger] tag[j] != '"' by {
        assert(tag[j] == name[j - front.len()]);
    }
    lemma_first_char(tag, "\""@, k + 6, q);
    assert(tag.subrange(k + 6, q) =~= name);
    assert(tag.subrange(0, ("<｜DSML｜"@ + kind).len() as int) =~= "<｜DSML｜"@ + kind);
}

/// The opening tag at `at` is read as it was written.
proof fn lemma_opening(t: Seq<char>, st: Style, kind: Seq<char>, name: Seq<char>, at: int)
    requires
        st.fits(),
        opens(kind),
        quotable(name),
        text::stands_at(t, st.opening(kind, name), at),
    ensures
        ({
            let end = at + st.opening(kind, name).len();
            &&& text::first_stand(t, ">"@, at) == Some(end - 1)
            &&& t.subrange(at, end) == st.opening(kind, name)
            &&& web_tools::attribute(t.subrange(at, end), "name"@) == Some(name)
            &&& text::stands_at(t.subrange(at, end), "<｜DSML｜"@ + kind, 0)
            &&& web_tools::close_end(t, at, "tool_calls"@) is None
            &&& web_tools::close_end(t, at, "invoke"@) is None
        }),
{
    let tag = st.opening(kind, name);
    let end = at + tag.len();
    lemma_opening_text(st, kind, name);
    lemma_chars(t, tag, at);
    reveal_strlit(">");
    assert(t[end - 1] == tag[tag.len() - 1]);
    assert forall|j: int| at <= j < end - 1 implies #[trigger] t[j] != '>' by {
        assert(t[j] == tag[j - at]);
    }
    lemma_first_char(t, ">"@, at, end - 1);
    assert(t[at + 1] == tag[1]);
    lemma_not_closing(t, "tool_calls"@, at);
    lemma_not_closing(t, "invoke"@, at);
}

proof fn lemma_first_close(t: Seq<char>, from: int, k: int, e: int)
    requires
        0 <= from <= k < t.len(),
        web_tools::close_end(t, k, "parameter"@) == Some(e),
        forall|j: int|
            from <= j < k ==> (#[trigger] web_tools::close_end(t, j, "parameter"@)) is None,
    ensures
        web_tools::first_close(t, from, "parameter"@) == Some((k, e)),
    decreases k - from,
{
    if from < k {
        lemma_first_close(t, from + 1, k, e);
    }
}

/// Within the span of white space that is skipped from `at` on there is nothing
/// else.
proof fn lemma_skipped(t: Seq<char>, at: int)
    requires
        0 <= at <= t.len(),
    ensures
        at <= web_tools::after_space(t, at) <= t.len(),
        forall|i: int|
            at <= i < web_tools::after_space(t, at) ==> text::is_ascii_space(#[trigger] t[i]),
    decreases t.len() - at,
{
    if at < t.len() && text::is_ascii_space(t[at]) {
        lemma_skipped(t, at + 1);
    }
}

/// No closing tag begins within a value that holds none, though more stands
/// behind it.
proof fn lemma_value_is_open(t: Seq<char>, v: Seq<char>, from: int, j: int)
    requires
        text::stands_at(t, v, from),
        !holds_close(v),
        from <= j < from + v.len(),
        from + v.len() < t.len(),
        t[from + v.len()] == '<',
    ensures
        web_tools::close_end(t, j, "parameter"@) is None,
{
    reveal_strlit("</｜DSML｜");
    reveal_strlit("parameter");
    reveal_strlit("</｜DSML｜parameter");
    let prefix = "</｜DSML｜"@ + "parameter"@;
    let e = from + v.len();
    assert(prefix =~= "</｜DSML｜parameter"@);
    lemma_chars(t, v, from);
    if web_tools::close_end(t, j, "parameter"@) is Some {
        lemma_chars(t, prefix, j);
        assert forall|k: int| 0 < k < 17 implies #[trigger] prefix[k] != '<' by {}
        if j + 17 > e {
            assert(prefix[e - j] == t[j + (e - j)]);
        }
        lemma_skipped(t, j + 17);
        let a = web_tools::after_space(t, j + 17);
        let a2 = if a < t.len() && t[a] == '｜' {
            a + 1
        } else {
            a
        };
        lemma_skipped(t, a2);
        let b = web_tools::after_space(t, a2);
        assert(t[b] == '>');
        assert(a <= e) by {
            if a > e {
                assert(text::is_ascii_space(t[e]));
            }
        }
        assert(a2 <= e);
        assert(b <= e) by {
            if b > e {
                assert(text::is_ascii_space(t[e]));
            }
        }
        let lo = j - from;
        let hi = b - from;
        assert(v[hi] == t[b]);
        assert(v.subrange(lo, lo + 17) =~= prefix) by {
            assert forall|k: int| 0 <= k < 17 implies v.subrange(lo, lo + 17)[k] == prefix[k] by {
                assert(t[j + k] == v[j + k - from]);
            }
        }
        assert forall|i: int| lo + 17 <= i < hi implies (#[trigger] v[i] == ' ' || v[i] == '\t'
            || v[i] == '\n' || v[i] == '\x0c' || v[i] == '\r' || v[i] == '｜') by {
            assert(v[i] == t[from + i]);
        }
        assert(v[lo] == t[j]);
        assert(holds_close(v));
    }
}

/// One argument is read as it was written.
proof fn lemma_argument(
    t: Seq<char>,
    st: Style,
    arg: (Seq<char>, Seq<char>),
    at: int,
    open: Call,
    calls: Seq<Call>,
)
    requires
        st.fits(),
        quotable(arg.0),
        !holds_close(arg.1),
        text::stands_at(t, st.argument(arg), at),
    ensures
        web_tools::calls_from(t, at, Some(open), calls) == web_tools::calls_from(
            t,
            at + st.argument(arg).len(),
            Some(Call { args: open.args.push(arg), ..open }),
            calls,
        ),
{
    let tag = st.opening("parameter"@, arg.0);
    let close = st.closing("parameter"@);
    lemma_split(t, st.gap + tag + arg.1, close, at);
    lemma_split(t, st.gap + tag, arg.1, at);
    lemma_split(t, st.gap, tag, at);
    let a = at + st.gap.len();
    let end = a + tag.len();
    let k = end + arg.1.len();
    lemma_opening_text(st, "parameter"@, arg.0);
    lemma_chars(t, tag, a);
    assert(t[a] == tag[0]);
    lemma_skip_white(t, st.gap, at);
    lemma_opening(t, st, "parameter"@, arg.0, a);
    reveal_strlit("</｜DSML｜");
    lemma_chars(t, close, k);
    assert(close[0] == '<');
    assert(t[k] == close[0]);
    lemma_closing(t, st, "parameter"@, k);
    assert forall|j: int| end <= j < k implies (#[trigger] web_tools::close_end(
        t,
        j,
        "parameter"@,
    )) is None by {
        lemma_value_is_open(t, arg.1, end, j);
    }
    lemma_first_close(t, end, k, k + close.len());
    assert(t.subrange(end, k) =~= arg.1);
    lemma_not_invoke(t.subrange(a, end));
    lemma_same_tag();
}

proof fn lemma_same_tag()
    ensures
        "<｜DSML｜"@ + "invoke"@ == "<｜DSML｜invoke"@,
        "<｜DSML｜"@ + "parameter"@ == "<｜DSML｜parameter"@,
{
    reveal_strlit("<｜DSML｜");
    reveal_strlit("invoke");
    reveal_strlit("parameter");
    reveal_strlit("<｜DSML｜invoke");
    reveal_strlit("<｜DSML｜parameter");
    assert("<｜DSML｜"@ + "invoke"@ =~= "<｜DSML｜invoke"@);
    assert("<｜DSML｜"@ + "parameter"@ =~= "<｜DSML｜parameter"@);
}

proof fn lemma_not_invoke(tag: Seq<char>)
    requires
        text::stands_at(tag, "<｜DSML｜"@ + "parameter"@, 0),
    ensures
        !text::stands_at(tag, "<｜DSML｜invoke"@, 0),
{
    reveal_strlit("<｜DSML｜");
    reveal_strlit("parameter");
    reveal_strlit("<｜DSML｜invoke");
    let p = "<｜DSML｜"@ + "parameter"@;
    lemma_chars(tag, p, 0);
    assert(p[7] == 'p');
    if text::stands_at(tag, "<｜DSML｜invoke"@, 0) {
        lemma_chars(tag, "<｜DSML｜invoke"@, 0);
        assert("<｜DSML｜invoke"@[7] == 'i');
    }
}

proof fn lemma_arguments(
    t: Seq<char>,
    st: Style,
    c: Call,
    n: nat,
    at: int,
    calls: Seq<Call>,
)
    requires
        st.fits(),
        writable(c),
        n <= c.args.len(),
        text::stands_at(t, st.arguments(c.args, n), at),
    ensures
        web_tools::calls_from(t, at, Some(Call { name: c.name, args: seq![] }), calls)
            == web_tools::calls_from(
            t,
            at + st.arguments(c.args, n).len(),
            Some(Call { name: c.name, args: c.args.take(n as int) }),
            calls,
        ),
    decreases n,
{
    if n == 0 {
        assert(c.args.take(0) =~= seq![]);
    } else {
        let m = (n - 1) as nat;
        let arg = c.args[n - 1];
        lemma_split(t, st.arguments(c.args, m), st.argument(arg), at);
        lemma_arguments(t, st, c, m, at, calls);
        let open = Call { name: c.name, args: c.args.take(m as int) };
        lemma_argument(t, st, arg, at + st.arguments(c.args, m).len(), open, calls);
        assert(c.args.take(m as int).push(arg) =~= c.args.take(n as int));
    }
}

/// One call is read as it was written.
#[verifier::rlimit(40)]
proof fn lemma_call(t: Seq<char>, st: Style, c: Call, at: int, calls: Seq<Call>)
    requires
        st.fits(),
        writable(c),
        text::stands_at(t, st.call(c), at),
    ensures
        web_tools::calls_from(t, at, None, calls) == web_tools::calls_from(
            t,
            at + st.call(c).len(),
            None,
            calls.push(c),
        ),
{
    let tag = st.opening("invoke"@, c.name);
    let args = st.arguments(c.args, c.args.len());
    let close = st.closing("invoke"@);
    lemma_split(t, st.gap + tag + args + st.gap, close, at);
    lemma_split(t, st.gap + tag + args, st.gap, at);
    lemma_split(t, st.gap + tag, args, at);
    lemma_split(t, st.gap, tag, at);
    let a = at + st.gap.len();
    let end = a + tag.len();
    lemma_opening_text(st, "invoke"@, c.name);
    lemma_chars(t, tag, a);
    assert(t[a] == tag[0]);
    lemma_skip_white(t, st.gap, at);
    lemma_opening(t, st, "invoke"@, c.name, a);
    lemma_same_tag();
    lemma_arguments(t, st, c, c.args.len(), end, calls);
    assert(c.args.take(c.args.len() as int) =~= c.args);
    let b = end + args.len();
    let k = b + st.gap.len();
    reveal_strlit("</｜DSML｜");
    lemma_chars(t, close, k);
    assert(close[0] == '<');
    assert(t[k] == close[0]);
    lemma_skip_white(t, st.gap, b);
    lemma_closing(t, st, "invoke"@, k);
    lemma_other_closing(t, st, k);
    assert(Call { name: c.name, args: c.args } == c);
}

proof fn lemma_calls(t: Seq<char>, st: Style, calls: Seq<Call>, n: nat, at: int)
    requires
        st.fits(),
        forall|i: int| 0 <= i < calls.len() ==> writable(#[trigger] calls[i]),
        n <= calls.len(),
        text::stands_at(t, st.calls(calls, n), at),
    ensures
        web_tools::calls_from(t, at, None, seq![]) == web_tools::calls_from(
            t,
            at + st.calls(calls, n).len(),
            None,
            calls.take(n as int),
        ),
    decreases n,
{
    if n == 0 {
        assert(calls.take(0) =~= seq![]);
    } else {
        let m = (n - 1) as nat;
        lemma_split(t, st.calls(calls, m), st.call(calls[n - 1]), at);
        lemma_calls(t, st, calls, m, at);
        lemma_call(
            t,
            st,
            calls[n - 1],
            at + st.calls(calls, m).len(),
            calls.take(m as int),
        );
        assert(calls.take(m as int).push(calls[n - 1]) =~= calls.take(n as int));
    }
}

/// Calls that are written in tags are read back as they were, each name and
/// each value character for character, whatever stands behind the block.
pub proof fn law_calls_round_trip(st: Style, calls: Seq<Call>, behind: Seq<char>)
    requires
        st.fits(),
        forall|i: int| 0 <= i < calls.len() ==> writable(#[trigger] calls[i]),
    ensures
        web_tools::calls_from(st.block(calls) + behind, 0, None, seq![]) == Ok::<
            Seq<Call>,
            Seq<char>,
        >(calls),
{
    let t = st.block(calls) + behind;
    let written = st.calls(calls, calls.len());
    let close = st.closing("tool_calls"@);
    assert(t.subrange(0, st.block(calls).len() as int) =~= st.block(calls));
    lemma_split(t, written + st.gap, close, 0);
    lemma_split(t, written, st.gap, 0);
    lemma_calls(t, st, calls, calls.len(), 0);
    assert(calls.take(calls.len() as int) =~= calls);
    let b = written.len() as int;
    let k = b + st.gap.len();
    reveal_strlit("</｜DSML｜");
    lemma_chars(t, close, k);
    assert(close[0] == '<');
    assert(t[k] == close[0]);
    lemma_skip_white(t, st.gap, b);
    lemma_closing(t, st, "tool_calls"@, k);
}

proof fn lemma_some_close(t: Seq<char>, name: Seq<char>, from: int, k: int)
    requires
        0 <= from <= k < t.len(),
        web_tools::close_end(t, k, name) is Some,
    ensures
        web_tools::first_close(t, from, name) is Some,
    decreases k - from,
{
    if from < k && web_tools::close_end(t, from, name) is None {
        lemma_some_close(t, name, from + 1, k);
    }
}

proof fn lemma_no_close(t: Seq<char>, name: Seq<char>, from: int)
    requires
        forall|j: int| !text::stands_at(t, "</｜DSML｜"@ + name, j),
    ensures
        web_tools::first_close(t, from, name) is None,
    decreases t.len() - from,
{
    if 0 <= from < t.len() {
        assert(!text::stands_at(t, "</｜DSML｜"@ + name, from));
        lemma_no_close(t, name, from + 1);
    }
}

/// The two spellings of the opening tag begin differently.
proof fn lemma_openers_differ()
    ensures
        encode_utf8("<｜DSML｜tool_calls>"@).len() > 1,
        encode_utf8("<DSML｜tool_calls>"@).len() > 1,
        encode_utf8("<｜DSML｜tool_calls>"@)[1] != encode_utf8("<DSML｜tool_calls>"@)[1],
{
    reveal_strlit("<｜DSML｜tool_calls>");
    reveal_strlit("<DSML｜tool_calls>");
    let full = "<｜DSML｜tool_calls>"@;
    let bare = "<DSML｜tool_calls>"@;
    encode_utf8_first_scalar(full);
    encode_utf8_first_scalar(bare);
    encode_utf8_first_scalar(full.drop_first());
    encode_utf8_first_scalar(bare.drop_first());
    assert(encode_scalar('<' as u32) =~= seq![0x3cu8]) by {
        assert(0x3cu32 & 0x7f == 0x3c) by (bit_vector);
    }
    assert(encode_scalar('D' as u32) =~= seq![0x44u8]) by {
        assert(0x44u32 & 0x7f == 0x44) by (bit_vector);
    }
    let bar = encode_scalar('｜' as u32);
    assert(bar.len() == 3 && bar[0] == 0xef) by {
        assert(0xff5cu32 >> 12 == 0xf) by (bit_vector);
        assert(0xe0u8 | (0xfu32 & 0xf) as u8 == 0xef) by (bit_vector);
        assert(0xe0u8 | 0xfu8 == 0xef) by (bit_vector);
        assert((0xff5cu32 >> 12) & 0xf == 0xf) by (bit_vector);
        assert(0xff5cu32 & 0xf000 == 0xf000) by (bit_vector);
        assert(0xf000u32 >> 12 == 0xf) by (bit_vector);
    }
    assert(encode_utf8(full) =~= seq![0x3cu8] + encode_utf8(full.drop_first()));
    assert(encode_utf8(bare) =~= seq![0x3cu8] + encode_utf8(bare.drop_first()));
}

/// The opening tag of a block, with or without its first bar.
pub open spec fn opening_tag(bare: bool) -> Seq<char> {
    if bare {
        "<DSML｜tool_calls>"@
    } else {
        "<｜DSML｜tool_calls>"@
    }
}

/// A reply: some bytes, the opening tag of a block, and the text behind it.
pub open spec fn reply(front: Seq<u8>, bare: bool, t: Seq<char>) -> Seq<u8> {
    front + encode_utf8(opening_tag(bare)) + encode_utf8(t)
}

/// No block opens among the first `n` bytes of `raw`.
pub open spec fn opens_late(raw: Seq<u8>, n: int) -> bool {
    forall|bare: bool, j: int|
        0 <= j < n ==> !(#[trigger] bytes::occurs_at(raw, encode_utf8(opening_tag(bare)), j))
}

/// What stands around `open`.
proof fn lemma_around(raw: Seq<u8>, front: Seq<u8>, open: Seq<u8>, rest: Seq<u8>)
    requires
        raw == front + open + rest,
    ensures
        bytes::occurs_at(raw, open, front.len() as int),
        raw.subrange(0, front.len() as int) == front,
        raw.subrange(front.len() as int + open.len(), raw.len() as int) == rest,
{
    let at = front.len() as int;
    assert(raw.subrange(at, at + open.len()) =~= open);
    assert(raw.subrange(0, at) =~= front);
    assert(raw.subrange(at + open.len(), raw.len() as int) =~= rest);
}

/// `open` is the first of two tags that differ in their second byte.
proof fn lemma_starts(raw: Seq<u8>, open: Seq<u8>, other: Seq<u8>, at: int)
    requires
        0 <= at,
        bytes::occurs_at(raw, open, at),
        open.len() > 1,
        other.len() > 1,
        open[1] != other[1],
        forall|j: int| 0 <= j < at ==> !(#[trigger] bytes::occurs_at(raw, open, j)),
        forall|j: int| 0 <= j < at ==> !(#[trigger] bytes::occurs_at(raw, other, j)),
    ensures
        bytes::first_at(raw, open, 0) == Some(at),
        bytes::first_at(raw, other, 0) matches Some(k) ==> k > at,
{
    bytes::lemma_first_at(raw, open, 0);
    bytes::lemma_first_at(raw, other, 0);
    if bytes::occurs_at(raw, other, at) {
        assert(raw.subrange(at, at + other.len())[1] == raw[at + 1]);
        assert(raw.subrange(at, at + open.len())[1] == raw[at + 1]);
    }
}

/// Where the block of a reply opens, and what stands around its opening tag.
proof fn lemma_reply(front: Seq<u8>, bare: bool, t: Seq<char>)
    requires
        valid_utf8(front),
        opens_late(reply(front, bare, t), front.len() as int),
    ensures
        ({
            let raw = reply(front, bare, t);
            let n = encode_utf8(opening_tag(bare)).len() as int;
            &&& web_tools::block_start(raw) == Some((front.len() as int, n))
            &&& valid_utf8(raw)
            &&& raw.subrange(0, front.len() as int) == front
            &&& decode_utf8(raw.subrange(front.len() + n, raw.len() as int)) == t
        }),
{
    let raw = reply(front, bare, t);
    let open = encode_utf8(opening_tag(bare));
    let other = encode_utf8(opening_tag(!bare));
    lemma_openers_differ();
    lemma_around(raw, front, open, encode_utf8(t));
    lemma_starts(raw, open, other, front.len() as int);
    encode_utf8_valid_utf8(opening_tag(bare));
    encode_utf8_valid_utf8(t);
    valid_utf8_concat(front, open);
    valid_utf8_concat(front + open, encode_utf8(t));
    encode_utf8_decode_utf8(t);
}

/// A reply that ends in a written block is read as the text in front of it,
/// byte for byte, and the calls as they were written, whichever way its opening
/// tag is spelled. The block is whole.
pub proof fn law_block_round_trip(
    front: Seq<u8>,
    bare: bool,
    st: Style,
    calls: Seq<Call>,
    behind: Seq<char>,
)
    requires
        st.fits(),
        forall|i: int| 0 <= i < calls.len() ==> writable(#[trigger] calls[i]),
        valid_utf8(front),
        opens_late(reply(front, bare, st.block(calls) + behind), front.len() as int),
    ensures
        ({
            let raw = reply(front, bare, st.block(calls) + behind);
            &&& web_tools::block_of(raw) == Ok::<(Seq<u8>, Seq<Call>), Seq<char>>((front, calls))
            &&& web_tools::block_start(raw) is Some
            &&& web_tools::complete(raw)
        }),
{
    let t = st.block(calls) + behind;
    lemma_reply(front, bare, t);
    law_calls_round_trip(st, calls, behind);
    let written = st.calls(calls, calls.len());
    let k = written.len() as int + st.gap.len();
    assert(t.subrange(0, st.block(calls).len() as int) =~= st.block(calls));
    lemma_split(t, written + st.gap, st.closing("tool_calls"@), 0);
    lemma_closing(t, st, "tool_calls"@, k);
    lemma_some_close(t, "tool_calls"@, 0, k);
}

/// A block is not whole before its closing tag has come.
pub proof fn law_open_block_is_not_whole(front: Seq<u8>, bare: bool, t: Seq<char>)
    requires
        valid_utf8(front),
        opens_late(reply(front, bare, t), front.len() as int),
        forall|j: int|
            0 <= j && j + 18 <= t.len() ==> #[trigger] t.subrange(j, j + 18)
                != "</｜DSML｜tool_calls"@,
    ensures
        !web_tools::complete(reply(front, bare, t)),
{
    lemma_reply(front, bare, t);
    reveal_strlit("</｜DSML｜");
    reveal_strlit("tool_calls");
    reveal_strlit("</｜DSML｜tool_calls");
    let p = "</｜DSML｜"@ + "tool_calls"@;
    assert(p =~= "</｜DSML｜tool_calls"@);
    assert forall|j: int| !text::stands_at(t, p, j) by {
        if text::stands_at(t, p, j) {
            assert(t.subrange(j, j + 18) == p);
        }
    }
    lemma_no_close(t, "tool_calls"@, 0);
}

} // verus!
