//! Printing generated text: the thinking tags are hidden, and where colour is
//! on the thinking between them is grey.
//!
//! Text comes in pieces that may split a tag, so the printer holds back an
//! unfinished tag until the next piece decides about it.

use crate::bytes;
use crate::bytes::matches_at;
use vstd::prelude::*;
use vstd::slice::slice_subrange;
use vstd::string::*;
use vstd::utf8::*;

verus! {

/// The tag that opens the thinking.
pub open spec fn think_open() -> Seq<u8> {
    encode_utf8("<think>"@)
}

/// The tag that closes the thinking.
pub open spec fn think_close() -> Seq<u8> {
    encode_utf8("</think>"@)
}

/// Turns grey on.
pub open spec fn grey() -> Seq<u8> {
    encode_utf8("\x1b[90m"@)
}

/// Turns colour off.
pub open spec fn reset() -> Seq<u8> {
    encode_utf8("\x1b[0m"@)
}

pub const NEWLINE: u8 = 0x0a;

/// The bytes of the two tags: neither begins the other, and both begin with
/// `<`.
pub proof fn lemma_tags()
    ensures
        think_open() == seq![0x3cu8, 0x74, 0x68, 0x69, 0x6e, 0x6b, 0x3e],
        think_close() == seq![0x3cu8, 0x2f, 0x74, 0x68, 0x69, 0x6e, 0x6b, 0x3e],
{
    reveal_strlit("<think>");
    reveal_strlit("</think>");
    is_ascii_chars_encode_utf8("<think>"@);
    is_ascii_chars_encode_utf8("</think>"@);
    assert(think_open() =~= seq![0x3cu8, 0x74, 0x68, 0x69, 0x6e, 0x6b, 0x3e]);
    assert(think_close() =~= seq![0x3cu8, 0x2f, 0x74, 0x68, 0x69, 0x6e, 0x6b, 0x3e]);
}

/// What the printer remembers of what it has written.
pub struct Pen {
    /// The text is within the thinking.
    pub in_think: bool,
    /// Grey is on.
    pub color_open: bool,
    /// The last byte written ended a line.
    pub at_newline: bool,
}

/// What a scan of text comes to: the bytes written, the pen after them, and
/// the unfinished tag that is held back.
pub struct Scan {
    pub out: Seq<u8>,
    pub pen: Pen,
    pub pending: Seq<u8>,
}

/// `s` is the beginning of a tag, and not all of it.
pub open spec fn unfinished_tag(s: Seq<u8>) -> bool {
    &&& s.len() > 0
    &&& (s.len() < think_open().len() && s == think_open().take(s.len() as int)) || (s.len()
        < think_close().len() && s == think_close().take(s.len() as int))
}

/// What the closing tag writes: colour off, and a line break unless the line
/// has ended.
pub open spec fn close_bytes(pen: Pen) -> Seq<u8> {
    (if pen.color_open {
        reset()
    } else {
        seq![]
    }) + (if pen.at_newline {
        seq![]
    } else {
        seq![NEWLINE]
    })
}

/// What the byte `c` writes: grey in front of the first byte of thinking.
pub open spec fn char_bytes(pen: Pen, use_color: bool, c: u8) -> Seq<u8> {
    (if pen.in_think && use_color && !pen.color_open {
        grey()
    } else {
        seq![]
    }).push(c)
}

/// The pen after the byte `c`.
pub open spec fn pen_after(pen: Pen, use_color: bool, c: u8) -> Pen {
    Pen {
        color_open: pen.color_open || (pen.in_think && use_color),
        at_newline: c == NEWLINE,
        ..pen
    }
}

/// `first`, then what `s` writes.
pub open spec fn then_scan(first: Seq<u8>, s: Scan) -> Scan {
    Scan { out: first + s.out, ..s }
}

/// The scan of `text` with the pen `pen`. An unfinished tag at the end is held
/// back unless this is the `last` of the text.
pub open spec fn scan(pen: Pen, use_color: bool, text: Seq<u8>, last: bool) -> Scan
    decreases text.len(),
    via scan_decreases
{
    if text.len() == 0 {
        Scan { out: seq![], pen, pending: seq![] }
    } else if bytes::occurs_at(text, think_open(), 0) {
        scan(Pen { in_think: true, ..pen }, use_color, text.skip(think_open().len() as int), last)
    } else if bytes::occurs_at(text, think_close(), 0) {
        then_scan(
            close_bytes(pen),
            scan(
                Pen { in_think: false, color_open: false, at_newline: true },
                use_color,
                text.skip(think_close().len() as int),
                last,
            ),
        )
    } else if !last && unfinished_tag(text) {
        Scan { out: seq![], pen, pending: text }
    } else {
        then_scan(
            char_bytes(pen, use_color, text[0]),
            scan(pen_after(pen, use_color, text[0]), use_color, text.skip(1), last),
        )
    }
}

#[via_fn]
proof fn scan_decreases(pen: Pen, use_color: bool, text: Seq<u8>, last: bool) {
    lemma_tags();
}

/// The last of a text holds nothing back.
pub proof fn law_last_holds_nothing_back(pen: Pen, use_color: bool, text: Seq<u8>)
    ensures
        scan(pen, use_color, text, true).pending.len() == 0,
    decreases text.len(),
{
    lemma_tags();
    if text.len() == 0 {
    } else if bytes::occurs_at(text, think_open(), 0) {
        law_last_holds_nothing_back(
            Pen { in_think: true, ..pen },
            use_color,
            text.skip(think_open().len() as int),
        );
    } else if bytes::occurs_at(text, think_close(), 0) {
        law_last_holds_nothing_back(
            Pen { in_think: false, color_open: false, at_newline: true },
            use_color,
            text.skip(think_close().len() as int),
        );
    } else {
        law_last_holds_nothing_back(
            pen_after(pen, use_color, text[0]),
            use_color,
            text.skip(1),
        );
    }
}

/// A printer of generated text.
pub struct TokenPrinter {
    pub format_thinking: bool,
    pub in_think: bool,
    pub color_open: bool,
    pub use_color: bool,
    pub pending: Vec<u8>,
    pub last_output_newline: bool,
}

fn push_bytes(out: &mut Vec<u8>, s: &[u8])
    ensures
        final(out)@ == old(out)@ + s@,
{
    let mut i: usize = 0;
    let ghost start = out@;
    while i < s.len()
        invariant
            i <= s@.len(),
            out@ == start + s@.take(i as int),
        decreases s@.len() - i,
    {
        out.push(s[i]);
        assert(s@.take(i + 1) =~= s@.take(i as int).push(s@[i as int]));
        i += 1;
    }
    assert(s@.take(i as int) =~= s@);
}

/// Whether `s[i..]` is the beginning of the tag `tag`, and not all of it.
fn begins_tag(s: &[u8], i: usize, tag: &[u8]) -> (r: bool)
    requires
        i <= s@.len(),
    ensures
        r == (s@.len() - i < tag@.len() && s@.skip(i as int) == tag@.take(s@.len() - i)),
{
    let n: usize = s.len() - i;
    if n >= tag.len() {
        return false;
    }
    let r = matches_at(s, slice_subrange(tag, 0, n), i);
    proof {
        assert(s@.subrange(i as int, i + n) =~= s@.skip(i as int));
        assert(tag@.subrange(0, n as int) =~= tag@.take(n as int));
    }
    r
}

impl TokenPrinter {
    pub open spec fn pen(self) -> Pen {
        Pen {
            in_think: self.in_think,
            color_open: self.color_open,
            at_newline: self.last_output_newline,
        }
    }

    /// Grey is on only where colour is.
    pub open spec fn well_formed(self) -> bool {
        self.color_open ==> self.use_color
    }

    /// A printer without colour.
    pub fn new(format_thinking: bool) -> (r: TokenPrinter)
        ensures
            r.well_formed(),
            r.format_thinking == format_thinking,
            !r.use_color,
            r.pen() == (Pen { in_think: format_thinking, color_open: false, at_newline: true }),
            r.pending@.len() == 0,
    {
        TokenPrinter::with_color(format_thinking, false)
    }

    /// A printer that greys the thinking where `use_color`. The text starts
    /// within the thinking.
    pub fn with_color(format_thinking: bool, use_color: bool) -> (r: TokenPrinter)
        ensures
            r.well_formed(),
            r.format_thinking == format_thinking,
            r.use_color == use_color,
            r.pen() == (Pen { in_think: format_thinking, color_open: false, at_newline: true }),
            r.pending@.len() == 0,
    {
        TokenPrinter {
            format_thinking,
            in_think: format_thinking,
            color_open: false,
            use_color,
            pending: Vec::new(),
            last_output_newline: true,
        }
    }

    /// The scan that writing `text` makes: without formatting the text passes
    /// as it is.
    pub open spec fn written(self, text: Seq<u8>) -> Scan {
        if self.format_thinking {
            scan(self.pen(), self.use_color, self.pending@ + text, false)
        } else {
            Scan {
                out: text,
                pen: Pen {
                    at_newline: if text.len() > 0 {
                        text.last() == NEWLINE
                    } else {
                        self.last_output_newline
                    },
                    ..self.pen()
                },
                pending: self.pending@,
            }
        }
    }

    /// The printer after the scan `s`.
    pub open spec fn moved_to(self, s: Scan, after: TokenPrinter) -> bool {
        &&& after.format_thinking == self.format_thinking
        &&& after.use_color == self.use_color
        &&& after.pen() == s.pen
        &&& after.pending@ == s.pending
    }

    /// Appends to `out` what the next piece of text writes.
    pub fn write_text(&mut self, out: &mut Vec<u8>, text: &[u8])
        requires
            old(self).well_formed(),
        ensures
            final(self).well_formed(),
            final(out)@ == old(out)@ + old(self).written(text@).out,
            old(self).moved_to(old(self).written(text@), *final(self)),
    {
        if !self.format_thinking {
            push_bytes(out, text);
            if text.len() > 0 {
                self.last_output_newline = text[text.len() - 1] == NEWLINE;
            }
            return;
        }
        self.process(out, text, false);
    }

    /// What ending the text writes: what was held back, colour off, and a line
    /// break unless the line has ended.
    pub open spec fn finished(self) -> Seq<u8> {
        let s = scan(self.pen(), self.use_color, self.pending@, true);
        if self.format_thinking {
            s.out + close_bytes(s.pen)
        } else if self.last_output_newline {
            seq![]
        } else {
            seq![NEWLINE]
        }
    }

    /// The scan that ending the text leaves behind: the line has ended, and
    /// with formatting nothing is held back and colour is off. Without it the
    /// printer is otherwise as it was.
    pub open spec fn at_end(self) -> Scan {
        let s = scan(self.pen(), self.use_color, self.pending@, true);
        if self.format_thinking {
            Scan {
                out: self.finished(),
                pen: Pen { in_think: s.pen.in_think, color_open: false, at_newline: true },
                pending: seq![],
            }
        } else {
            Scan {
                out: self.finished(),
                pen: Pen { at_newline: true, ..self.pen() },
                pending: self.pending@,
            }
        }
    }

    /// Appends to `out` what ends the text.
    pub fn finish(&mut self, out: &mut Vec<u8>)
        requires
            old(self).well_formed(),
        ensures
            final(self).well_formed(),
            final(out)@ == old(out)@ + old(self).finished(),
            old(self).moved_to(old(self).at_end(), *final(self)),
    {
        if self.format_thinking {
            let nothing: Vec<u8> = Vec::new();
            proof {
                assert(self.pending@ + nothing@ =~= self.pending@);
                law_last_holds_nothing_back(self.pen(), self.use_color, self.pending@);
            }
            self.process(out, nothing.as_slice(), true);
            assert(self.pending@ =~= seq![]);
            if self.use_color && self.color_open {
                push_bytes(out, "\x1b[0m".as_bytes());
                self.color_open = false;
            }
        }
        if !self.last_output_newline {
            out.push(NEWLINE);
            self.last_output_newline = true;
        }
    }

    fn process(&mut self, out: &mut Vec<u8>, text: &[u8], last: bool)
        requires
            old(self).well_formed(),
        ensures
            final(self).well_formed(),
            final(out)@ == old(out)@ + scan(
                old(self).pen(),
                old(self).use_color,
                old(self).pending@ + text@,
                last,
            ).out,
            old(self).moved_to(
                scan(old(self).pen(), old(self).use_color, old(self).pending@ + text@, last),
                *final(self),
            ),
    {
        let open = "<think>".as_bytes();
        let close = "</think>".as_bytes();
        proof {
            lemma_tags();
        }
        let ghost all = self.pending@ + text@;
        let ghost whole = scan(self.pen(), self.use_color, all, last);
        let ghost mut written: Seq<u8> = seq![];
        let mut b: Vec<u8> = Vec::new();
        push_bytes(&mut b, self.pending.as_slice());
        push_bytes(&mut b, text);
        self.pending = Vec::new();
        proof {
            assert(b@ =~= all);
            assert(all.skip(0) =~= all);
            assert(written + whole.out =~= whole.out);
        }
        let mut i: usize = 0;
        while i < b.len()
            invariant
                i <= b@.len(),
                b@ == all,
                all == old(self).pending@ + text@,
                whole == scan(old(self).pen(), old(self).use_color, all, last),
                open@ == think_open(),
                close@ == think_close(),
                open@.len() == 7,
                close@.len() == 8,
                self.well_formed(),
                self.format_thinking == old(self).format_thinking,
                self.use_color == old(self).use_color,
                self.pending@.len() == 0,
                out@ == old(out)@ + written,
                whole == then_scan(
                    written,
                    scan(self.pen(), self.use_color, all.skip(i as int), last),
                ),
            decreases b@.len() - i,
        {
            let ghost rem = all.skip(i as int);
            proof {
                lemma_occurs_skip(all, think_open(), i as int);
                lemma_occurs_skip(all, think_close(), i as int);
            }
            if matches_at(b.as_slice(), open, i) {
                self.in_think = true;
                assert(rem.skip(7) =~= all.skip(i + 7));
                i += 7;
                continue;
            }
            if matches_at(b.as_slice(), close, i) {
                let ghost pen = self.pen();
                self.emit_close(out);
                proof {
                    assert(rem.skip(8) =~= all.skip(i + 8));
                    lemma_then_scan(
                        written,
                        close_bytes(pen),
                        scan(self.pen(), self.use_color, all.skip(i + 8), last),
                    );
                    lemma_append(old(out)@, written, close_bytes(pen));
                    written = written + close_bytes(pen);
                }
                i += 8;
                continue;
            }
            if !last && (begins_tag(b.as_slice(), i, open) || begins_tag(b.as_slice(), i, close)) {
                push_bytes(&mut self.pending, slice_subrange(b.as_slice(), i, b.len()));
                assert(self.pending@ =~= rem);
                assert(written + Seq::<u8>::empty() =~= written);
                return;
            }
            let ghost pen = self.pen();
            let c: u8 = b[i];
            self.emit_char(out, c);
            proof {
                assert(rem[0] == c);
                assert(rem.skip(1) =~= all.skip(i + 1));
                lemma_then_scan(
                    written,
                    char_bytes(pen, self.use_color, c),
                    scan(self.pen(), self.use_color, all.skip(i + 1), last),
                );
                lemma_append(old(out)@, written, char_bytes(pen, self.use_color, c));
                written = written + char_bytes(pen, self.use_color, c);
            }
            i += 1;
        }
        proof {
            assert(all.skip(i as int) =~= Seq::<u8>::empty());
            assert(self.pending@ =~= whole.pending);
            assert(written + Seq::<u8>::empty() =~= written);
        }
    }

    fn emit_close(&mut self, out: &mut Vec<u8>)
        requires
            old(self).well_formed(),
        ensures
            final(self).well_formed(),
            final(out)@ == old(out)@ + close_bytes(old(self).pen()),
            final(self).pen() == (Pen { in_think: false, color_open: false, at_newline: true }),
            final(self).format_thinking == old(self).format_thinking,
            final(self).use_color == old(self).use_color,
            final(self).pending@ == old(self).pending@,
    {
        self.in_think = false;
        if self.use_color && self.color_open {
            push_bytes(out, "\x1b[0m".as_bytes());
            self.color_open = false;
        }
        if !self.last_output_newline {
            out.push(NEWLINE);
            self.last_output_newline = true;
        }
    }

    fn emit_char(&mut self, out: &mut Vec<u8>, c: u8)
        requires
            old(self).well_formed(),
        ensures
            final(self).well_formed(),
            final(out)@ == old(out)@ + char_bytes(old(self).pen(), old(self).use_color, c),
            final(self).pen() == pen_after(old(self).pen(), old(self).use_color, c),
            final(self).format_thinking == old(self).format_thinking,
            final(self).use_color == old(self).use_color,
            final(self).pending@ == old(self).pending@,
    {
        if self.in_think && self.use_color && !self.color_open {
            push_bytes(out, "\x1b[90m".as_bytes());
            self.color_open = true;
        }
        out.push(c);
        self.last_output_newline = c == NEWLINE;
    }
}

proof fn lemma_then_scan(a: Seq<u8>, b: Seq<u8>, s: Scan)
    ensures
        then_scan(a, then_scan(b, s)) == then_scan(a + b, s),
{
    assert(a + (b + s.out) =~= (a + b) + s.out);
}

proof fn lemma_append(start: Seq<u8>, a: Seq<u8>, b: Seq<u8>)
    ensures
        (start + a) + b == start + (a + b),
{
    assert((start + a) + b =~= start + (a + b));
}

proof fn lemma_occurs_skip(s: Seq<u8>, p: Seq<u8>, i: int)
    requires
        0 <= i <= s.len(),
    ensures
        bytes::occurs_at(s, p, i) == bytes::occurs_at(s.skip(i), p, 0),
{
    if i + p.len() <= s.len() {
        assert(s.subrange(i, i + p.len()) =~= s.skip(i).subrange(0, p.len() as int));
    }
}

proof fn lemma_prefix_occurs(x: Seq<u8>, b: Seq<u8>, tag: Seq<u8>)
    requires
        x.len() > 0,
        tag == think_open() || tag == think_close(),
        !unfinished_tag(x),
    ensures
        bytes::occurs_at(x + b, tag, 0) == bytes::occurs_at(x, tag, 0),
{
    if bytes::occurs_at(x, tag, 0) {
        assert((x + b).subrange(0, tag.len() as int) =~= x.subrange(0, tag.len() as int));
    }
    if bytes::occurs_at(x + b, tag, 0) {
        if x.len() >= tag.len() {
            assert((x + b).subrange(0, tag.len() as int) =~= x.subrange(0, tag.len() as int));
        } else {
            let t = (x + b).subrange(0, tag.len() as int);
            assert(t.take(x.len() as int) =~= x);
        }
    }
}

/// Scanning `x` and then `b` is scanning `x` followed by `b`.
proof fn lemma_scan_split(pen: Pen, use_color: bool, x: Seq<u8>, b: Seq<u8>)
    ensures
        ({
            let s = scan(pen, use_color, x, false);
            scan(pen, use_color, x + b, false) == then_scan(
                s.out,
                scan(s.pen, use_color, s.pending + b, false),
            )
        }),
    decreases x.len(),
{
    lemma_tags();
    let s = scan(pen, use_color, x, false);
    let y = x + b;
    if x.len() == 0 {
        assert(y =~= b);
        assert(s.pending + b =~= b);
        lemma_then_nothing(scan(pen, use_color, b, false));
    } else if unfinished_tag(x) && !bytes::occurs_at(x, think_open(), 0) && !bytes::occurs_at(
        x,
        think_close(),
        0,
    ) {
        lemma_then_nothing(scan(pen, use_color, y, false));
    } else {
        if unfinished_tag(x) {
            lemma_unfinished_is_no_tag(x);
        }
        lemma_prefix_occurs(x, b, think_open());
        lemma_prefix_occurs(x, b, think_close());
        if bytes::occurs_at(x, think_open(), 0) {
            assert(y.skip(7) =~= x.skip(7) + b);
            lemma_scan_split(Pen { in_think: true, ..pen }, use_color, x.skip(7), b);
        } else if bytes::occurs_at(x, think_close(), 0) {
            let p = Pen { in_think: false, color_open: false, at_newline: true };
            assert(y.skip(8) =~= x.skip(8) + b);
            lemma_scan_split(p, use_color, x.skip(8), b);
            let r = scan(p, use_color, x.skip(8), false);
            lemma_then_scan(
                close_bytes(pen),
                r.out,
                scan(r.pen, use_color, r.pending + b, false),
            );
        } else {
            if unfinished_tag(y) {
                assert(x =~= y.take(x.len() as int));
                assert(y.take(x.len() as int) =~= think_open().take(x.len() as int) || y.take(
                    x.len() as int,
                ) =~= think_close().take(x.len() as int));
            }
            let p = pen_after(pen, use_color, x[0]);
            assert(y[0] == x[0]);
            assert(y.skip(1) =~= x.skip(1) + b);
            lemma_scan_split(p, use_color, x.skip(1), b);
            let r = scan(p, use_color, x.skip(1), false);
            lemma_then_scan(
                char_bytes(pen, use_color, x[0]),
                r.out,
                scan(r.pen, use_color, r.pending + b, false),
            );
        }
    }
}

proof fn lemma_then_nothing(s: Scan)
    ensures
        then_scan(seq![], s) == s,
{
    assert(Seq::<u8>::empty() + s.out =~= s.out);
}

proof fn lemma_unfinished_is_no_tag(x: Seq<u8>)
    requires
        unfinished_tag(x),
    ensures
        !bytes::occurs_at(x, think_open(), 0),
        !bytes::occurs_at(x, think_close(), 0),
{
    lemma_tags();
    if x.len() == 7 {
        assert(x[1] == think_close().take(7)[1]);
        assert(x.subrange(0, 7)[1] == x[1]);
    }
}

/// Ending a text after scanning it is scanning it as the last of the text.
proof fn lemma_scan_last(pen: Pen, use_color: bool, x: Seq<u8>)
    ensures
        ({
            let s = scan(pen, use_color, x, false);
            scan(pen, use_color, x, true) == then_scan(
                s.out,
                scan(s.pen, use_color, s.pending, true),
            )
        }),
    decreases x.len(),
{
    lemma_tags();
    if x.len() == 0 {
        lemma_then_nothing(scan(pen, use_color, x, true));
    } else if bytes::occurs_at(x, think_open(), 0) {
        lemma_scan_last(Pen { in_think: true, ..pen }, use_color, x.skip(7));
    } else if bytes::occurs_at(x, think_close(), 0) {
        let p = Pen { in_think: false, color_open: false, at_newline: true };
        lemma_scan_last(p, use_color, x.skip(8));
        let r = scan(p, use_color, x.skip(8), false);
        lemma_then_scan(close_bytes(pen), r.out, scan(r.pen, use_color, r.pending, true));
    } else if unfinished_tag(x) {
        lemma_then_nothing(scan(pen, use_color, x, true));
    } else {
        let p = pen_after(pen, use_color, x[0]);
        lemma_scan_last(p, use_color, x.skip(1));
        let r = scan(p, use_color, x.skip(1), false);
        lemma_then_scan(
            char_bytes(pen, use_color, x[0]),
            r.out,
            scan(r.pen, use_color, r.pending, true),
        );
    }
}

/// How a text is cut into pieces does not matter: writing `a` and then `b`
/// writes, and leaves behind, what writing the two as one piece does.
pub proof fn law_pieces_do_not_matter(
    p: TokenPrinter,
    a: Seq<u8>,
    b: Seq<u8>,
    q: TokenPrinter,
)
    requires
        p.moved_to(p.written(a), q),
    ensures
        p.written(a + b) == then_scan(p.written(a).out, q.written(b)),
{
    if p.format_thinking {
        lemma_scan_split(p.pen(), p.use_color, p.pending@ + a, b);
        assert(p.pending@ + (a + b) =~= (p.pending@ + a) + b);
    } else {
        if b.len() > 0 {
            assert((a + b).last() == b.last());
        } else {
            assert(a + b =~= a);
        }
    }
}

/// A text that has been written and finished is the scan of the whole text: no
/// piece of it is lost.
pub proof fn law_finish_completes(p: TokenPrinter, a: Seq<u8>, q: TokenPrinter)
    requires
        p.format_thinking,
        p.moved_to(p.written(a), q),
    ensures
        ({
            let s = scan(p.pen(), p.use_color, p.pending@ + a, true);
            p.written(a).out + q.finished() == s.out + close_bytes(s.pen)
        }),
{
    lemma_scan_last(p.pen(), p.use_color, p.pending@ + a);
    let s = scan(p.pen(), p.use_color, p.pending@ + a, true);
    let r = scan(q.pen(), q.use_color, q.pending@, true);
    assert(p.written(a).out + (r.out + close_bytes(r.pen)) =~= (p.written(a).out + r.out)
        + close_bytes(r.pen));
}

proof fn lemma_no_tag(all: Seq<u8>)
    requires
        all.len() > 0,
        all[0] != 0x3c,
    ensures
        !bytes::occurs_at(all, think_open(), 0),
        !bytes::occurs_at(all, think_close(), 0),
        !unfinished_tag(all),
{
    lemma_tags();
    let n = all.len() as int;
    if bytes::occurs_at(all, think_open(), 0) {
        assert(all.subrange(0, 7)[0] == all[0]);
    }
    if bytes::occurs_at(all, think_close(), 0) {
        assert(all.subrange(0, 8)[0] == all[0]);
    }
    if n < 7 {
        assert(think_open().take(n)[0] == 0x3c);
    }
    if n < 8 {
        assert(think_close().take(n)[0] == 0x3c);
    }
}

proof fn lemma_plain_byte(pen: Pen, use_color: bool, all: Seq<u8>, last: bool)
    requires
        all.len() > 0,
        all[0] != 0x3c,
    ensures
        scan(pen, use_color, all, last) == then_scan(
            char_bytes(pen, use_color, all[0]),
            scan(pen_after(pen, use_color, all[0]), use_color, all.skip(1), last),
        ),
{
    lemma_no_tag(all);
}

/// What turns grey on in front of a byte.
spec fn on(pen: Pen, use_color: bool) -> Seq<u8> {
    if pen.in_think && use_color && !pen.color_open {
        grey()
    } else {
        seq![]
    }
}

/// The pen behind `text`.
spec fn behind(pen: Pen, use_color: bool, text: Seq<u8>) -> Pen {
    Pen {
        color_open: pen.color_open || (pen.in_think && use_color),
        at_newline: text.last() == 0x0a,
        ..pen
    }
}

proof fn lemma_then(a: Seq<u8>, b: Seq<u8>, s: Scan)
    ensures
        then_scan(a, then_scan(b, s)) == then_scan(a + b, s),
{
    assert(a + (b + s.out) =~= a + b + s.out);
}

proof fn lemma_plain(pen: Pen, use_color: bool, text: Seq<u8>, rest: Seq<u8>, last: bool)
    requires
        text.len() > 0,
        !text.contains(0x3c),
    ensures
        scan(pen, use_color, text + rest, last) == then_scan(
            on(pen, use_color) + text,
            scan(behind(pen, use_color, text), use_color, rest, last),
        ),
    decreases text.len(),
{
    let all = text + rest;
    let c = text[0];
    assert(text.contains(c));
    assert(all[0] == c);
    lemma_plain_byte(pen, use_color, all, last);
    let after = pen_after(pen, use_color, c);
    let tail = text.skip(1);
    assert(all.skip(1) =~= tail + rest);
    let first = char_bytes(pen, use_color, c);
    if tail.len() > 0 {
        assert forall|b: u8| tail.contains(b) implies text.contains(b) by {
            let i = tail.index_of(b);
            assert(text[i + 1] == b);
        }
        lemma_plain(after, use_color, tail, rest, last);
        assert(tail.last() == text.last());
        assert(behind(after, use_color, tail) == behind(pen, use_color, text));
        let s = scan(behind(pen, use_color, text), use_color, rest, last);
        lemma_then(first, on(after, use_color) + tail, s);
        assert(first + (on(after, use_color) + tail) =~= on(pen, use_color) + text);
    } else {
        assert(tail + rest =~= rest);
        assert(text =~= seq![c]);
        assert(after == behind(pen, use_color, text));
        assert(first =~= on(pen, use_color) + text);
    }
}

proof fn lemma_colors()
    ensures
        grey() == seq![0x1bu8, 0x5b, 0x39, 0x30, 0x6d],
        reset() == seq![0x1bu8, 0x5b, 0x30, 0x6d],
{
    reveal_strlit("\x1b[90m");
    reveal_strlit("\x1b[0m");
    is_ascii_chars_encode_utf8("\x1b[90m"@);
    is_ascii_chars_encode_utf8("\x1b[0m"@);
    assert(grey() =~= seq![0x1bu8, 0x5b, 0x39, 0x30, 0x6d]);
    assert(reset() =~= seq![0x1bu8, 0x5b, 0x30, 0x6d]);
}

/// Thinking is printed without its closing tag, grey where colour is on, and
/// what follows begins a line of its own.
pub proof fn law_thinking_is_printed_grey(
    p: TokenPrinter,
    thought: Seq<u8>,
    answer: Seq<u8>,
)
    requires
        p.format_thinking,
        p.in_think,
        !p.color_open,
        p.pending@.len() == 0,
        thought.len() > 0,
        answer.len() > 0,
        !thought.contains(0x3c),
        !answer.contains(0x3c),
    ensures
        ({
            let s = p.written(thought + encode_utf8("</think>"@) + answer);
            &&& s.out == (if p.use_color {
                seq![0x1bu8, 0x5b, 0x39, 0x30, 0x6d] + thought + seq![0x1bu8, 0x5b, 0x30, 0x6d]
            } else {
                thought
            }) + (if thought.last() == 0x0a {
                seq![]
            } else {
                seq![0x0au8]
            }) + answer
            &&& !s.pen.in_think
            &&& !s.pen.color_open
            &&& s.pen.at_newline == (answer.last() == 0x0a)
            &&& s.pending.len() == 0
        }),
{
    lemma_tags();
    lemma_colors();
    let close = encode_utf8("</think>"@);
    let all = thought + close + answer;
    assert(p.pending@ + all =~= thought + (close + answer));
    let rest = close + answer;
    lemma_plain(p.pen(), p.use_color, thought, rest, false);
    let pen = Pen { color_open: p.use_color, at_newline: thought.last() == 0x0a, ..p.pen() };
    assert(rest.subrange(0, 8) =~= close);
    assert(rest.subrange(0, 7)[1] == close[1]);
    assert(!bytes::occurs_at(rest, think_open(), 0));
    assert(bytes::occurs_at(rest, think_close(), 0));
    assert(rest.skip(8) =~= answer + seq![]);
    let after = Pen { in_think: false, color_open: false, at_newline: true };
    lemma_plain(after, p.use_color, answer, seq![], false);
    let s = p.written(all);
    let inner = scan(pen, p.use_color, rest, false);
    assert(inner.out =~= close_bytes(pen) + answer);
    assert(s.out =~= ((if p.use_color {
        grey()
    } else {
        seq![]
    }) + thought) + (close_bytes(pen) + answer));
}

/// Text without tags is printed as it came: grey in front of it where thinking
/// begins in colour.
pub proof fn law_text_is_printed_as_it_came(p: TokenPrinter, text: Seq<u8>)
    requires
        p.pending@.len() == 0,
        text.len() > 0,
        !text.contains(0x3c),
    ensures
        p.written(text).out == (if p.format_thinking && p.in_think && p.use_color && !p.color_open {
            seq![0x1bu8, 0x5b, 0x39, 0x30, 0x6d]
        } else {
            seq![]
        }) + text,
        p.written(text).pending.len() == 0,
        p.written(text).pen.at_newline == (text.last() == 0x0a),
        p.written(text).pen.in_think == p.in_think,
{
    lemma_colors();
    if p.format_thinking {
        assert(p.pending@ + text =~= text + seq![]);
        lemma_plain(p.pen(), p.use_color, text, seq![], false);
        assert(p.written(text).out =~= (if p.in_think && p.use_color && !p.color_open {
            grey()
        } else {
            seq![]
        }) + text);
    } else {
        assert(text =~= seq![] + text);
    }
}

/// The opening tag is not printed, and thinking begins behind it.
pub proof fn law_opening_tag_begins_thinking(pen: Pen, use_color: bool, text: Seq<u8>, last: bool)
    ensures
        scan(pen, use_color, encode_utf8("<think>"@) + text, last) == scan(
            Pen { in_think: true, ..pen },
            use_color,
            text,
            last,
        ),
{
    lemma_tags();
    let all = encode_utf8("<think>"@) + text;
    assert(all.subrange(0, 7) =~= think_open());
    assert(all.skip(7) =~= text);
}

/// The end of a text ends its line, and turns off the colour that is on.
pub proof fn law_end_of_the_text(p: TokenPrinter)
    requires
        p.pending@.len() == 0,
    ensures
        p.finished() == (if p.format_thinking && p.color_open {
            seq![0x1bu8, 0x5b, 0x30, 0x6d]
        } else {
            seq![]
        }) + (if p.last_output_newline {
            seq![]
        } else {
            seq![0x0au8]
        }),
        p.at_end().pen.at_newline,
{
    lemma_colors();
    let s = scan(p.pen(), p.use_color, p.pending@, true);
    assert(s.out.len() == 0);
    assert(p.finished() =~= (if p.format_thinking && p.color_open {
        reset()
    } else {
        seq![]
    }) + (if p.last_output_newline {
        seq![]
    } else {
        seq![0x0au8]
    }));
}

} // verus!
