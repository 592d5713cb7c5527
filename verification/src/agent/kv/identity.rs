//! The titles of sessions, and what identifies a session.

use crate::bytes;
use crate::bytes::{find, push_bytes, push_le32, push_le64, read_le32};
use crate::text;
use crate::text::{chars_of, is_white, lossy, substring, trim_range, utf8_str};
use vstd::prelude::*;
use vstd::slice::*;
use vstd::string::*;
use vstd::utf8::*;

verus! {

/// What identifies the session that is under way.
#[derive(Debug)]
pub struct SessionIdentity {
    pub title: Option<String>,
    pub created_at: u64,
    pub sha: Option<String>,
    pub has_user_turn: bool,
}

/// How many bytes `c` takes in UTF-8.
pub open spec fn char_bytes(c: char) -> int {
    let u = c as u32;
    if u < 0x80 {
        1
    } else if u < 0x800 {
        2
    } else if u < 0x1_0000 {
        3
    } else {
        4
    }
}

/// How many bytes `s` takes in UTF-8.
pub open spec fn byte_len(s: Seq<char>) -> int
    decreases s.len(),
{
    if s.len() == 0 {
        0
    } else {
        byte_len(s.drop_last()) + char_bytes(s.last())
    }
}

fn bytes_of_char(c: char) -> (r: u128)
    ensures
        r == char_bytes(c),
{
    let u: u32 = c as u32;
    if u < 0x80 {
        1
    } else if u < 0x800 {
        2
    } else if u < 0x1_0000 {
        3
    } else {
        4
    }
}

proof fn lemma_push_len(s: Seq<char>, c: char)
    ensures
        byte_len(s.push(c)) == byte_len(s) + char_bytes(c),
{
    assert(s.push(c).drop_last() =~= s);
}

proof fn lemma_len_bounds(s: Seq<char>)
    ensures
        s.len() <= byte_len(s) <= 4 * s.len(),
    decreases s.len(),
{
    if s.len() > 0 {
        lemma_len_bounds(s.drop_last());
    }
}

fn string_bytes(s: &[char]) -> (r: u128)
    ensures
        r == byte_len(s@),
        r <= 4 * s@.len(),
{
    let n: usize = s.len();
    let mut i: usize = 0;
    let mut len: u128 = 0;
    assert(s@.take(0).len() == 0);
    while i < n
        invariant
            n == s@.len(),
            i <= n,
            len == byte_len(s@.take(i as int)),
            len <= 4 * i,
        decreases n - i,
    {
        proof {
            assert(s@.take(i + 1) =~= s@.take(i as int).push(s@[i as int]));
            lemma_push_len(s@.take(i as int), s@[i as int]);
        }
        len = len + bytes_of_char(s[i]);
        i += 1;
    }
    assert(s@.take(n as int) =~= s@);
    len
}

/// The bytes whose hash identifies a session with a title: the title, then the
/// time it was begun.
pub open spec fn title_identity(title: Seq<char>, created_at: u64) -> Seq<u8> {
    encode_utf8(title) + bytes::le64_bytes(created_at)
}

/// The bytes whose hash identifies a session with a title.
pub fn identity_bytes(title: &str, created_at: u64) -> (r: Vec<u8>)
    ensures
        r@ == title_identity(title@, created_at),
{
    let mut out = slice_to_vec(title.as_bytes());
    push_le64(&mut out, created_at);
    out
}

/// The bytes whose hash identifies a saved session: its title and the time it
/// was begun, or its text where it has no title.
pub open spec fn identifying_bytes(
    titled: bool,
    title: Option<Seq<char>>,
    created_at: u64,
    text: Seq<u8>,
) -> Seq<u8> {
    if titled {
        title_identity(
            match title {
                Some(t) => t,
                None => ""@,
            },
            created_at,
        )
    } else {
        text
    }
}

pub open spec fn str_view(s: Option<&str>) -> Option<Seq<char>> {
    match s {
        Some(t) => Some(t@),
        None => None,
    }
}

/// The bytes whose hash identifies a saved session.
pub fn file_identity_bytes(
    titled: bool,
    title: Option<&str>,
    created_at: u64,
    text: &[u8],
) -> (r: Vec<u8>)
    ensures
        r@ == identifying_bytes(titled, str_view(title), created_at, text@),
{
    if titled {
        identity_bytes(
            match title {
                Some(t) => t,
                None => "",
            },
            created_at,
        )
    } else {
        slice_to_vec(text)
    }
}

/// A title as it is saved behind a session: its length, then itself.
pub open spec fn title_trailer(title: Seq<char>) -> Seq<u8> {
    bytes::le32_bytes((encode_utf8(title).len() % 0x1_0000_0000) as u32) + encode_utf8(title)
}

/// A title as it is saved behind a session.
pub fn encode_title_trailer(title: &str) -> (r: Vec<u8>)
    ensures
        r@ == title_trailer(title@),
{
    let mut out: Vec<u8> = Vec::new();
    let len: u64 = title.as_bytes().len() as u64;
    push_le32(&mut out, (len % 0x1_0000_0000) as u32);
    push_bytes(&mut out, title.as_bytes());
    assert(out@ =~= title_trailer(title@));
    out
}

/// The text that bytes hold; what is not valid in them is replaced.
pub open spec fn text_of(b: Seq<u8>) -> Seq<char> {
    if valid_utf8(b) {
        decode_utf8(b)
    } else {
        text::utf8_lossy(b)
    }
}

/// The title that is saved behind a session, if it is there in full.
pub open spec fn trailer_title(trailer: Seq<u8>) -> Option<Seq<char>> {
    if trailer.len() < 4 || bytes::le32(trailer, 0) > trailer.len() - 4 {
        None
    } else {
        Some(text_of(trailer.subrange(4, 4 + bytes::le32(trailer, 0))))
    }
}

pub open spec fn string_view(s: Option<String>) -> Option<Seq<char>> {
    match s {
        Some(t) => Some(t@),
        None => None,
    }
}

/// The title that is saved behind a session, if it is there in full.
pub fn decode_title_trailer(trailer: &[u8]) -> (r: Option<String>)
    ensures
        string_view(r) == trailer_title(trailer@),
{
    let len: usize = trailer.len();
    if len < 4 {
        return None;
    }
    let n: u32 = read_le32(trailer, 0);
    if n as u64 > (len - 4) as u64 {
        return None;
    }
    Some(lossy(slice_subrange(trailer, 4, 4 + n as usize)))
}

/// A title that was saved is read back, as long as its length fits 32 bits.
pub proof fn law_title_round_trip(title: Seq<char>)
    requires
        encode_utf8(title).len() < 0x1_0000_0000,
    ensures
        trailer_title(title_trailer(title)) == Some(title),
{
    let b = encode_utf8(title);
    let t = title_trailer(title);
    let n = b.len() as u32;
    bytes::law_le32_round_trip(n);
    assert(t.subrange(0, 4) =~= bytes::le32_bytes(n));
    assert(t[0] == bytes::le32_bytes(n)[0]);
    assert(t[1] == bytes::le32_bytes(n)[1]);
    assert(t[2] == bytes::le32_bytes(n)[2]);
    assert(t[3] == bytes::le32_bytes(n)[3]);
    assert(bytes::le32(t, 0) == n);
    assert(t.subrange(4, 4 + n as int) =~= b);
    encode_utf8_valid_utf8(title);
    encode_utf8_decode_utf8(title);
}

/// What was collected of a title.
#[verifier::ext_equal]
pub struct Draft {
    pub out: Seq<char>,
    /// White space was seen behind it.
    pub pending: bool,
    /// There was no room for more.
    pub truncated: bool,
}

/// The draft behind one more character. White space is one space between
/// words; with a limit, room for three dots is kept.
pub open spec fn draft_step(d: Draft, c: char, limited: bool, max: int) -> Draft {
    if text::is_space(c) {
        Draft { pending: d.out.len() > 0, ..d }
    } else {
        let spaced = if d.pending && (!limited || byte_len(d.out) + 4 < max) {
            Draft { out: d.out.push(' '), pending: false, ..d }
        } else {
            d
        };
        if limited && byte_len(spaced.out) + char_bytes(c) + 3 > max {
            Draft { truncated: true, ..spaced }
        } else {
            Draft { out: spaced.out.push(c), ..spaced }
        }
    }
}

/// The draft behind the characters from `i` on.
pub open spec fn draft_from(s: Seq<char>, i: int, d: Draft, limited: bool, max: int) -> Draft
    decreases s.len() - i,
{
    if i < 0 || i >= s.len() || d.truncated {
        d
    } else {
        draft_from(s, i + 1, draft_step(d, s[i], limited, max), limited, max)
    }
}

pub open spec fn empty_draft() -> Draft {
    Draft { out: seq![], pending: false, truncated: false }
}

/// At least room for a character and three dots.
pub open spec fn title_limit(max_bytes: int) -> int {
    if max_bytes > 4 {
        max_bytes
    } else {
        4
    }
}

/// The title that a text makes, of at most `max_bytes` bytes unless that is 0;
/// `empty` where it makes none.
pub open spec fn span_title(span: Seq<u8>, max_bytes: int, empty: Seq<char>) -> Seq<char> {
    let s = text::trimmed(
        if valid_utf8(span) {
            decode_utf8(span)
        } else {
            ""@
        },
    );
    let d = draft_from(s, 0, empty_draft(), max_bytes != 0, title_limit(max_bytes));
    if d.truncated {
        d.out + "..."@
    } else if d.out.len() == 0 {
        empty
    } else {
        d.out
    }
}

fn title_from_span(span: &[u8], max_bytes: usize, empty: &str) -> (r: String)
    ensures
        r@ == span_title(span@, max_bytes as int, empty@),
{
    let limited = max_bytes != 0;
    let max: u128 = if max_bytes > 4 {
        max_bytes as u128
    } else {
        4
    };
    let all = match utf8_str(span) {
        Some(s) => chars_of(s),
        None => chars_of(""),
    };
    let n: usize = all.len();
    let (a, b) = trim_range(all.as_slice(), 0, n);
    let ghost s = all@.subrange(a as int, b as int);
    proof {
        assert(all@.subrange(0, n as int) =~= all@);
    }
    let mut out = String::new();
    let mut len: u128 = 0;
    let mut chars: usize = 0;
    let mut pending = false;
    let mut truncated = false;
    let mut i: usize = a;
    assert(out@ =~= Seq::<char>::empty());
    while i < b && !truncated
        invariant
            a <= i <= b <= all@.len(),
            s == all@.subrange(a as int, b as int),
            len == byte_len(out@),
            len <= 8 * (i - a),
            max <= usize::MAX,
            max == title_limit(max_bytes as int),
            (chars == 0) == (out@.len() == 0),
            pending ==> chars > 0,
            chars <= i - a,
            draft_from(s, 0, empty_draft(), limited, max as int) == draft_from(
                s,
                i - a,
                (Draft { out: out@, pending, truncated }),
                limited,
                max as int,
            ),
        decreases b - i,
    {
        let c = all[i];
        assert(s[i - a] == c);
        i += 1;
        if is_white(c) {
            pending = chars > 0;
            continue;
        }
        if pending && (!limited || len + 4 < max) {
            proof {
                lemma_push_len(out@, ' ');
            }
            out.push(' ');
            len = len + 1;
            pending = false;
        }
        let next: u128 = bytes_of_char(c);
        if limited && len + next + 3 > max {
            truncated = true;
        } else {
            proof {
                lemma_push_len(out@, c);
            }
            out.push(c);
            len = len + next;
            chars = chars + 1;
        }
    }
    if truncated {
        out.append("...");
        out
    } else if chars == 0 {
        String::from_str(empty)
    } else {
        out
    }
}

proof fn lemma_draft_fits(s: Seq<char>, i: int, d: Draft, max: int)
    requires
        max >= 4,
        byte_len(d.out) + 3 <= max,
    ensures
        byte_len(draft_from(s, i, d, true, max).out) + 3 <= max,
    decreases s.len() - i,
{
    if 0 <= i < s.len() && !d.truncated {
        lemma_push_len(d.out, ' ');
        lemma_push_len(d.out, s[i]);
        lemma_push_len(d.out.push(' '), s[i]);
        lemma_draft_fits(s, i + 1, draft_step(d, s[i], true, max), max);
    }
}

proof fn lemma_join_len(a: Seq<char>, b: Seq<char>)
    ensures
        byte_len(a + b) == byte_len(a) + byte_len(b),
    decreases b.len(),
{
    if b.len() == 0 {
        assert(a + b =~= a);
    } else {
        lemma_join_len(a, b.drop_last());
        assert((a + b).drop_last() =~= a + b.drop_last());
        assert((a + b).last() == b.last());
    }
}

/// A title keeps to its limit: it has no more than `max_bytes` bytes, and four
/// at the least, unless it is the text that stands for a missing one.
pub proof fn law_title_fits(span: Seq<u8>, max_bytes: int, empty: Seq<char>)
    requires
        max_bytes != 0,
    ensures
        span_title(span, max_bytes, empty) == empty || byte_len(
            span_title(span, max_bytes, empty),
        ) <= title_limit(max_bytes),
{
    let s = text::trimmed(
        if valid_utf8(span) {
            decode_utf8(span)
        } else {
            ""@
        },
    );
    let max = title_limit(max_bytes);
    lemma_draft_fits(s, 0, empty_draft(), max);
    let d = draft_from(s, 0, empty_draft(), true, max);
    lemma_join_len(d.out, "..."@);
    reveal_strlit("...");
    assert("..."@ =~= seq![].push('.').push('.').push('.'));
    lemma_push_len(seq![], '.');
    lemma_push_len(seq!['.'], '.');
    lemma_push_len(seq!['.', '.'], '.');
    assert(seq!['.'] =~= seq![].push('.'));
    assert(seq!['.', '.'] =~= seq!['.'].push('.'));
    assert("..."@ =~= seq!['.', '.'].push('.'));
}

/// The title that a prompt makes.
pub fn title_from_prompt(prompt: &str) -> (r: String)
    ensures
        r@ == span_title(encode_utf8(prompt@), 0, "(empty user prompt)"@),
{
    title_from_span(prompt.as_bytes(), 0, "(empty user prompt)")
}

pub open spec fn user_mark() -> Seq<u8> {
    encode_utf8("<｜User｜>"@)
}

pub open spec fn assistant_mark() -> Seq<u8> {
    encode_utf8("<｜Assistant｜>"@)
}

/// Where the mark `m` stands in `b`, or its end.
pub open spec fn mark_or_end(b: Seq<u8>, m: Seq<u8>) -> int {
    match bytes::first_at(b, m, 0) {
        Some(k) => k,
        None => b.len() as int,
    }
}

/// The first prompt of the user in the text of a session.
pub open spec fn first_prompt(t: Seq<u8>) -> Option<Seq<u8>> {
    match bytes::first_at(t, user_mark(), 0) {
        None => None,
        Some(k) => {
            let body = t.skip(k + user_mark().len());
            let a = mark_or_end(body, assistant_mark());
            let u = mark_or_end(body, user_mark());
            Some(
                body.take(
                    if a < u {
                        a
                    } else {
                        u
                    },
                ),
            )
        },
    }
}

/// The title that the text of a session makes: its first prompt.
pub open spec fn text_title(t: Seq<u8>, max_bytes: int) -> Seq<char> {
    match first_prompt(t) {
        None => "(no user prompt)"@,
        Some(p) => span_title(p, max_bytes, "(empty user prompt)"@),
    }
}

/// The title that the text of a session makes.
pub fn title_from_text(t: &[u8], max_bytes: usize) -> (r: String)
    ensures
        r@ == text_title(t@, max_bytes as int),
{
    let user = "<｜User｜>".as_bytes();
    let assistant = "<｜Assistant｜>".as_bytes();
    let n: usize = t.len();
    proof {
        bytes::lemma_first_at(t@, user@, 0);
    }
    let start: usize = match find(t, user, 0) {
        None => {
            return String::from_str("(no user prompt)");
        },
        Some(k) => k + user.len(),
    };
    let body = slice_subrange(t, start, n);
    assert(body@ =~= t@.skip(start as int));
    let len: usize = body.len();
    proof {
        bytes::lemma_first_at(body@, user@, 0);
        bytes::lemma_first_at(body@, assistant@, 0);
    }
    let a: usize = match find(body, assistant, 0) {
        Some(k) => k,
        None => len,
    };
    let u: usize = match find(body, user, 0) {
        Some(k) => k,
        None => len,
    };
    let end: usize = if a < u {
        a
    } else {
        u
    };
    let span = slice_subrange(body, 0, end);
    assert(span@ =~= body@.take(end as int));
    title_from_span(span, max_bytes, "(empty user prompt)")
}

/// How many characters from `i` on take exactly `left` bytes.
pub open spec fn cut_from(s: Seq<char>, i: int, left: int) -> Option<int>
    decreases s.len() - i,
{
    if left == 0 {
        Some(i)
    } else if left < 0 || i < 0 || i >= s.len() {
        None
    } else {
        cut_from(s, i + 1, left - char_bytes(s[i]))
    }
}

/// How many characters at the start of `s` take exactly `n` bytes.
pub fn cut_at(s: &[char], n: u128) -> (r: Option<usize>)
    ensures
        match (r, cut_from(s@, 0, n as int)) {
            (Some(i), Some(k)) => i == k && i <= s@.len(),
            (None, None) => true,
            _ => false,
        },
{
    let len: usize = s.len();
    let mut i: usize = 0;
    let mut left: u128 = n;
    while left > 0 && i < len
        invariant
            len == s@.len(),
            i <= len,
            cut_from(s@, 0, n as int) == cut_from(s@, i as int, left as int),
        decreases len - i,
    {
        let k: u128 = bytes_of_char(s[i]);
        if k > left {
            assert(cut_from(s@, i + 1, left - k) is None);
            return None;
        }
        left = left - k;
        i += 1;
    }
    if left == 0 {
        Some(i)
    } else {
        None
    }
}

/// How many bytes a clipped title keeps in front of its dots.
pub open spec fn kept_bytes(max_bytes: int) -> int {
    title_limit(max_bytes) - 3
}

/// A title that fits, or one that is clipped: where the limit falls between
/// two characters.
pub open spec fn clips(title: Seq<char>, max_bytes: int) -> bool {
    max_bytes == 0 || byte_len(title) <= max_bytes || cut_from(title, 0, kept_bytes(max_bytes))
        is Some
}

/// A title of at most `max_bytes` bytes, unless that is 0; a longer one ends in
/// dots.
pub fn clip_title(title: &str, max_bytes: usize) -> (r: String)
    requires
        clips(title@, max_bytes as int),
    ensures
        r@ == if max_bytes == 0 || byte_len(title@) <= max_bytes {
            title@
        } else {
            title@.take(cut_from(title@, 0, kept_bytes(max_bytes as int))->0) + "..."@
        },
{
    let cs = chars_of(title);
    if max_bytes == 0 || string_bytes(cs.as_slice()) <= max_bytes as u128 {
        return String::from_str(title);
    }
    let keep: u128 = if max_bytes > 4 {
        max_bytes as u128 - 3
    } else {
        1
    };
    let mut r = match cut_at(cs.as_slice(), keep) {
        Some(i) => {
            let s = substring(cs.as_slice(), 0, i);
            assert(s@ =~= title@.take(i as int));
            s
        },
        None => String::new(),
    };
    r.append("...");
    r
}

} // verus!
