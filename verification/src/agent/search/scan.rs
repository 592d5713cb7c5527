//! What a search is made of: its buffer, its patterns, its numbers.

use crate::bytes;
use crate::bytes::push_bytes;
use crate::num;
use crate::text::chars_of;
use vstd::prelude::*;
use vstd::slice::*;
use vstd::string::*;

verus! {

/// The longest file that is searched.
pub const FILE_MAX_BYTES: usize = 16_777_216;

/// The most that a search answers.
pub const RESULT_MAX_BYTES: usize = 131_072;

/// A text that stops growing at its bound.
pub struct BodyBuf {
    pub bytes: Vec<u8>,
    /// Something was left out.
    pub truncated: bool,
}

/// [`BodyBuf`] as plain values.
#[verifier::ext_equal]
pub struct Body {
    pub bytes: Seq<u8>,
    pub truncated: bool,
}

impl View for BodyBuf {
    type V = Body;

    open spec fn view(&self) -> Body {
        Body { bytes: self.bytes@, truncated: self.truncated }
    }
}

impl Body {
    pub open spec fn empty() -> Body {
        Body { bytes: seq![], truncated: false }
    }

    pub open spec fn well_formed(self) -> bool {
        &&& self.bytes.len() <= RESULT_MAX_BYTES
        &&& self.truncated ==> self.bytes.len() == RESULT_MAX_BYTES
    }

    /// With `more` behind it, as far as there is room.
    pub open spec fn plus(self, more: Seq<u8>) -> Body {
        let all = self.bytes + more;
        if self.truncated {
            self
        } else if all.len() <= RESULT_MAX_BYTES {
            Body { bytes: all, truncated: false }
        } else {
            Body { bytes: all.take(RESULT_MAX_BYTES as int), truncated: true }
        }
    }
}

impl BodyBuf {
    pub fn new() -> (r: BodyBuf)
        ensures
            r@ == Body::empty(),
            r@.well_formed(),
    {
        let r = BodyBuf { bytes: Vec::new(), truncated: false };
        assert(r@ =~= Body::empty());
        r
    }

    /// Appends `more`, as far as there is room.
    pub fn append(&mut self, more: &[u8])
        requires
            old(self)@.well_formed(),
        ensures
            final(self)@ == old(self)@.plus(more@),
            final(self)@.well_formed(),
    {
        let len: usize = more.len();
        if self.truncated {
            return;
        }
        let room: usize = RESULT_MAX_BYTES - self.bytes.len();
        let n: usize = if room < len {
            room
        } else {
            len
        };
        push_bytes(&mut self.bytes, slice_subrange(more, 0, n));
        self.truncated = n < len;
        proof {
            let all = old(self)@.bytes + more@;
            assert(more@.subrange(0, n as int) =~= more@.take(n as int));
            if n < len {
                assert(self@.bytes =~= all.take(RESULT_MAX_BYTES as int));
            } else {
                assert(self@.bytes =~= all);
            }
            assert(self@ =~= old(self)@.plus(more@));
        }
    }
}

/// What a buffer holds does not depend on the pieces in which it came.
pub proof fn law_pieces_do_not_matter(b: Body, first: Seq<u8>, second: Seq<u8>)
    requires
        b.well_formed(),
    ensures
        b.plus(first).plus(second) == b.plus(first + second),
        b.plus(first).well_formed(),
{
    let cap = RESULT_MAX_BYTES as int;
    assert(b.bytes + first + second =~= b.bytes + (first + second));
    if !b.truncated && (b.bytes + first).len() > cap {
        assert((b.bytes + first).take(cap) =~= (b.bytes + (first + second)).take(cap));
    }
    assert(b.plus(first).plus(second) =~= b.plus(first + second));
}

/// The lower-case letter of an ASCII capital; any other byte itself.
pub open spec fn lower(b: u8) -> u8 {
    if 0x41 <= b <= 0x5a {
        (b + 0x20) as u8
    } else {
        b
    }
}

fn lower_byte(b: u8) -> (r: u8)
    ensures
        r == lower(b),
{
    if 0x41 <= b && b <= 0x5a {
        b + 0x20
    } else {
        b
    }
}

pub open spec fn same_byte(a: u8, b: u8, case_sensitive: bool) -> bool {
    if case_sensitive {
        a == b
    } else {
        lower(a) == lower(b)
    }
}

/// `query` is found in `haystack` at `at`.
pub open spec fn found_at(
    haystack: Seq<u8>,
    query: Seq<u8>,
    case_sensitive: bool,
    at: int,
) -> bool {
    &&& 0 <= at
    &&& at + query.len() <= haystack.len()
    &&& forall|k: int|
        0 <= k < query.len() ==> same_byte(#[trigger] haystack[at + k], query[k], case_sensitive)
}

/// `query` is found in `haystack`.
pub open spec fn is_found(haystack: Seq<u8>, query: Seq<u8>, case_sensitive: bool) -> bool {
    exists|at: int| found_at(haystack, query, case_sensitive, at)
}

fn literal_at(haystack: &[u8], query: &[u8], case_sensitive: bool, at: usize) -> (r: bool)
    requires
        at + query@.len() <= haystack@.len(),
    ensures
        r == found_at(haystack@, query@, case_sensitive, at as int),
{
    let n: usize = haystack.len();
    let mut k: usize = 0;
    while k < query.len()
        invariant
            n == haystack@.len(),
            at + query@.len() <= n,
            k <= query@.len(),
            forall|j: int|
                0 <= j < k ==> same_byte(#[trigger] haystack@[at + j], query@[j], case_sensitive),
        decreases query@.len() - k,
    {
        let a: u8 = haystack[at + k];
        let b: u8 = query[k];
        let same = if case_sensitive {
            a == b
        } else {
            lower_byte(a) == lower_byte(b)
        };
        if !same {
            assert(!same_byte(haystack@[at + k], query@[k as int], case_sensitive));
            return false;
        }
        k += 1;
    }
    true
}

/// Whether `query` is found in `haystack`.
pub fn literal_match(haystack: &[u8], query: &[u8], case_sensitive: bool) -> (r: bool)
    ensures
        r == is_found(haystack@, query@, case_sensitive),
{
    let n: usize = haystack.len();
    if query.len() > n {
        return false;
    }
    let last: usize = n - query.len();
    let mut at: usize = 0;
    loop
        invariant
            n == haystack@.len(),
            last + query@.len() == n,
            at <= last,
            forall|j: int| 0 <= j < at ==> !found_at(haystack@, query@, case_sensitive, j),
        decreases last - at,
    {
        if literal_at(haystack, query, case_sensitive, at) {
            return true;
        }
        if at == last {
            return false;
        }
        at += 1;
    }
}

/// What is found with capitals told apart is found without, too; and so is
/// what occurs as it stands.
pub proof fn law_case_only_widens(haystack: Seq<u8>, query: Seq<u8>)
    ensures
        is_found(haystack, query, true) ==> is_found(haystack, query, false),
        is_found(haystack, query, true) == exists|at: int| bytes::occurs_at(haystack, query, at),
{
    if is_found(haystack, query, true) {
        let at = choose|at: int| found_at(haystack, query, true, at);
        assert(found_at(haystack, query, false, at));
        assert forall|k: int| 0 <= k < query.len() implies haystack.subrange(
            at,
            at + query.len(),
        )[k] == query[k] by {
            assert(same_byte(haystack[at + k], query[k], true));
        }
        assert(haystack.subrange(at, at + query.len()) =~= query);
        assert(bytes::occurs_at(haystack, query, at));
    }
    if exists|at: int| bytes::occurs_at(haystack, query, at) {
        let at = choose|at: int| bytes::occurs_at(haystack, query, at);
        assert forall|k: int| 0 <= k < query.len() implies same_byte(
            #[trigger] haystack[at + k],
            query[k],
            true,
        ) by {
            assert(haystack.subrange(at, at + query.len())[k] == haystack[at + k]);
        }
        assert(found_at(haystack, query, true, at));
    }
}

/// The first place at or after `pi` that holds no star.
pub open spec fn after_stars(pattern: Seq<u8>, pi: int) -> int
    decreases pattern.len() - pi,
{
    if 0 <= pi < pattern.len() && pattern[pi] == 0x2a {
        after_stars(pattern, pi + 1)
    } else {
        pi
    }
}

proof fn lemma_after_stars(pattern: Seq<u8>, pi: int)
    requires
        0 <= pi <= pattern.len(),
    ensures
        pi <= after_stars(pattern, pi) <= pattern.len(),
        pi < pattern.len() && pattern[pi] == 0x2a ==> pi < after_stars(pattern, pi),
    decreases pattern.len() - pi,
{
    if pi < pattern.len() && pattern[pi] == 0x2a {
        lemma_after_stars(pattern, pi + 1);
    }
}

/// The pattern from `pi` on fits the name from `ni` on. A question mark stands
/// for any one byte, a star for any number of bytes; a backslash takes the
/// meaning of the byte behind it away.
pub open spec fn fits_from(pattern: Seq<u8>, pi: int, name: Seq<u8>, ni: int) -> bool
    decreases pattern.len() - pi, 0int,
    when 0 <= pi <= pattern.len()
    via fits_from_decreases
{
    if pi == pattern.len() {
        ni == name.len()
    } else if pattern[pi] == 0x5c && pi + 1 < pattern.len() {
        ni < name.len() && pattern[pi + 1] == name[ni] && fits_from(pattern, pi + 2, name, ni + 1)
    } else if pattern[pi] == 0x3f {
        ni < name.len() && fits_from(pattern, pi + 1, name, ni + 1)
    } else if pattern[pi] == 0x2a {
        fits_behind(pattern, after_stars(pattern, pi), name, ni)
    } else {
        ni < name.len() && name[ni] == pattern[pi] && fits_from(pattern, pi + 1, name, ni + 1)
    }
}

#[via_fn]
proof fn fits_from_decreases(pattern: Seq<u8>, pi: int, name: Seq<u8>, ni: int) {
    lemma_after_stars(pattern, pi);
}

/// The pattern from `pi` on fits the name from `ni` on, or from some later
/// place.
pub open spec fn fits_behind(pattern: Seq<u8>, pi: int, name: Seq<u8>, ni: int) -> bool
    decreases pattern.len() - pi, name.len() - ni + 1,
    when 0 <= pi <= pattern.len()
{
    if ni < 0 || ni > name.len() {
        false
    } else {
        fits_from(pattern, pi, name, ni) || fits_behind(pattern, pi, name, ni + 1)
    }
}

/// `pattern` fits the whole of `name`.
pub open spec fn fits(pattern: Seq<u8>, name: Seq<u8>) -> bool {
    fits_from(pattern, 0, name, 0)
}

fn glob_at(pattern: &[u8], pi: usize, name: &[u8], ni: usize) -> (r: bool)
    requires
        pi <= pattern@.len(),
        ni <= name@.len(),
    ensures
        r == fits_from(pattern@, pi as int, name@, ni as int),
    decreases pattern@.len() - pi,
{
    let plen: usize = pattern.len();
    let nlen: usize = name.len();
    if pi == plen {
        return ni == nlen;
    }
    let c: u8 = pattern[pi];
    if c == 0x5c && plen - pi > 1 {
        return ni < nlen && pattern[pi + 1] == name[ni] && glob_at(pattern, pi + 2, name, ni + 1);
    }
    if c == 0x3f {
        return ni < nlen && glob_at(pattern, pi + 1, name, ni + 1);
    }
    if c == 0x2a {
        let mut next: usize = pi;
        while next < plen && pattern[next] == 0x2a
            invariant
                plen == pattern@.len(),
                pi <= next <= plen,
                after_stars(pattern@, pi as int) == after_stars(pattern@, next as int),
            decreases plen - next,
        {
            next += 1;
        }
        proof {
            lemma_after_stars(pattern@, pi as int);
        }
        let mut k: usize = ni;
        loop
            invariant
                plen == pattern@.len(),
                nlen == name@.len(),
                ni <= k <= nlen,
                pi < plen,
                pattern@[pi as int] == 0x2a,
                pi < next <= plen,
                next == after_stars(pattern@, pi as int),
                fits_behind(pattern@, next as int, name@, ni as int) == fits_behind(
                    pattern@,
                    next as int,
                    name@,
                    k as int,
                ),
            decreases nlen - k,
        {
            if glob_at(pattern, next, name, k) {
                return true;
            }
            if k == nlen {
                assert(!fits_behind(pattern@, next as int, name@, k + 1));
                return false;
            }
            k += 1;
        }
    }
    ni < nlen && name[ni] == c && glob_at(pattern, pi + 1, name, ni + 1)
}

/// Whether `pattern` fits the whole of `name`.
pub fn glob_match(pattern: &[u8], name: &[u8]) -> (r: bool)
    ensures
        r == fits(pattern@, name@),
{
    glob_at(pattern, 0, name, 0)
}

/// `b` has a meaning of its own in a pattern.
pub open spec fn is_special(b: u8) -> bool {
    b == 0x5c || b == 0x3f || b == 0x2a
}

proof fn lemma_plain_from(pattern: Seq<u8>, name: Seq<u8>, pi: int, ni: int)
    requires
        0 <= pi <= pattern.len(),
        0 <= ni <= name.len(),
        forall|i: int| 0 <= i < pattern.len() ==> !is_special(#[trigger] pattern[i]),
    ensures
        fits_from(pattern, pi, name, ni) == (pattern.skip(pi) == name.skip(ni)),
    decreases pattern.len() - pi,
{
    let p = pattern.skip(pi);
    let n = name.skip(ni);
    if pi < pattern.len() {
        assert(!is_special(pattern[pi]));
        if ni < name.len() {
            lemma_plain_from(pattern, name, pi + 1, ni + 1);
            assert(p =~= seq![pattern[pi]] + pattern.skip(pi + 1));
            assert(n =~= seq![name[ni]] + name.skip(ni + 1));
            if p == n {
                assert(p[0] == n[0]);
                assert(pattern.skip(pi + 1) =~= p.skip(1));
                assert(name.skip(ni + 1) =~= n.skip(1));
            }
        } else {
            assert(n.len() == 0);
        }
    } else {
        assert(p.len() == 0);
        if ni == name.len() {
            assert(p =~= n);
        }
    }
}

/// A pattern without special bytes fits nothing but itself.
pub proof fn law_plain_pattern(pattern: Seq<u8>, name: Seq<u8>)
    requires
        forall|i: int| 0 <= i < pattern.len() ==> !is_special(#[trigger] pattern[i]),
    ensures
        fits(pattern, name) == (pattern == name),
{
    lemma_plain_from(pattern, name, 0, 0);
    assert(pattern.skip(0) =~= pattern);
    assert(name.skip(0) =~= name);
}

/// A star in front lets anything stand in front of what the rest fits; alone it
/// fits everything.
pub proof fn law_star(rest: Seq<u8>, front: Seq<u8>, name: Seq<u8>)
    requires
        rest.len() > 0 ==> rest[0] != 0x2a,
        fits(rest, name),
    ensures
        fits(seq![0x2au8] + rest, front + name),
{
    let p = seq![0x2au8] + rest;
    let all = front + name;
    assert(after_stars(p, 1) == 1) by {
        if rest.len() > 0 {
            assert(p[1] == rest[0]);
        }
    }
    assert(after_stars(p, 0) == 1);
    assert(name =~= all.skip(front.len() as int));
    lemma_shift(p, rest, all, name, front.len() as int, 0, 0);
    lemma_behind(p, 1, all, 0, front.len() as int);
}

proof fn lemma_behind(pattern: Seq<u8>, pi: int, name: Seq<u8>, ni: int, at: int)
    requires
        0 <= pi <= pattern.len(),
        0 <= ni <= at <= name.len(),
        fits_from(pattern, pi, name, at),
    ensures
        fits_behind(pattern, pi, name, ni),
    decreases at - ni,
{
    if ni < at {
        lemma_behind(pattern, pi, name, ni + 1, at);
    }
}

proof fn lemma_after_stars_shift(p: Seq<u8>, rest: Seq<u8>, pi: int)
    requires
        p == seq![0x2au8] + rest,
        0 <= pi <= rest.len(),
    ensures
        after_stars(p, pi + 1) == after_stars(rest, pi) + 1,
    decreases rest.len() - pi,
{
    if pi < rest.len() {
        assert(p[pi + 1] == rest[pi]);
        if rest[pi] == 0x2a {
            lemma_after_stars_shift(p, rest, pi + 1);
        }
    }
}

proof fn lemma_shift(
    p: Seq<u8>,
    rest: Seq<u8>,
    all: Seq<u8>,
    name: Seq<u8>,
    d: int,
    pi: int,
    ni: int,
)
    requires
        p == seq![0x2au8] + rest,
        0 <= d <= all.len(),
        name == all.skip(d),
        0 <= pi <= rest.len(),
        0 <= ni <= name.len(),
        fits_from(rest, pi, name, ni),
    ensures
        fits_from(p, pi + 1, all, ni + d),
    decreases rest.len() - pi, 0int,
{
    if pi < rest.len() {
        assert(p[pi + 1] == rest[pi]);
        if ni < name.len() {
            assert(name[ni] == all[ni + d]);
        }
        if rest[pi] == 0x5c && pi + 1 < rest.len() {
            assert(p[pi + 2] == rest[pi + 1]);
            lemma_shift(p, rest, all, name, d, pi + 2, ni + 1);
        } else if rest[pi] == 0x2a {
            lemma_after_stars(rest, pi);
            lemma_after_stars_shift(p, rest, pi);
            lemma_shift_behind(p, rest, all, name, d, after_stars(rest, pi), ni);
        } else {
            lemma_shift(p, rest, all, name, d, pi + 1, ni + 1);
        }
    }
}

proof fn lemma_shift_behind(
    p: Seq<u8>,
    rest: Seq<u8>,
    all: Seq<u8>,
    name: Seq<u8>,
    d: int,
    pi: int,
    ni: int,
)
    requires
        p == seq![0x2au8] + rest,
        0 <= d <= all.len(),
        name == all.skip(d),
        0 <= pi <= rest.len(),
        0 <= ni <= name.len(),
        fits_behind(rest, pi, name, ni),
    ensures
        fits_behind(p, pi + 1, all, ni + d),
    decreases rest.len() - pi, name.len() - ni + 1,
{
    if fits_from(rest, pi, name, ni) {
        lemma_shift(p, rest, all, name, d, pi, ni);
    } else {
        assert(fits_behind(rest, pi, name, ni + 1));
        lemma_shift_behind(p, rest, all, name, d, pi, ni + 1);
    }
}

pub open spec fn is_number_space(c: char) -> bool {
    c == ' ' || c == '\t' || c == '\n' || c == '\r' || c == '\x0b' || c == '\x0c'
}

/// The first place from `i` on without white space.
pub open spec fn after_number_space(s: Seq<char>, i: int) -> int
    decreases s.len() - i,
{
    if 0 <= i < s.len() && is_number_space(s[i]) {
        after_number_space(s, i + 1)
    } else {
        i
    }
}

/// The first place from `i` on without a digit.
pub open spec fn after_digits(s: Seq<char>, i: int) -> int
    decreases s.len() - i,
{
    if 0 <= i < s.len() && num::is_digit(s[i]) {
        after_digits(s, i + 1)
    } else {
        i
    }
}

/// Nothing but blanks stands from `i` on.
pub open spec fn only_blanks(s: Seq<char>, i: int) -> bool {
    forall|k: int|
        i <= k < s.len() ==> (#[trigger] s[k] == ' ' || s[k] == '\t' || s[k] == '\r' || s[k]
            == '\n')
}

pub open spec fn has_sign(s: Seq<char>, i: int) -> bool {
    0 <= i < s.len() && (s[i] == '+' || s[i] == '-')
}

/// The number that `s` writes, white space around it allowed.
pub open spec fn written_number(s: Seq<char>) -> Option<int> {
    let a = after_number_space(s, 0);
    let b = if has_sign(s, a) {
        a + 1
    } else {
        a
    };
    let e = after_digits(s, b);
    if e <= b || !only_blanks(s, e) {
        None
    } else if has_sign(s, a) && s[a] == '-' {
        Some(-(num::digits_value(s.subrange(b, e)) as int))
    } else {
        Some(num::digits_value(s.subrange(b, e)) as int)
    }
}

pub open spec fn clamped(v: int, min: int, max: int) -> int {
    if v < min {
        min
    } else if v > max {
        max
    } else {
        v
    }
}

/// The number that a value writes, brought between `min` and `max`; `default`
/// where there is no value or it writes none.
pub open spec fn int_or(value: Option<&str>, default: i32, min: i32, max: i32) -> int {
    match value {
        None => default as int,
        Some(s) => match written_number(s@) {
            None => default as int,
            Some(v) => clamped(v, min as int, max as int),
        },
    }
}

/// Above every 32-bit number.
pub const BEYOND: u64 = 0x1_0000_0000;

proof fn lemma_after_number_space(s: Seq<char>, i: int)
    requires
        0 <= i <= s.len(),
    ensures
        i <= after_number_space(s, i) <= s.len(),
    decreases s.len() - i,
{
    if i < s.len() && is_number_space(s[i]) {
        lemma_after_number_space(s, i + 1);
    }
}

fn blanks_from(s: &[char], from: usize) -> (r: bool)
    requires
        from <= s@.len(),
    ensures
        r == only_blanks(s@, from as int),
{
    let n: usize = s.len();
    let mut i: usize = from;
    while i < n
        invariant
            n == s@.len(),
            from <= i <= n,
            forall|k: int|
                from <= k < i ==> (#[trigger] s@[k] == ' ' || s@[k] == '\t' || s@[k] == '\r'
                    || s@[k] == '\n'),
        decreases n - i,
    {
        let c = s[i];
        if !(c == ' ' || c == '\t' || c == '\r' || c == '\n') {
            assert(!only_blanks(s@, from as int)) by {
                assert(s@[i as int] == c);
            }
            return false;
        }
        i += 1;
    }
    true
}

/// Reads the digits from `from` on: where they end, and their number where it
/// is below [`BEYOND`], which stands for every other.
fn read_digits(s: &[char], from: usize) -> (r: (usize, u64))
    requires
        from <= s@.len(),
    ensures
        r.0 == after_digits(s@, from as int),
        from <= r.0 <= s@.len(),
        r.1 <= BEYOND,
        r.1 < BEYOND ==> r.1 == num::digits_value(s@.subrange(from as int, r.0 as int)),
        r.1 == BEYOND ==> num::digits_value(s@.subrange(from as int, r.0 as int)) >= BEYOND,
{
    let n: usize = s.len();
    let mut i: usize = from;
    let mut v: u64 = 0;
    assert(s@.subrange(from as int, from as int).len() == 0);
    while i < n && '0' <= s[i] && s[i] <= '9'
        invariant
            n == s@.len(),
            from <= i <= n,
            after_digits(s@, from as int) == after_digits(s@, i as int),
            v <= BEYOND,
            v < BEYOND ==> v == num::digits_value(s@.subrange(from as int, i as int)),
            v == BEYOND ==> num::digits_value(s@.subrange(from as int, i as int)) >= BEYOND,
        decreases n - i,
    {
        let d: u64 = (s[i] as u32 - 48) as u64;
        proof {
            let t = s@.subrange(from as int, i + 1);
            assert(t.drop_last() =~= s@.subrange(from as int, i as int));
            assert(t.last() == s@[i as int]);
        }
        if v < BEYOND {
            v = v * 10 + d;
            if v > BEYOND {
                v = BEYOND;
            }
        }
        i += 1;
    }
    (i, v)
}

/// The number that a value writes, brought between `min` and `max`; `default`
/// where there is none.
pub fn parse_int_default(value: Option<&str>, default: i32, min: i32, max: i32) -> (r: i32)
    requires
        min <= max,
    ensures
        r == int_or(value, default, min, max),
{
    let s = match value {
        None => {
            return default;
        },
        Some(v) => chars_of(v),
    };
    let n: usize = s.len();
    let mut a: usize = 0;
    while a < n && (s[a] == ' ' || s[a] == '\t' || s[a] == '\n' || s[a] == '\r' || s[a] == '\x0b'
        || s[a] == '\x0c')
        invariant
            n == s@.len(),
            a <= n,
            after_number_space(s@, 0) == after_number_space(s@, a as int),
        decreases n - a,
    {
        a += 1;
    }
    let mut b: usize = a;
    let mut negative = false;
    if a < n && (s[a] == '+' || s[a] == '-') {
        negative = s[a] == '-';
        b = a + 1;
    }
    let (e, v) = read_digits(s.as_slice(), b);
    if e <= b || !blanks_from(s.as_slice(), e) {
        return default;
    }
    let x: i64 = if negative {
        -(v as i64)
    } else {
        v as i64
    };
    if x < min as i64 {
        min
    } else if x > max as i64 {
        max
    } else {
        x as i32
    }
}

/// A number as a size; 0 where it is negative.
pub fn clamp_usize(value: i32) -> (r: usize)
    ensures
        r == if value < 0 {
            0
        } else {
            value as int
        },
{
    if value < 0 {
        0
    } else {
        value as usize
    }
}

proof fn lemma_stars_from(p: Seq<u8>, dp: int, pi: int)
    requires
        0 <= dp,
        0 <= pi,
        dp + pi <= p.len(),
    ensures
        after_stars(p, dp + pi) == dp + after_stars(p.skip(dp), pi),
    decreases p.len() - dp - pi,
{
    if dp + pi < p.len() {
        assert(p.skip(dp)[pi] == p[dp + pi]);
        if p[dp + pi] == 0x2a {
            lemma_stars_from(p, dp, pi + 1);
        }
    }
}

/// Whether a pattern fits from some place on depends on what stands from there
/// on alone.
proof fn lemma_fits_from(p: Seq<u8>, dp: int, pi: int, all: Seq<u8>, d: int, ni: int)
    requires
        0 <= dp,
        0 <= pi,
        dp + pi <= p.len(),
        0 <= d,
        0 <= ni,
        d + ni <= all.len(),
    ensures
        fits_from(p, dp + pi, all, d + ni) == fits_from(p.skip(dp), pi, all.skip(d), ni),
    decreases p.len() - dp - pi, 0int,
{
    let q = p.skip(dp);
    let b = all.skip(d);
    if dp + pi < p.len() {
        assert(q[pi] == p[dp + pi]);
        if d + ni < all.len() {
            assert(b[ni] == all[d + ni]);
        }
        if q[pi] == 0x5c && pi + 1 < q.len() {
            assert(q[pi + 1] == p[dp + pi + 1]);
            if d + ni < all.len() {
                lemma_fits_from(p, dp, pi + 2, all, d, ni + 1);
            }
        } else if q[pi] == 0x2a {
            lemma_stars_from(p, dp, pi);
            lemma_after_stars(q, pi);
            lemma_fits_behind(p, dp, after_stars(q, pi), all, d, ni);
        } else {
            if d + ni < all.len() {
                lemma_fits_from(p, dp, pi + 1, all, d, ni + 1);
            }
        }
    }
}

proof fn lemma_fits_behind(p: Seq<u8>, dp: int, pi: int, all: Seq<u8>, d: int, ni: int)
    requires
        0 <= dp,
        0 <= pi,
        dp + pi <= p.len(),
        0 <= d,
        0 <= ni,
        d + ni <= all.len(),
    ensures
        fits_behind(p, dp + pi, all, d + ni) == fits_behind(p.skip(dp), pi, all.skip(d), ni),
    decreases p.len() - dp - pi, all.len() - d - ni + 1,
{
    lemma_fits_from(p, dp, pi, all, d, ni);
    if d + ni < all.len() {
        lemma_fits_behind(p, dp, pi, all, d, ni + 1);
    } else {
        assert(!fits_behind(p, dp + pi, all, d + ni + 1));
        assert(!fits_behind(p.skip(dp), pi, all.skip(d), ni + 1));
    }
}

proof fn lemma_behind_some(p: Seq<u8>, pi: int, name: Seq<u8>, ni: int)
    requires
        0 <= pi <= p.len(),
        0 <= ni <= name.len(),
    ensures
        fits_behind(p, pi, name, ni) <==> exists|k: int|
            ni <= k <= name.len() && #[trigger] fits_from(p, pi, name, k),
    decreases name.len() - ni,
{
    if ni < name.len() {
        lemma_behind_some(p, pi, name, ni + 1);
        if fits_from(p, pi, name, ni) {
            assert(ni <= ni <= name.len() && fits_from(p, pi, name, ni));
        }
    } else {
        assert(!fits_behind(p, pi, name, ni + 1));
        if fits_from(p, pi, name, ni) {
            assert(ni <= ni <= name.len() && fits_from(p, pi, name, ni));
        }
    }
}

/// What a pattern fits, by its first byte: nothing but the empty name where it
/// is empty; any one byte for a question mark; the byte behind a backslash; any
/// bytes, also none, for a star; and for every other byte, and for a backslash
/// with nothing behind it, that byte. Then the rest fits the rest.
pub proof fn law_pattern_by_its_first_byte(c: u8, rest: Seq<u8>, name: Seq<u8>)
    ensures
        fits(Seq::<u8>::empty(), name) == (name.len() == 0),
        c == 0x3f ==> fits(seq![c] + rest, name) == (name.len() > 0 && fits(rest, name.skip(1))),
        c == 0x5c && rest.len() > 0 ==> fits(seq![c] + rest, name) == (name.len() > 0 && name[0]
            == rest[0] && fits(rest.skip(1), name.skip(1))),
        c != 0x3f && c != 0x2a && (c != 0x5c || rest.len() == 0) ==> fits(seq![c] + rest, name)
            == (name.len() > 0 && name[0] == c && fits(rest, name.skip(1))),
        c == 0x2a && (rest.len() == 0 || rest[0] != 0x2a) ==> (fits(seq![c] + rest, name)
            <==> exists|k: int| 0 <= k <= name.len() && fits(rest, #[trigger] name.skip(k))),
        c == 0x2a && rest.len() > 0 && rest[0] == 0x2a ==> fits(seq![c] + rest, name) == fits(
            rest,
            name,
        ),
{
    let p = seq![c] + rest;
    assert(p.skip(1) =~= rest);
    assert(p[0] == c);
    if name.len() > 0 {
        lemma_fits_from(p, 1, 0, name, 1, 0);
        if rest.len() > 0 {
            assert(p[1] == rest[0]);
            assert(p.skip(2) =~= rest.skip(1));
            lemma_fits_from(p, 2, 0, name, 1, 0);
        }
    }
    if c == 0x2a && (rest.len() == 0 || rest[0] != 0x2a) {
        if rest.len() > 0 {
            assert(p[1] == rest[0]);
        }
        assert(after_stars(p, 1) == 1);
        assert(after_stars(p, 0) == 1);
        lemma_behind_some(p, 1, name, 0);
        assert forall|k: int| 0 <= k <= name.len() implies fits_from(p, 1, name, k) == fits(
            rest,
            #[trigger] name.skip(k),
        ) by {
            lemma_fits_from(p, 1, 0, name, k, 0);
        }
        if fits(p, name) {
            let k = choose|k: int| 0 <= k <= name.len() && #[trigger] fits_from(p, 1, name, k);
            assert(fits(rest, name.skip(k)));
        }
        if exists|k: int| 0 <= k <= name.len() && fits(rest, #[trigger] name.skip(k)) {
            let k = choose|k: int| 0 <= k <= name.len() && fits(rest, #[trigger] name.skip(k));
            assert(fits_from(p, 1, name, k));
        }
    }
    if c == 0x2a && rest.len() > 0 && rest[0] == 0x2a {
        assert(p[1] == rest[0]);
        lemma_stars_from(p, 1, 0);
        lemma_after_stars(rest, 0);
        assert(name.skip(0) =~= name);
        lemma_fits_behind(p, 1, after_stars(rest, 0), name, 0, 0);
    }
}

/// A buffer keeps what it is given, up to 131072 bytes in all; what is left out
/// is left out at the end, and from then on nothing is added.
pub proof fn law_buffer_keeps_what_fits(b: Body, more: Seq<u8>)
    requires
        b.well_formed(),
    ensures
        !b.truncated && b.bytes.len() + more.len() <= 131_072 ==> b.plus(more).bytes == b.bytes
            + more && !b.plus(more).truncated,
        !b.truncated && b.bytes.len() + more.len() > 131_072 ==> b.plus(more).bytes == (b.bytes
            + more).take(131_072) && b.plus(more).truncated,
        b.truncated ==> b.plus(more) == b,
{
}

} // verus!
