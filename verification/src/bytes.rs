//! Little-endian integers in byte sequences, and searching bytes.

use crate::text;
use crate::text::{push_i64, push_u64};
use vstd::prelude::*;
use vstd::string::*;
use vstd::utf8::*;

verus! {

/// Appends `more`.
pub fn push_bytes(out: &mut Vec<u8>, more: &[u8])
    ensures
        final(out)@ == old(out)@ + more@,
{
    out.extend_from_slice(more);
    assert(out@ =~= old(out)@ + more@);
}

/// Joining is associative.
pub proof fn lemma_join(a: Seq<u8>, b: Seq<u8>, c: Seq<u8>)
    ensures
        a + b + c == a + (b + c),
{
    assert(a + b + c =~= a + (b + c));
}

/// Appends `s` in UTF-8.
pub fn push_text(out: &mut Vec<u8>, s: &str)
    ensures
        final(out)@ == old(out)@ + encode_utf8(s@),
{
    push_bytes(out, s.as_bytes());
}

/// Appends `n` in decimal.
pub fn push_decimal(out: &mut Vec<u8>, n: u64)
    ensures
        final(out)@ == old(out)@ + encode_utf8(text::decimal(n as nat)),
{
    let mut s = String::new();
    push_u64(&mut s, n);
    assert(s@ =~= text::decimal(n as nat));
    push_text(out, s.as_str());
}

/// Appends `n` in decimal.
pub fn push_signed(out: &mut Vec<u8>, n: i64)
    ensures
        final(out)@ == old(out)@ + encode_utf8(text::signed_decimal(n as int)),
{
    let mut s = String::new();
    push_i64(&mut s, n);
    assert(s@ =~= text::signed_decimal(n as int));
    push_text(out, s.as_str());
}

/// The 16-bit integer whose bytes start at `pos`, low byte first.
pub open spec fn le16(data: Seq<u8>, pos: int) -> int {
    data[pos] + 0x100 * data[pos + 1]
}

/// The 32-bit integer whose bytes start at `pos`, low byte first.
pub open spec fn le32(data: Seq<u8>, pos: int) -> int {
    data[pos] + 0x100 * data[pos + 1] + 0x1_0000 * data[pos + 2] + 0x100_0000 * data[pos + 3]
}

/// The 64-bit integer whose bytes start at `pos`, low byte first.
pub open spec fn le64(data: Seq<u8>, pos: int) -> int {
    le32(data, pos) + 0x1_0000_0000 * le32(data, pos + 4)
}

/// The bytes of a 32-bit integer, low byte first.
pub open spec fn le32_bytes(v: u32) -> Seq<u8> {
    seq![
        (v % 0x100) as u8,
        ((v / 0x100) % 0x100) as u8,
        ((v / 0x1_0000) % 0x100) as u8,
        (v / 0x100_0000) as u8,
    ]
}

/// The bytes of a 64-bit integer, low byte first.
pub open spec fn le64_bytes(v: u64) -> Seq<u8> {
    le32_bytes((v % 0x1_0000_0000) as u32) + le32_bytes((v / 0x1_0000_0000) as u32)
}

pub fn read_le16(data: &[u8], pos: usize) -> (r: u16)
    requires
        pos + 2 <= data@.len(),
    ensures
        r == le16(data@, pos as int),
{
    data[pos] as u16 + 0x100 * data[pos + 1] as u16
}

pub fn read_le32(data: &[u8], pos: usize) -> (r: u32)
    requires
        pos + 4 <= data@.len(),
    ensures
        r == le32(data@, pos as int),
{
    data[pos] as u32 + 0x100 * data[pos + 1] as u32 + 0x1_0000 * data[pos + 2] as u32 + 0x100_0000
        * data[pos + 3] as u32
}

pub fn read_le64(data: &[u8], pos: usize) -> (r: u64)
    requires
        pos + 8 <= data@.len(),
    ensures
        r == le64(data@, pos as int),
{
    let n: usize = data.len();
    assert(pos + 8 <= n);
    read_le32(data, pos) as u64 + 0x1_0000_0000 * read_le32(data, pos + 4) as u64
}

/// Appends the bytes of `v`, low byte first.
pub fn push_le32(out: &mut Vec<u8>, v: u32)
    ensures
        final(out)@ == old(out)@ + le32_bytes(v),
{
    out.push((v % 0x100) as u8);
    out.push(((v / 0x100) % 0x100) as u8);
    out.push(((v / 0x1_0000) % 0x100) as u8);
    out.push((v / 0x100_0000) as u8);
}

/// Appends the bytes of `v`, low byte first.
pub fn push_le64(out: &mut Vec<u8>, v: u64)
    ensures
        final(out)@ == old(out)@ + le64_bytes(v),
{
    push_le32(out, (v % 0x1_0000_0000) as u32);
    push_le32(out, (v / 0x1_0000_0000) as u32);
}

/// Reading back the bytes of a 32-bit integer gives the integer.
pub proof fn law_le32_round_trip(v: u32)
    ensures
        le32_bytes(v).len() == 4,
        le32(le32_bytes(v), 0) == v,
{
}

/// Reading back the bytes of a 64-bit integer gives the integer.
pub proof fn law_le64_round_trip(v: u64)
    ensures
        le64_bytes(v).len() == 8,
        le64(le64_bytes(v), 0) == v,
{
    let lo = (v % 0x1_0000_0000) as u32;
    let hi = (v / 0x1_0000_0000) as u32;
    law_le32_round_trip(lo);
    law_le32_round_trip(hi);
    let b = le64_bytes(v);
    assert(le32(b, 0) == le32(le32_bytes(lo), 0));
    assert(le32(b, 4) == le32(le32_bytes(hi), 0));
}

/// `pat` occurs in `data` at `at`.
pub open spec fn occurs_at(data: Seq<u8>, pat: Seq<u8>, at: int) -> bool {
    0 <= at && at + pat.len() <= data.len() && data.subrange(at, at + pat.len()) == pat
}

/// Whether `pat` occurs in `data` at `at`.
pub fn matches_at(data: &[u8], pat: &[u8], at: usize) -> (r: bool)
    requires
        at <= data@.len(),
    ensures
        r == occurs_at(data@, pat@, at as int),
{
    if pat.len() > data.len() - at {
        return false;
    }
    let n: usize = data.len();
    let mut i: usize = 0;
    while i < pat.len()
        invariant
            n == data@.len(),
            at + pat@.len() <= data@.len(),
            i <= pat@.len(),
            forall|k: int| 0 <= k < i ==> data@[at + k] == pat@[k],
        decreases pat@.len() - i,
    {
        if data[at + i] != pat[i] {
            assert(data@.subrange(at as int, at + pat@.len())[i as int] != pat@[i as int]);
            return false;
        }
        i += 1;
    }
    assert(data@.subrange(at as int, at + pat@.len()) =~= pat@);
    true
}

/// The first place at or after `from` where `pat` occurs in `data`.
pub open spec fn first_at(data: Seq<u8>, pat: Seq<u8>, from: int) -> Option<int>
    decreases data.len() + 1 - from,
{
    if from < 0 || from > data.len() {
        None
    } else if occurs_at(data, pat, from) {
        Some(from)
    } else {
        first_at(data, pat, from + 1)
    }
}

/// The first place at or after `from` where `pat` occurs in `data`.
pub fn find(data: &[u8], pat: &[u8], from: usize) -> (r: Option<usize>)
    requires
        from <= data@.len(),
    ensures
        match (r, first_at(data@, pat@, from as int)) {
            (Some(i), Some(k)) => i == k,
            (None, None) => true,
            _ => false,
        },
{
    let mut at: usize = from;
    loop
        invariant
            from <= at <= data@.len(),
            first_at(data@, pat@, from as int) == first_at(data@, pat@, at as int),
        decreases data@.len() - at,
    {
        if matches_at(data, pat, at) {
            return Some(at);
        }
        if at == data.len() {
            assert(first_at(data@, pat@, at + 1) is None);
            return None;
        }
        at += 1;
    }
}

/// What [`first_at`] finds: an occurrence with none before it, or nothing
/// where there is none.
pub proof fn lemma_first_at(data: Seq<u8>, pat: Seq<u8>, from: int)
    requires
        0 <= from,
    ensures
        match first_at(data, pat, from) {
            Some(k) => {
                &&& from <= k
                &&& occurs_at(data, pat, k)
                &&& forall|j: int| from <= j < k ==> !occurs_at(data, pat, j)
            },
            None => forall|j: int| from <= j ==> !occurs_at(data, pat, j),
        },
    decreases data.len() + 1 - from,
{
    if from <= data.len() && !occurs_at(data, pat, from) {
        lemma_first_at(data, pat, from + 1);
    }
}

/// The low byte of an integer comes first: each byte counts 256 times as much as
/// the one before it.
pub proof fn law_low_byte_first(data: Seq<u8>, pos: int)
    ensures
        le16(data, pos) == data[pos] + 256 * data[pos + 1],
        le32(data, pos) == data[pos] + 256 * (data[pos + 1] + 256 * (data[pos + 2] + 256 * data[pos
            + 3])),
        le64(data, pos) == data[pos] + 256 * (data[pos + 1] + 256 * (data[pos + 2] + 256 * (data[pos
            + 3] + 256 * (data[pos + 4] + 256 * (data[pos + 5] + 256 * (data[pos + 6] + 256
            * data[pos + 7])))))),
{
}

/// The first place where some bytes occur is a place where they do, and no place
/// in front of it is.
pub proof fn law_first_place(data: Seq<u8>, pat: Seq<u8>, from: int, k: int)
    requires
        0 <= from <= k,
        k + pat.len() <= data.len(),
        data.subrange(k, k + pat.len()) == pat,
        forall|j: int|
            from <= j < k ==> #[trigger] data.subrange(j, j + pat.len()) != pat,
    ensures
        first_at(data, pat, from) == Some(k),
{
    lemma_first_at(data, pat, from);
    assert(occurs_at(data, pat, k));
    let f = first_at(data, pat, from)->0;
    assert(data.subrange(f, f + pat.len()) == pat);
}

} // verus!
