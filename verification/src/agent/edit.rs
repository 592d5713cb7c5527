//! The tool that replaces a piece of a file.

use crate::agent::approval;
use crate::agent::approval::{Approval, Permission};
use crate::agent::lines;
use crate::agent::lines::{split_lines, LineSpan};
use crate::agent::write::WriteOutcome;
use crate::bytes;
use crate::bytes::{find, push_bytes, push_text};
use crate::text;
use crate::text::{push_i64, push_u64};
use vstd::prelude::*;
use vstd::slice::*;
use vstd::string::*;
use vstd::utf8::*;

verus! {

/// The name of the tool.
pub const EDIT: &'static str = "edit";

pub const CONTEXT_BEFORE: i64 = 5;

pub const CONTEXT_AFTER: i64 = 8;

pub const EDITED_HEAD: i64 = 18;

pub const EDITED_TAIL: i64 = 18;

/// What a call comes to before the file is read.
#[derive(Debug)]
pub enum EditStep {
    /// It is answered at once.
    Answer(&'static str),
    Read,
}

/// Whether a call has what it needs.
pub fn check_edit(path: Option<&str>, old: Option<&str>, new: Option<&str>) -> (r: EditStep)
    ensures
        match r {
            EditStep::Answer(s) => if !crate::agent::write::given(path) {
                s@ == "Tool error: edit requires path\n"@
            } else if !crate::agent::write::given(old) {
                s@ == "Tool error: edit requires non-empty old text\n"@
            } else {
                new is None && s@ == "Tool error: edit requires new text\n"@
            },
            EditStep::Read => crate::agent::write::given(path) && crate::agent::write::given(old) && new is Some,
        },
{
    match path {
        Some(path) if path.unicode_len() > 0 => {},
        _ => {
            return EditStep::Answer("Tool error: edit requires path\n");
        },
    }
    match old {
        Some(old) if old.unicode_len() > 0 => {},
        _ => {
            return EditStep::Answer("Tool error: edit requires non-empty old text\n");
        },
    }
    if new.is_none() {
        return EditStep::Answer("Tool error: edit requires new text\n");
    }
    EditStep::Read
}

/// An error as the tool answers it.
pub open spec fn wrapped(detail: Seq<u8>) -> Seq<u8> {
    encode_utf8("Tool error: "@) + detail + encode_utf8("\n"@)
}

/// An error as the tool answers it.
pub fn wrap_error(detail: &[u8]) -> (r: Vec<u8>)
    ensures
        r@ == wrapped(detail@),
{
    let mut out: Vec<u8> = Vec::new();
    push_text(&mut out, "Tool error: ");
    push_bytes(&mut out, detail);
    push_text(&mut out, "\n");
    assert(out@ =~= wrapped(detail@));
    out
}

/// `needle` occurs in `data` at `at`, not before `from`, and nowhere else from
/// there on.
pub open spec fn only_at(data: Seq<u8>, needle: Seq<u8>, from: int, at: int) -> bool {
    &&& from <= at
    &&& bytes::occurs_at(data, needle, at)
    &&& forall|j: int| from <= j && bytes::occurs_at(data, needle, j) ==> j == at
}

/// `needle` does not occur in `data` from `from` on.
pub open spec fn nowhere(data: Seq<u8>, needle: Seq<u8>, from: int) -> bool {
    forall|j: int| from <= j ==> !bytes::occurs_at(data, needle, j)
}

/// How often a text occurs.
#[derive(Clone, Copy, Debug, PartialEq, Eq, Structural)]
pub enum Found {
    /// Not at all.
    Nowhere,
    /// Only at this place.
    Once(usize),
    /// More often.
    Often,
}

/// How often `needle`, which is not empty, occurs in `data` from `from` on.
pub fn find_once(data: &[u8], needle: &[u8], from: usize) -> (r: Found)
    requires
        from <= data@.len(),
        needle@.len() > 0,
    ensures
        match r {
            Found::Nowhere => nowhere(data@, needle@, from as int),
            Found::Once(at) => only_at(data@, needle@, from as int, at as int),
            Found::Often => !nowhere(data@, needle@, from as int) && !exists|at: int|
                only_at(data@, needle@, from as int, at),
        },
{
    let n: usize = data.len();
    proof {
        bytes::lemma_first_at(data@, needle@, from as int);
    }
    match find(data, needle, from) {
        None => Found::Nowhere,
        Some(first) => {
            proof {
                bytes::lemma_first_at(data@, needle@, first + 1);
            }
            match find(data, needle, first + 1) {
                None => Found::Once(first),
                Some(second) => {
                    assert forall|at: int| !only_at(data@, needle@, from as int, at) by {
                        assert(bytes::occurs_at(data@, needle@, first as int));
                        assert(bytes::occurs_at(data@, needle@, second as int));
                    }
                    Found::Often
                },
            }
        },
    }
}

/// Where the old text lies in the file.
#[derive(Clone, Copy, Debug, PartialEq, Eq, Structural)]
pub struct OldSpan {
    pub offset: usize,
    pub len: usize,
    /// It was given by its head and its tail.
    pub anchored: bool,
}

/// The mark between the head and the tail of an old text.
pub open spec fn upto() -> Seq<u8> {
    encode_utf8("[upto]"@)
}

pub open spec fn is_ascii_blank(b: u8) -> bool {
    b == 0x20 || b == 0x09 || b == 0x0a || b == 0x0c || b == 0x0d
}

pub open spec fn all_blank(s: Seq<u8>) -> bool {
    forall|i: int| 0 <= i < s.len() ==> is_ascii_blank(#[trigger] s[i])
}

/// The head and the tail of an old text with a mark at `k`.
pub open spec fn head_of(old: Seq<u8>, k: int) -> Seq<u8> {
    old.subrange(0, k)
}

pub open spec fn tail_of(old: Seq<u8>, k: int) -> Seq<u8> {
    old.subrange(k + upto().len(), old.len() as int)
}

/// The complaint about a text that is to be found once in all of `data`.
pub open spec fn complaint(data: Seq<u8>, needle: Seq<u8>, label: Seq<char>) -> Option<Seq<char>> {
    if needle.len() == 0 {
        Some(label + " anchor is empty"@)
    } else if nowhere(data, needle, 0) {
        Some(label + " anchor not found"@)
    } else if !exists|at: int| only_at(data, needle, 0, at) {
        Some(label + " anchor is not unique"@)
    } else {
        None
    }
}

/// The complaint about a tail that is to be found once from `from` on.
pub open spec fn tail_complaint(data: Seq<u8>, needle: Seq<u8>, from: int) -> Option<Seq<char>> {
    if nowhere(data, needle, from) {
        Some("old tail anchor not found after old head"@)
    } else if !exists|at: int| only_at(data, needle, from, at) {
        Some("old tail anchor is not unique after old head"@)
    } else {
        None
    }
}

/// The place where `needle` occurs, where that is one place.
pub open spec fn place(data: Seq<u8>, needle: Seq<u8>, from: int) -> int {
    choose|at: int| only_at(data, needle, from, at)
}

/// Where the old text lies: it occurs exactly once. An old text with a mark is
/// everything from its head to its tail; the head occurs once, and the tail
/// once behind it.
pub open spec fn old_span(data: Seq<u8>, old: Seq<u8>) -> Result<(int, int, bool), Seq<char>> {
    match bytes::first_at(old, upto(), 0) {
        None => match complaint(data, old, "old text"@) {
            Some(e) => Err(e),
            None => Ok((place(data, old, 0), old.len() as int, false)),
        },
        Some(k) => {
            let head = head_of(old, k);
            let tail = tail_of(old, k);
            if !nowhere(old, upto(), k + upto().len()) {
                Err("old text contains more than one [upto] marker"@)
            } else if all_blank(tail) {
                Err("old text after [upto] must include a unique tail anchor"@)
            } else {
                match complaint(data, head, "old head"@) {
                    Some(e) => Err(e),
                    None => {
                        let h = place(data, head, 0);
                        match tail_complaint(data, tail, h + head.len()) {
                            Some(e) => Err(e),
                            None => {
                                let t = place(data, tail, h + head.len());
                                Ok((h, t - h + tail.len(), true))
                            },
                        }
                    },
                }
            }
        },
    }
}

/// `r` is what `model` states.
pub open spec fn span_matches(
    r: Result<OldSpan, String>,
    model: Result<(int, int, bool), Seq<char>>,
) -> bool {
    match (r, model) {
        (Ok(s), Ok(m)) => s.offset == m.0 && s.len == m.1 && s.anchored == m.2,
        (Err(e), Err(x)) => e@ == x,
        _ => false,
    }
}

fn labelled(label: &str, rest: &str) -> (r: String)
    ensures
        r@ == label@ + rest@,
{
    let mut r = String::from_str(label);
    r.append(rest);
    r
}

fn find_unique(data: &[u8], needle: &[u8], label: &str) -> (r: Result<usize, String>)
    ensures
        match (r, complaint(data@, needle@, label@)) {
            (Ok(at), None) => at == place(data@, needle@, 0) && only_at(
                data@,
                needle@,
                0,
                at as int,
            ),
            (Err(e), Some(x)) => e@ == x,
            _ => false,
        },
{
    if needle.len() == 0 {
        return Err(labelled(label, " anchor is empty"));
    }
    match find_once(data, needle, 0) {
        Found::Nowhere => Err(labelled(label, " anchor not found")),
        Found::Often => Err(labelled(label, " anchor is not unique")),
        Found::Once(at) => {
            assert(only_at(data@, needle@, 0, at as int));
            assert(bytes::occurs_at(data@, needle@, at as int));
            Ok(at)
        },
    }
}

fn find_unique_after(data: &[u8], start: usize, needle: &[u8]) -> (r: Result<usize, String>)
    requires
        start <= data@.len(),
        needle@.len() > 0,
    ensures
        match (r, tail_complaint(data@, needle@, start as int)) {
            (Ok(at), None) => at == place(data@, needle@, start as int) && only_at(
                data@,
                needle@,
                start as int,
                at as int,
            ),
            (Err(e), Some(x)) => e@ == x,
            _ => false,
        },
{
    match find_once(data, needle, start) {
        Found::Nowhere => Err(String::from_str("old tail anchor not found after old head")),
        Found::Often => Err(String::from_str("old tail anchor is not unique after old head")),
        Found::Once(at) => {
            assert(only_at(data@, needle@, start as int, at as int));
            assert(bytes::occurs_at(data@, needle@, at as int));
            Ok(at)
        },
    }
}

fn blank(s: &[u8]) -> (r: bool)
    ensures
        r == all_blank(s@),
{
    let mut i: usize = 0;
    while i < s.len()
        invariant
            i <= s@.len(),
            forall|k: int| 0 <= k < i ==> is_ascii_blank(#[trigger] s@[k]),
        decreases s@.len() - i,
    {
        let b: u8 = s[i];
        if !(b == 0x20 || b == 0x09 || b == 0x0a || b == 0x0c || b == 0x0d) {
            assert(!is_ascii_blank(s@[i as int]));
            return false;
        }
        i += 1;
    }
    true
}

/// Where the old text lies in `data`.
pub fn find_old_span(data: &[u8], old: &[u8]) -> (r: Result<OldSpan, String>)
    ensures
        span_matches(r, old_span(data@, old@)),
        r matches Ok(s) ==> s.offset + s.len <= data@.len(),
{
    let mark = "[upto]".as_bytes();
    let n: usize = data.len();
    let m: usize = old.len();
    proof {
        bytes::lemma_first_at(old@, mark@, 0);
    }
    match find(old, mark, 0) {
        None => match find_unique(data, old, "old text") {
            Ok(at) => Ok(OldSpan { offset: at, len: old.len(), anchored: false }),
            Err(e) => Err(e),
        },
        Some(k) => {
            let rest: usize = k + mark.len();
            proof {
                bytes::lemma_first_at(old@, mark@, rest as int);
            }
            if find(old, mark, rest).is_some() {
                return Err(String::from_str("old text contains more than one [upto] marker"));
            }
            let head = slice_subrange(old, 0, k);
            let tail = slice_subrange(old, rest, m);
            if blank(tail) {
                return Err(
                    String::from_str("old text after [upto] must include a unique tail anchor"),
                );
            }
            assert(tail@.len() > 0);
            let h: usize = match find_unique(data, head, "old head") {
                Ok(h) => h,
                Err(e) => {
                    return Err(e);
                },
            };
            match find_unique_after(data, h + head.len(), tail) {
                Ok(t) => Ok(OldSpan { offset: h, len: t - h + tail.len(), anchored: true }),
                Err(e) => Err(e),
            }
        },
    }
}

/// `data` with `len` bytes from `offset` on replaced.
pub open spec fn spliced(data: Seq<u8>, offset: int, len: int, insert: Seq<u8>) -> Seq<u8> {
    data.subrange(0, offset) + insert + data.subrange(offset + len, data.len() as int)
}

/// `data` with the old text replaced.
pub fn splice(data: &[u8], at: &OldSpan, insert: &[u8]) -> (r: Vec<u8>)
    requires
        at.offset + at.len <= data@.len(),
    ensures
        r@ == spliced(data@, at.offset as int, at.len as int, insert@),
{
    let n: usize = data.len();
    let mut out: Vec<u8> = Vec::new();
    push_bytes(&mut out, slice_subrange(data, 0, at.offset));
    push_bytes(&mut out, insert);
    push_bytes(&mut out, slice_subrange(data, at.offset + at.len, n));
    assert(out@ =~= spliced(data@, at.offset as int, at.len as int, insert@));
    out
}

/// Putting the old text back where the new one lies gives the file as it was.
pub proof fn law_splice_undone(data: Seq<u8>, offset: int, len: int, insert: Seq<u8>)
    requires
        0 <= offset,
        0 <= len,
        offset + len <= data.len(),
    ensures
        spliced(
            spliced(data, offset, len, insert),
            offset,
            insert.len() as int,
            data.subrange(offset, offset + len),
        ) == data,
        spliced(data, offset, len, insert).len() == data.len() - len + insert.len(),
{
    let new = spliced(data, offset, len, insert);
    assert(new.subrange(0, offset) =~= data.subrange(0, offset));
    assert(new.subrange(offset + insert.len(), new.len() as int) =~= data.subrange(
        offset + len,
        data.len() as int,
    ));
    assert(spliced(
        new,
        offset,
        insert.len() as int,
        data.subrange(offset, offset + len),
    ) =~= data);
}

/// `needle` stands in `data` at `at` and nowhere else from `from` on.
pub open spec fn alone_at(data: Seq<u8>, needle: Seq<u8>, from: int, at: int) -> bool {
    &&& 0 <= from <= at
    &&& at + needle.len() <= data.len()
    &&& data.subrange(at, at + needle.len()) == needle
    &&& forall|j: int|
        from <= j && j + needle.len() <= data.len() && #[trigger] data.subrange(
            j,
            j + needle.len(),
        ) == needle ==> j == at
}

proof fn lemma_alone(data: Seq<u8>, needle: Seq<u8>, from: int, at: int)
    requires
        0 <= from,
    ensures
        alone_at(data, needle, from, at) == only_at(data, needle, from, at),
        only_at(data, needle, from, at) ==> place(data, needle, from) == at && !nowhere(
            data,
            needle,
            from,
        ),
{
    if only_at(data, needle, from, at) {
        assert(only_at(data, needle, from, place(data, needle, from)));
        assert(bytes::occurs_at(data, needle, at));
        assert forall|j: int|
            from <= j && j + needle.len() <= data.len() && #[trigger] data.subrange(
                j,
                j + needle.len(),
            ) == needle implies j == at by {
            assert(bytes::occurs_at(data, needle, j));
        }
    }
    if alone_at(data, needle, from, at) {
        assert forall|j: int| from <= j && bytes::occurs_at(data, needle, j) implies j == at by {
            assert(data.subrange(j, j + needle.len()) == needle);
        }
    }
}

/// A text without a mark that stands in the file exactly once is found there,
/// whatever it is made of, and replacing it keeps all that stands around it. A
/// text that is empty, stands nowhere or stands in two places is refused.
pub proof fn law_plain_edit(data: Seq<u8>, old: Seq<u8>, new: Seq<u8>, at: int)
    requires
        forall|j: int|
            0 <= j && j + 6 <= old.len() ==> #[trigger] old.subrange(j, j + 6) != encode_utf8(
                "[upto]"@,
            ),
    ensures
        old.len() > 0 && alone_at(data, old, 0, at) ==> old_span(data, old) == Ok::<
            (int, int, bool),
            Seq<char>,
        >((at, old.len() as int, false)) && spliced(data, at, old.len() as int, new)
            == data.subrange(0, at) + new + data.subrange(at + old.len(), data.len() as int),
        old_span(data, old) is Ok ==> old.len() > 0 && alone_at(
            data,
            old,
            0,
            old_span(data, old)->Ok_0.0,
        ) && old_span(data, old)->Ok_0.1 == old.len() && !old_span(data, old)->Ok_0.2,
{
    lemma_mark_len();
    bytes::lemma_first_at(old, upto(), 0);
    if let Some(k) = bytes::first_at(old, upto(), 0) {
        assert(old.subrange(k, k + 6) == upto());
    }
    lemma_alone(data, old, 0, at);
    if old_span(data, old) is Ok {
        lemma_alone(data, old, 0, place(data, old, 0));
    }
}

proof fn lemma_mark_len()
    ensures
        upto().len() == 6,
        upto() == encode_utf8("[upto]"@),
{
    reveal_strlit("[upto]");
    is_ascii_chars_encode_utf8("[upto]"@);
}

/// A text with one mark, whose head stands in the file exactly once and whose
/// tail holds a byte that is no ASCII white space and stands exactly once
/// behind the head, is all that lies from the head to the end of the tail.
pub proof fn law_anchored_edit(
    data: Seq<u8>,
    head: Seq<u8>,
    tail: Seq<u8>,
    new: Seq<u8>,
    h: int,
    t: int,
)
    requires
        ({
            let old = head + encode_utf8("[upto]"@) + tail;
            forall|j: int|
                0 <= j && j + 6 <= old.len() && #[trigger] old.subrange(j, j + 6) == encode_utf8(
                    "[upto]"@,
                ) ==> j == head.len()
        }),
        head.len() > 0,
        exists|i: int|
            0 <= i < tail.len() && !(#[trigger] tail[i] == 0x20 || tail[i] == 0x09 || tail[i]
                == 0x0a || tail[i] == 0x0c || tail[i] == 0x0d),
        alone_at(data, head, 0, h),
        alone_at(data, tail, h + head.len(), t),
    ensures
        old_span(data, head + encode_utf8("[upto]"@) + tail) == Ok::<(int, int, bool), Seq<char>>(
            (h, t + tail.len() - h, true),
        ),
        spliced(data, h, t + tail.len() - h, new) == data.subrange(0, h) + new + data.subrange(
            t + tail.len(),
            data.len() as int,
        ),
{
    let old = head + encode_utf8("[upto]"@) + tail;
    lemma_mark_len();
    bytes::lemma_first_at(old, upto(), 0);
    let k = head.len() as int;
    assert(old.subrange(k, k + 6) =~= upto());
    assert(bytes::occurs_at(old, upto(), k));
    let f = bytes::first_at(old, upto(), 0)->0;
    assert(old.subrange(f, f + 6) == upto());
    assert(head_of(old, k) =~= head);
    assert(tail_of(old, k) =~= tail);
    assert forall|j: int| k + 6 <= j implies !bytes::occurs_at(old, upto(), j) by {
        if bytes::occurs_at(old, upto(), j) {
            assert(old.subrange(j, j + 6) == upto());
        }
    }
    let i = choose|i: int|
        0 <= i < tail.len() && !(#[trigger] tail[i] == 0x20 || tail[i] == 0x09 || tail[i] == 0x0a
            || tail[i] == 0x0c || tail[i] == 0x0d);
    assert(!is_ascii_blank(tail[i]));
    lemma_alone(data, head, 0, h);
    lemma_alone(data, tail, h + head.len(), t);
}

/// A text with a mark is refused where it has a second one, where nothing but
/// white space stands behind the mark, and where its head or its tail does not
/// stand exactly once where it must.
pub proof fn law_anchored_edit_is_unique(data: Seq<u8>, head: Seq<u8>, tail: Seq<u8>)
    requires
        old_span(data, head + encode_utf8("[upto]"@) + tail) is Ok,
        forall|j: int|
            0 <= j < head.len() && j + 6 <= (head + encode_utf8("[upto]"@) + tail).len()
                ==> #[trigger] (head + encode_utf8("[upto]"@) + tail).subrange(j, j + 6)
                != encode_utf8("[upto]"@),
    ensures
        ({
            let s = old_span(data, head + encode_utf8("[upto]"@) + tail)->Ok_0;
            &&& head.len() > 0
            &&& alone_at(data, head, 0, s.0)
            &&& alone_at(data, tail, s.0 + head.len(), s.0 + s.1 - tail.len())
            &&& s.2
            &&& exists|i: int|
                0 <= i < tail.len() && !(#[trigger] tail[i] == 0x20 || tail[i] == 0x09 || tail[i]
                    == 0x0a || tail[i] == 0x0c || tail[i] == 0x0d)
            &&& forall|j: int|
                0 <= j && j + 6 <= tail.len() ==> #[trigger] tail.subrange(j, j + 6)
                    != encode_utf8("[upto]"@)
        }),
{
    let old = head + encode_utf8("[upto]"@) + tail;
    lemma_mark_len();
    bytes::lemma_first_at(old, upto(), 0);
    let k = head.len() as int;
    assert(old.subrange(k, k + 6) =~= upto());
    assert(bytes::occurs_at(old, upto(), k));
    let f = bytes::first_at(old, upto(), 0)->0;
    assert(old.subrange(f, f + 6) == upto());
    assert(f == k);
    assert(head_of(old, k) =~= head);
    assert(tail_of(old, k) =~= tail);
    let h = place(data, head, 0);
    assert(only_at(data, head, 0, h));
    lemma_alone(data, head, 0, h);
    let t = place(data, tail, h + head.len());
    assert(only_at(data, tail, h + head.len(), t));
    lemma_alone(data, tail, h + head.len(), t);
    let i = choose|i: int| 0 <= i < tail.len() && !is_ascii_blank(#[trigger] tail[i]);
    assert(!is_ascii_blank(tail[i]));
    assert forall|j: int| 0 <= j && j + 6 <= tail.len() implies #[trigger] tail.subrange(j, j + 6)
        != encode_utf8("[upto]"@) by {
        assert(old.subrange(k + 6 + j, k + 6 + j + 6) =~= tail.subrange(j, j + 6));
        assert(!bytes::occurs_at(old, upto(), k + 6 + j));
    }
}

/// What is replaced is the old text itself, or a piece that begins with its
/// head and ends with its tail.
pub proof fn law_old_span_holds_the_text(data: Seq<u8>, old: Seq<u8>)
    requires
        old_span(data, old) is Ok,
    ensures
        ({
            let s = old_span(data, old)->Ok_0;
            &&& 0 <= s.0
            &&& 0 < s.1
            &&& s.0 + s.1 <= data.len()
            &&& !s.2 ==> data.subrange(s.0, s.0 + s.1) == old
            &&& s.2 ==> {
                let k = bytes::first_at(old, upto(), 0)->0;
                let head = head_of(old, k);
                let tail = tail_of(old, k);
                &&& bytes::occurs_at(data, head, s.0)
                &&& bytes::occurs_at(data, tail, s.0 + s.1 - tail.len())
                &&& head.len() + tail.len() <= s.1
            }
        }),
{
    bytes::lemma_first_at(old, upto(), 0);
    match bytes::first_at(old, upto(), 0) {
        None => {
            let at = place(data, old, 0);
            assert(only_at(data, old, 0, at));
        },
        Some(k) => {
            let head = head_of(old, k);
            let tail = tail_of(old, k);
            let h = place(data, head, 0);
            assert(only_at(data, head, 0, h));
            let t = place(data, tail, h + head.len());
            assert(only_at(data, tail, h + head.len(), t));
        },
    }
}

/// The number of the first line that ends behind `offset`, counted from 1; the
/// last line where none does, and 1 where there is none.
pub open spec fn line_of(spans: Seq<LineSpan>, offset: int, i: int) -> int
    decreases spans.len() - i,
{
    if spans.len() == 0 {
        1
    } else if i < 0 || i >= spans.len() {
        spans.len() as int
    } else if offset < spans[i].end {
        i + 1
    } else {
        line_of(spans, offset, i + 1)
    }
}

fn line_for_offset(spans: &[LineSpan], offset: usize) -> (r: i64)
    requires
        spans@.len() <= i32::MAX,
    ensures
        r == line_of(spans@, offset as int, 0),
        1 <= r,
        spans@.len() > 0 ==> r <= spans@.len(),
{
    if spans.len() == 0 {
        return 1;
    }
    let n: usize = spans.len();
    let mut i: usize = 0;
    while i < n
        invariant
            n == spans@.len(),
            0 < n <= i32::MAX,
            i <= n,
            line_of(spans@, offset as int, 0) == line_of(spans@, offset as int, i as int),
        decreases n - i,
    {
        if offset < spans[i].end {
            return i as i64 + 1;
        }
        i += 1;
    }
    n as i64
}

/// A line with its number in front.
pub open spec fn numbered(data: Seq<u8>, spans: Seq<LineSpan>, line: int) -> Seq<u8> {
    encode_utf8(text::decimal(line as nat) + " "@) + data.subrange(
        spans[line - 1].start as int,
        spans[line - 1].content_end as int,
    ) + encode_utf8("\n"@)
}

fn push_numbered(out: &mut Vec<u8>, data: &[u8], spans: &[LineSpan], line: usize)
    requires
        1 <= line <= spans@.len(),
        spans@[line - 1].start <= spans@[line - 1].content_end <= data@.len(),
    ensures
        final(out)@ == old(out)@ + numbered(data@, spans@, line as int),
{
    let ghost before = out@;
    let span = spans[line - 1];
    let mut front = String::new();
    push_u64(&mut front, line as u64);
    assert(front@ =~= text::decimal(line as nat));
    front.append(" ");
    push_text(out, front.as_str());
    push_bytes(out, slice_subrange(data, span.start, span.content_end));
    push_text(out, "\n");
    assert(out@ =~= before + numbered(data@, spans@, line as int));
}

/// The lines from `from` up to `to` with their numbers.
pub open spec fn numbered_lines(data: Seq<u8>, spans: Seq<LineSpan>, from: int, to: int) -> Seq<u8>
    decreases to - from + 1,
{
    if from > to {
        seq![]
    } else {
        numbered_lines(data, spans, from, to - 1) + numbered(data, spans, to)
    }
}

fn append_lines(out: &mut Vec<u8>, data: &[u8], spans: &[LineSpan], from: i64, to: i64)
    requires
        1 <= from,
        from <= to + 1,
        to <= spans@.len() <= i32::MAX,
        lines::tile(spans@, data@, 0, data@.len() as int),
    ensures
        final(out)@ == old(out)@ + numbered_lines(data@, spans@, from as int, to as int),
{
    let mut line: i64 = from;
    let ghost before = out@;
    assert(out@ =~= before + numbered_lines(data@, spans@, from as int, from - 1));
    while line <= to
        invariant
            1 <= from <= line <= to + 1,
            to <= spans@.len() <= i32::MAX,
            lines::tile(spans@, data@, 0, data@.len() as int),
            out@ == before + numbered_lines(data@, spans@, from as int, line - 1),
        decreases to + 1 - line,
    {
        assert(spans@[line - 1].start <= spans@[line - 1].content_end <= data@.len());
        push_numbered(out, data, spans, line as usize);
        proof {
            bytes::lemma_join(
                before,
                numbered_lines(data@, spans@, from as int, line - 1),
                numbered(data@, spans@, line as int),
            );
        }
        line += 1;
    }
}

pub open spec fn least(a: int, b: int) -> int {
    if a < b {
        a
    } else {
        b
    }
}

pub open spec fn greatest(a: int, b: int) -> int {
    if a > b {
        a
    } else {
        b
    }
}

/// The line above the lines around an edit.
pub open spec fn context_title(path: Seq<char>, from: int, to: int, n: int) -> Seq<char> {
    "Current file around edit: "@ + path + " lines "@ + text::decimal(from as nat) + "-"@
        + text::decimal(to as nat) + " of "@ + text::decimal(n as nat) + "\n"@
}

/// The lines from `from` up to `to` around the edited ones, `s` up to `e`; of
/// many edited lines only the first and the last.
pub open spec fn context_body(
    data: Seq<u8>,
    spans: Seq<LineSpan>,
    from: int,
    to: int,
    s: int,
    e: int,
) -> Seq<u8> {
    if e - s + 1 <= EDITED_HEAD + EDITED_TAIL {
        numbered_lines(data, spans, from, to)
    } else {
        numbered_lines(data, spans, from, s + EDITED_HEAD - 1) + (encode_utf8(
            "... "@ + text::decimal((e - s + 1 - EDITED_HEAD - EDITED_TAIL) as nat)
                + " edited lines omitted ...\n"@,
        ) + numbered_lines(data, spans, e - EDITED_TAIL + 1, to))
    }
}

/// The lines around an edit of the lines from `start` up to `end`: five lines
/// before it and eight behind it.
pub open spec fn context_text(path: Seq<char>, data: Seq<u8>, start: int, end: int) -> Seq<u8> {
    let spans = lines::spans_of(data);
    let n = spans.len() as int;
    if n == 0 {
        seq![]
    } else {
        let s = greatest(1, least(start, n));
        let e = greatest(s, least(end, n));
        let from = greatest(s - CONTEXT_BEFORE, 1);
        let to = least(e + CONTEXT_AFTER, n);
        encode_utf8(context_title(path, from, to, n)) + context_body(data, spans, from, to, s, e)
    }
}

fn title_line(path: &str, from: u64, to: u64, n: u64) -> (r: String)
    ensures
        r@ == context_title(path@, from as int, to as int, n as int),
{
    let mut r = String::from_str("Current file around edit: ");
    r.append(path);
    r.append(" lines ");
    push_u64(&mut r, from);
    r.append("-");
    push_u64(&mut r, to);
    r.append(" of ");
    push_u64(&mut r, n);
    r.append("\n");
    r
}

fn push_context_body(
    out: &mut Vec<u8>,
    data: &[u8],
    spans: &[LineSpan],
    from: i64,
    to: i64,
    s: i64,
    e: i64,
)
    requires
        1 <= from <= s <= e <= to <= spans@.len() <= i32::MAX,
        lines::tile(spans@, data@, 0, data@.len() as int),
    ensures
        final(out)@ == old(out)@ + context_body(
            data@,
            spans@,
            from as int,
            to as int,
            s as int,
            e as int,
        ),
{
    let ghost before = out@;
    if e - s + 1 <= EDITED_HEAD + EDITED_TAIL {
        append_lines(out, data, spans, from, to);
        return;
    }
    append_lines(out, data, spans, from, s + EDITED_HEAD - 1);
    let mut gap = String::from_str("... ");
    push_u64(&mut gap, (e - s + 1 - EDITED_HEAD - EDITED_TAIL) as u64);
    gap.append(" edited lines omitted ...\n");
    push_text(out, gap.as_str());
    append_lines(out, data, spans, e - EDITED_TAIL + 1, to);
    proof {
        let head = numbered_lines(data@, spans@, from as int, s + EDITED_HEAD - 1);
        let tail = numbered_lines(data@, spans@, e - EDITED_TAIL + 1, to as int);
        bytes::lemma_join(before + head, encode_utf8(gap@), tail);
        bytes::lemma_join(before, head, encode_utf8(gap@) + tail);
    }
}

fn append_context(out: &mut Vec<u8>, path: &str, data: &[u8], start: i64, end: i64)
    requires
        lines::spans_of(data@).len() <= i32::MAX,
    ensures
        final(out)@ == old(out)@ + context_text(path@, data@, start as int, end as int),
{
    let spans = split_lines(data);
    let ghost before = out@;
    if spans.len() == 0 {
        assert(out@ =~= before + context_text(path@, data@, start as int, end as int));
        return;
    }
    let n: i64 = spans.len() as i64;
    let s_low: i64 = if start < n {
        start
    } else {
        n
    };
    let s: i64 = if s_low > 1 {
        s_low
    } else {
        1
    };
    let e_low: i64 = if end < n {
        end
    } else {
        n
    };
    let e: i64 = if e_low > s {
        e_low
    } else {
        s
    };
    let from: i64 = if s - CONTEXT_BEFORE > 1 {
        s - CONTEXT_BEFORE
    } else {
        1
    };
    let to: i64 = if e + CONTEXT_AFTER < n {
        e + CONTEXT_AFTER
    } else {
        n
    };
    let title = title_line(path, from as u64, to as u64, n as u64);
    push_text(out, title.as_str());
    push_context_body(out, data, spans.as_slice(), from, to, s, e);
    proof {
        bytes::lemma_join(
            before,
            encode_utf8(title@),
            context_body(data@, spans@, from as int, to as int, s as int, e as int),
        );
    }
}

/// `n` in decimal, always with its sign.
pub open spec fn with_sign(n: int) -> Seq<char> {
    if n < 0 {
        text::signed_decimal(n)
    } else {
        "+"@ + text::signed_decimal(n)
    }
}

/// The warning that the lines behind an edit have moved.
pub open spec fn shift_text(end_line: int, delta: int) -> Seq<char> {
    "Line shift: old lines after "@ + text::signed_decimal(end_line) + " moved by "@ + with_sign(
        delta,
    ) + " (old line "@ + text::signed_decimal(end_line + 1) + " is now line "@
        + text::signed_decimal(end_line + 1 + delta)
        + "). Re-read before relying on old line numbers there.\n"@
}

/// The first line of the answer.
pub open spec fn edited_title(path: Seq<char>, kind: Seq<char>) -> Seq<char> {
    "Edited "@ + path + " using "@ + kind + "\n"@
}

/// The lines of the answer above the lines of the file.
pub open spec fn touched_text(start_line: int, end_line: int, delta: int) -> Seq<char> {
    let touched = "Touched old lines "@ + text::signed_decimal(start_line) + "-"@
        + text::signed_decimal(end_line) + "; current post-edit context follows.\n"@;
    if delta == 0 {
        touched
    } else {
        touched + shift_text(end_line, delta)
    }
}

/// What the tool answers about an edit of the old lines from `start_line` up to
/// `end_line` that added `delta` lines.
pub open spec fn edit_text(
    path: Seq<char>,
    start_line: int,
    end_line: int,
    delta: int,
    new_data: Seq<u8>,
    kind: Seq<char>,
) -> Seq<u8> {
    if start_line > 0 && end_line >= start_line {
        encode_utf8(edited_title(path, kind)) + encode_utf8(
            touched_text(start_line, end_line, delta),
        ) + context_text(path, new_data, start_line, greatest(end_line + delta, start_line))
    } else {
        encode_utf8(edited_title(path, kind))
    }
}

fn title_of(path: &str, kind: &str) -> (r: String)
    ensures
        r@ == edited_title(path@, kind@),
{
    let mut r = String::from_str("Edited ");
    r.append(path);
    r.append(" using ");
    r.append(kind);
    r.append("\n");
    r
}

fn shift_line(end_line: i64, delta: i64) -> (r: String)
    requires
        0 <= end_line <= i32::MAX,
        -0x8000_0000 <= delta <= i32::MAX,
    ensures
        r@ == shift_text(end_line as int, delta as int),
{
    let mut sign = String::new();
    if delta >= 0 {
        sign.append("+");
    }
    push_i64(&mut sign, delta);
    assert(sign@ =~= with_sign(delta as int));
    let mut r = String::from_str("Line shift: old lines after ");
    push_i64(&mut r, end_line);
    r.append(" moved by ");
    r.append(sign.as_str());
    r.append(" (old line ");
    push_i64(&mut r, end_line + 1);
    r.append(" is now line ");
    push_i64(&mut r, end_line + 1 + delta);
    r.append("). Re-read before relying on old line numbers there.\n");
    r
}

fn touched_lines(start_line: i64, end_line: i64, delta: i64) -> (r: String)
    requires
        0 <= end_line <= i32::MAX,
        -0x8000_0000 <= delta <= i32::MAX,
    ensures
        r@ == touched_text(start_line as int, end_line as int, delta as int),
{
    let mut r = String::from_str("Touched old lines ");
    push_i64(&mut r, start_line);
    r.append("-");
    push_i64(&mut r, end_line);
    r.append("; current post-edit context follows.\n");
    if delta != 0 {
        let shift = shift_line(end_line, delta);
        r.append(shift.as_str());
    }
    r
}

/// What the tool answers about an edit.
pub fn format_edit_result(
    path: &str,
    start_line: i64,
    end_line: i64,
    delta: i64,
    new_data: &[u8],
    kind: &str,
) -> (r: Vec<u8>)
    requires
        0 <= end_line <= i32::MAX,
        -0x8000_0000 <= delta <= i32::MAX,
        lines::spans_of(new_data@).len() <= i32::MAX,
    ensures
        r@ == edit_text(
            path@,
            start_line as int,
            end_line as int,
            delta as int,
            new_data@,
            kind@,
        ),
{
    let title = title_of(path, kind);
    let mut out = slice_to_vec(title.as_str().as_bytes());
    if start_line > 0 && end_line >= start_line {
        let touched = touched_lines(start_line, end_line, delta);
        push_text(&mut out, touched.as_str());
        let anchor_end: i64 = if end_line + delta > start_line {
            end_line + delta
        } else {
            start_line
        };
        append_context(&mut out, path, new_data, start_line, anchor_end);
    }
    out
}

/// How an edit is called in the answer.
pub open spec fn edit_kind(anchored: bool) -> Seq<char> {
    if anchored {
        "anchored old/new replacement"@
    } else {
        "old/new replacement"@
    }
}

/// The last old byte that is replaced, or the place of the edit where none is;
/// not behind the end of the file.
pub open spec fn last_touched(len: int, offset: int, remove_len: int) -> int {
    let last = if remove_len > 0 {
        offset + remove_len - 1
    } else {
        offset
    };
    least(last, greatest(len - 1, 0))
}

/// What the tool answers once the edited file is written.
pub open spec fn report_text(
    path: Seq<char>,
    data: Seq<u8>,
    offset: int,
    remove_len: int,
    insert: Seq<u8>,
    anchored: bool,
) -> Seq<u8> {
    let spans = lines::spans_of(data);
    let new_data = spliced(data, offset, remove_len, insert);
    if spans.len() == 0 {
        encode_utf8(edited_title(path, edit_kind(anchored)))
    } else {
        edit_text(
            path,
            line_of(spans, offset, 0),
            line_of(spans, last_touched(data.len() as int, offset, remove_len), 0),
            lines::spans_of(new_data).len() - spans.len(),
            new_data,
            edit_kind(anchored),
        )
    }
}

/// What the tool answers once the edited file is written. Lines are counted in
/// 32 bits.
pub fn edit_report(path: &str, data: &[u8], at: &OldSpan, insert: &[u8]) -> (r: Vec<u8>)
    requires
        at.offset + at.len <= data@.len(),
        lines::spans_of(data@).len() <= i32::MAX,
        lines::spans_of(
            spliced(data@, at.offset as int, at.len as int, insert@),
        ).len() <= i32::MAX,
    ensures
        r@ == report_text(
            path@,
            data@,
            at.offset as int,
            at.len as int,
            insert@,
            at.anchored,
        ),
{
    let new_data = splice(data, at, insert);
    let old_spans = split_lines(data);
    let new_spans = split_lines(new_data.as_slice());
    let kind = if at.anchored {
        "anchored old/new replacement"
    } else {
        "old/new replacement"
    };
    if old_spans.len() == 0 {
        let title = title_of(path, kind);
        return slice_to_vec(title.as_str().as_bytes());
    }
    let last: usize = if at.len > 0 {
        at.offset + at.len - 1
    } else {
        at.offset
    };
    let bound: usize = if data.len() > 1 {
        data.len() - 1
    } else {
        0
    };
    let old_last: usize = if last < bound {
        last
    } else {
        bound
    };
    let start_line: i64 = line_for_offset(old_spans.as_slice(), at.offset);
    let end_line: i64 = line_for_offset(old_spans.as_slice(), old_last);
    let delta: i64 = new_spans.len() as i64 - old_spans.len() as i64;
    format_edit_result(path, start_line, end_line, delta, new_data.as_slice(), kind)
}

/// What the tool answers after the writing of the edited file.
pub open spec fn splice_answer(
    path: Seq<char>,
    data: Seq<u8>,
    at: OldSpan,
    insert: Seq<u8>,
    outcome: WriteOutcome,
) -> Seq<u8> {
    match outcome {
        WriteOutcome::Denied => encode_utf8(approval::DENIED_EDIT@),
        WriteOutcome::OpenFailed(e) => wrapped(encode_utf8("open "@ + path + ": "@ + e@)),
        WriteOutcome::WriteFailed(e) => wrapped(encode_utf8("write "@ + path + ": "@ + e@)),
        WriteOutcome::Written => report_text(
            path,
            data,
            at.offset as int,
            at.len as int,
            insert,
            at.anchored,
        ),
    }
}

fn io_failure(what: &str, path: &str, detail: &str) -> (r: Vec<u8>)
    ensures
        r@ == wrapped(encode_utf8(what@ + path@ + ": "@ + detail@)),
{
    let mut s = String::from_str(what);
    s.append(path);
    s.append(": ");
    s.append(detail);
    wrap_error(s.as_str().as_bytes())
}

/// What the tool answers after the writing of the edited file. Where it was
/// written, lines are counted in 32 bits.
pub fn apply_splice(
    path: &str,
    data: &[u8],
    at: &OldSpan,
    insert: &[u8],
    outcome: &WriteOutcome,
) -> (r: Vec<u8>)
    requires
        *outcome is Written ==> {
            &&& at.offset + at.len <= data@.len()
            &&& lines::spans_of(data@).len() <= i32::MAX
            &&& lines::spans_of(
                spliced(data@, at.offset as int, at.len as int, insert@),
            ).len() <= i32::MAX
        },
    ensures
        r@ == splice_answer(path@, data@, *at, insert@, *outcome),
{
    match outcome {
        WriteOutcome::Denied => slice_to_vec(approval::DENIED_EDIT.as_bytes()),
        WriteOutcome::OpenFailed(e) => io_failure("open ", path, e.as_str()),
        WriteOutcome::WriteFailed(e) => io_failure("write ", path, e.as_str()),
        WriteOutcome::Written => edit_report(path, data, at, insert),
    }
}

/// What a call with a file in hand comes to: an answer, or the new content of
/// the file and what is asked first.
pub enum EditPlan {
    Answer(Vec<u8>),
    Write { at: OldSpan, content: Vec<u8>, permission: Permission },
}

/// What a call with the file `data` in hand comes to. Where the old text is not
/// found once, nobody is asked.
pub fn plan_edit(path: &str, data: &[u8], old: &str, new: &str, approval: Approval) -> (r: EditPlan)
    ensures
        match (r, old_span(data@, encode_utf8(old@))) {
            (EditPlan::Answer(a), Err(e)) => a@ == wrapped(encode_utf8(e)),
            (EditPlan::Write { at, content, permission }, Ok(s)) => {
                &&& at.offset == s.0 && at.len == s.1 && at.anchored == s.2
                &&& at.offset + at.len <= data@.len()
                &&& content@ == spliced(data@, s.0, s.1, encode_utf8(new@))
                &&& approval::permission_for(approval, approval::edit_prompt(path@), permission)
            },
            _ => false,
        },
{
    match find_old_span(data, old.as_bytes()) {
        Err(e) => EditPlan::Answer(wrap_error(e.as_str().as_bytes())),
        Ok(at) => {
            let content = splice(data, &at, new.as_bytes());
            EditPlan::Write { at, content, permission: approval.allow_edit(path) }
        },
    }
}

/// The line that an edit is said to touch is the one that holds the byte; a
/// place behind the end belongs to the last line.
pub proof fn law_line_holds_the_byte(data: Seq<u8>, offset: int)
    requires
        0 < data.len() <= usize::MAX,
        0 <= offset,
    ensures
        ({
            let spans = lines::spans_of(data);
            let l = line_of(spans, offset, 0);
            &&& 1 <= l <= spans.len()
            &&& offset < data.len() ==> spans[l - 1].start <= offset < spans[l - 1].end
            &&& offset >= data.len() ==> l == spans.len()
        }),
{
    lines::law_lines_cover(data);
    lemma_line_from(data, offset, 0);
}

proof fn lemma_line_from(data: Seq<u8>, offset: int, i: int)
    requires
        0 < data.len() <= usize::MAX,
        lines::tile(lines::spans_of(data), data, 0, data.len() as int),
        lines::spans_of(data).len() > 0,
        0 <= offset,
        0 <= i <= lines::spans_of(data).len(),
        i == 0 || lines::spans_of(data)[i - 1].end <= offset,
    ensures
        ({
            let spans = lines::spans_of(data);
            let l = line_of(spans, offset, i);
            &&& 1 <= l <= spans.len()
            &&& offset < data.len() ==> spans[l - 1].start <= offset < spans[l - 1].end
            &&& offset >= data.len() ==> l == spans.len()
        }),
    decreases lines::spans_of(data).len() - i,
{
    let spans = lines::spans_of(data);
    if i < spans.len() {
        if i > 0 {
            assert(spans[i - 1].end == spans[i].start);
        }
        if offset < spans[i].end {
            assert(spans[i].end <= data.len());
        } else {
            lemma_line_from(data, offset, i + 1);
        }
    }
}

/// Of a file after an edit of the lines from `s` up to `e` five lines in front
/// and eight behind are shown; of more than 36 edited lines the first and the
/// last 18.
pub proof fn law_context_around_an_edit(path: Seq<char>, data: Seq<u8>, s: int, e: int)
    requires
        1 <= s <= e <= lines::spans_of(data).len(),
    ensures
        ({
            let spans = lines::spans_of(data);
            let n = spans.len() as int;
            let from = if s > 6 {
                s - 5
            } else {
                1
            };
            let to = if e + 8 < n {
                e + 8
            } else {
                n
            };
            let title = encode_utf8(
                "Current file around edit: "@ + path + " lines "@ + text::decimal(from as nat)
                    + "-"@ + text::decimal(to as nat) + " of "@ + text::decimal(n as nat) + "\n"@,
            );
            context_text(path, data, s, e) == if e - s < 36 {
                title + numbered_lines(data, spans, from, to)
            } else {
                title + (numbered_lines(data, spans, from, s + 17) + (encode_utf8(
                    "... "@ + text::decimal((e - s - 35) as nat) + " edited lines omitted ...\n"@,
                ) + numbered_lines(data, spans, e - 17, to)))
            }
        }),
{
}

/// The lines from `from` up to `to` stand one below the other, each behind its
/// number.
pub proof fn law_numbered_lines(data: Seq<u8>, from: int, to: int)
    requires
        1 <= from <= to <= lines::spans_of(data).len(),
    ensures
        ({
            let spans = lines::spans_of(data);
            numbered_lines(data, spans, from, to) == numbered_lines(data, spans, from, to - 1) + (
            encode_utf8(text::decimal(to as nat) + " "@) + data.subrange(
                spans[to - 1].start as int,
                spans[to - 1].content_end as int,
            ) + encode_utf8("\n"@))
        }),
        from == to ==> numbered_lines(data, lines::spans_of(data), from, to - 1) == Seq::<
            u8,
        >::empty(),
{
}

/// What is answered once a file that was not empty is written: what was edited,
/// the old lines that held the first and the last byte replaced, by how much the
/// lines behind them moved, and the new lines in their place.
pub proof fn law_report_of_an_edit(
    path: Seq<char>,
    data: Seq<u8>,
    offset: int,
    remove_len: int,
    insert: Seq<u8>,
    anchored: bool,
)
    requires
        0 < data.len() <= usize::MAX,
        0 <= offset,
        0 <= remove_len,
        offset + remove_len <= data.len(),
    ensures
        ({
            let new = data.subrange(0, offset) + insert + data.subrange(
                offset + remove_len,
                data.len() as int,
            );
            let last = if remove_len > 0 {
                offset + remove_len - 1
            } else if offset < data.len() {
                offset
            } else {
                data.len() - 1
            };
            let s = line_of(lines::spans_of(data), offset, 0);
            let e = line_of(lines::spans_of(data), last, 0);
            let moved = lines::spans_of(new).len() - lines::spans_of(data).len();
            let kind = if anchored {
                "anchored old/new replacement"@
            } else {
                "old/new replacement"@
            };
            let title = "Edited "@ + path + " using "@ + kind + "\n"@;
            let touched = "Touched old lines "@ + text::signed_decimal(s) + "-"@
                + text::signed_decimal(e) + "; current post-edit context follows.\n"@;
            let shift = if moved == 0 {
                touched
            } else {
                touched + ("Line shift: old lines after "@ + text::signed_decimal(e)
                    + " moved by "@ + (if moved > 0 {
                    "+"@ + text::signed_decimal(moved)
                } else {
                    text::signed_decimal(moved)
                }) + " (old line "@ + text::signed_decimal(e + 1) + " is now line "@
                    + text::signed_decimal(e + 1 + moved)
                    + "). Re-read before relying on old line numbers there.\n"@)
            };
            &&& 1 <= s <= e
            &&& report_text(path, data, offset, remove_len, insert, anchored) == encode_utf8(title)
                + encode_utf8(shift) + context_text(
                path,
                new,
                s,
                if e + moved > s {
                    e + moved
                } else {
                    s
                },
            )
        }),
{
    let last = if remove_len > 0 {
        offset + remove_len - 1
    } else if offset < data.len() {
        offset
    } else {
        data.len() - 1
    };
    lines::law_lines_cover(data);
    law_line_holds_the_byte(data, offset);
    law_line_holds_the_byte(data, last);
    let spans = lines::spans_of(data);
    let s = line_of(spans, offset, 0);
    let e = line_of(spans, last, 0);
    if e < s {
        lemma_spans_ordered(data, e - 1, s - 1);
    }
}

proof fn lemma_spans_ordered(data: Seq<u8>, i: int, j: int)
    requires
        lines::tile(lines::spans_of(data), data, 0, data.len() as int),
        0 <= i < j < lines::spans_of(data).len(),
    ensures
        lines::spans_of(data)[i].end <= lines::spans_of(data)[j].start,
    decreases j - i,
{
    let spans = lines::spans_of(data);
    if i + 1 < j {
        lemma_spans_ordered(data, i + 1, j);
        assert(spans[i].end == spans[i + 1].start);
        assert(spans[i + 1].start <= spans[i + 1].end);
    } else {
        assert(spans[i].end == spans[j].start);
    }
}

} // verus!
