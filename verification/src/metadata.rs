//! Writing the metadata of a model file, and reading back what was written.

use crate::bytes;
use crate::gguf;
use crate::gguf::{GgufError, KvEntry};
use vstd::prelude::*;
use vstd::string::*;

verus! {

/// A value of the metadata.
pub enum Value {
    /// The bytes of a number or a truth value of the type given.
    Scalar(u32, Seq<u8>),
    Text(Seq<u8>),
    /// The bytes of numbers of the type given.
    Numbers(u32, nat, Seq<u8>),
    Texts(Seq<Seq<u8>>),
}

/// How many bytes a number of type `typ` takes.
pub open spec fn width(typ: u32) -> int {
    if typ == 0 || typ == 1 || typ == 7 {
        1
    } else if typ == 2 || typ == 3 {
        2
    } else if typ == 4 || typ == 5 || typ == 6 {
        4
    } else if typ == 10 || typ == 11 || typ == 12 {
        8
    } else {
        0
    }
}

/// A text: its length, then its bytes.
pub open spec fn text(s: Seq<u8>) -> Seq<u8> {
    bytes::le64_bytes(s.len() as u64) + s
}

/// The texts `s`, one behind the other.
pub open spec fn texts(s: Seq<Seq<u8>>) -> Seq<u8>
    decreases s.len(),
{
    if s.len() == 0 {
        seq![]
    } else {
        text(s[0]) + texts(s.skip(1))
    }
}

impl Value {
    /// The number of the type of the value.
    pub open spec fn typ(self) -> u32 {
        match self {
            Value::Scalar(t, _) => t,
            Value::Text(_) => 8,
            Value::Numbers(..) => 9,
            Value::Texts(_) => 9,
        }
    }

    pub open spec fn well_formed(self) -> bool {
        match self {
            Value::Scalar(t, b) => width(t) > 0 && b.len() == width(t),
            Value::Text(s) => true,
            Value::Numbers(t, n, b) => width(t) > 0 && b.len() == n * width(t),
            Value::Texts(s) => true,
        }
    }

    /// The value as it stands in a file.
    pub open spec fn written(self) -> Seq<u8> {
        match self {
            Value::Scalar(_, b) => b,
            Value::Text(s) => text(s),
            Value::Numbers(t, n, b) => bytes::le32_bytes(t) + bytes::le64_bytes(n as u64) + b,
            Value::Texts(s) => bytes::le32_bytes(8) + bytes::le64_bytes(s.len() as u64) + texts(s),
        }
    }
}

/// An entry: its key, the type of its value, its value.
pub open spec fn entry(e: (Seq<u8>, Value)) -> Seq<u8> {
    text(e.0) + bytes::le32_bytes(e.1.typ()) + e.1.written()
}

/// The entries `e`, one behind the other.
pub open spec fn entries(e: Seq<(Seq<u8>, Value)>) -> Seq<u8>
    decreases e.len(),
{
    if e.len() == 0 {
        seq![]
    } else {
        entry(e[0]) + entries(e.skip(1))
    }
}

/// The metadata of a file: the four letters, the version, the counts, the
/// entries.
pub open spec fn file(n_tensors: u64, e: Seq<(Seq<u8>, Value)>) -> Seq<u8> {
    seq![0x47u8, 0x47u8, 0x55u8, 0x46u8] + bytes::le32_bytes(3) + bytes::le64_bytes(n_tensors)
        + bytes::le64_bytes(e.len() as u64) + entries(e)
}

proof fn lemma_split(data: Seq<u8>, a: Seq<u8>, b: Seq<u8>, at: int)
    requires
        bytes::occurs_at(data, a + b, at),
    ensures
        bytes::occurs_at(data, a, at),
        bytes::occurs_at(data, b, at + a.len()),
{
    let w = data.subrange(at, at + (a + b).len());
    assert(data.subrange(at, at + a.len()) =~= w.subrange(0, a.len() as int));
    assert((a + b).subrange(0, a.len() as int) =~= a);
    assert(data.subrange(at + a.len(), at + a.len() + b.len()) =~= w.subrange(
        a.len() as int,
        (a + b).len() as int,
    ));
    assert((a + b).subrange(a.len() as int, (a + b).len() as int) =~= b);
}

proof fn lemma_le32(data: Seq<u8>, v: u32, at: int)
    requires
        bytes::occurs_at(data, bytes::le32_bytes(v), at),
    ensures
        bytes::le32(data, at) == v,
{
    bytes::law_le32_round_trip(v);
    let w = data.subrange(at, at + 4);
    assert(forall|k: int| 0 <= k < 4 ==> #[trigger] w[k] == data[at + k]);
    assert(bytes::le32(w, 0) == bytes::le32(data, at));
}

proof fn lemma_le64(data: Seq<u8>, v: u64, at: int)
    requires
        bytes::occurs_at(data, bytes::le64_bytes(v), at),
    ensures
        bytes::le64(data, at) == v,
        bytes::le64_bytes(v).len() == 8,
{
    bytes::law_le64_round_trip(v);
    let w = data.subrange(at, at + 8);
    assert(forall|k: int| 0 <= k < 8 ==> #[trigger] w[k] == data[at + k]);
    assert(bytes::le64(w, 0) == bytes::le64(data, at));
}

proof fn lemma_text(data: Seq<u8>, s: Seq<u8>, at: int)
    requires
        data.len() <= usize::MAX,
        bytes::occurs_at(data, text(s), at),
    ensures
        gguf::string_fits(data, at),
        gguf::string_end(data, at) == at + text(s).len(),
        bytes::le64(data, at) == s.len(),
        text(s).len() == 8 + s.len(),
        data.subrange(at + 8, at + 8 + s.len()) == s,
{
    bytes::law_le64_round_trip(s.len() as u64);
    lemma_split(data, bytes::le64_bytes(s.len() as u64), s, at);
    lemma_le64(data, s.len() as u64, at);
}

proof fn lemma_texts(data: Seq<u8>, s: Seq<Seq<u8>>, at: int)
    requires
        data.len() <= usize::MAX,
        bytes::occurs_at(data, texts(s), at),
    ensures
        gguf::items_end(data, at, 8, s.len(), 1) == Ok::<int, GgufError>(at + texts(s).len()),
        gguf::strings_at(data, at, s.len()) == Some(s),
    decreases s.len(),
{
    reveal_with_fuel(gguf::items_end, 2);
    if s.len() > 0 {
        lemma_split(data, text(s[0]), texts(s.skip(1)), at);
        lemma_text(data, s[0], at);
        assert(gguf::value_end(data, at, 8, 1) == Ok::<int, GgufError>(at + text(s[0]).len()));
        lemma_texts(data, s.skip(1), at + text(s[0]).len());
        assert(seq![s[0]] + s.skip(1) =~= s);
    } else {
        assert(s =~= seq![]);
    }
}

proof fn lemma_value(data: Seq<u8>, v: Value, at: int)
    requires
        data.len() <= usize::MAX,
        v.well_formed(),
        bytes::occurs_at(data, v.written(), at),
    ensures
        gguf::value_end(data, at, v.typ(), 0) == Ok::<int, GgufError>(at + v.written().len()),
{
    match v {
        Value::Scalar(t, b) => {},
        Value::Text(s) => {
            lemma_text(data, s, at);
        },
        Value::Numbers(t, n, b) => {
            let front = bytes::le32_bytes(t) + bytes::le64_bytes(n as u64);
            lemma_split(data, front, b, at);
            lemma_split(data, bytes::le32_bytes(t), bytes::le64_bytes(n as u64), at);
            bytes::law_le32_round_trip(t);
            bytes::law_le64_round_trip(n as u64);
            assert(n <= b.len()) by (nonlinear_arith)
                requires
                    b.len() == n * width(t),
                    width(t) >= 1,
            ;
            lemma_le32(data, t, at);
            lemma_le64(data, n as u64, at + 4);
        },
        Value::Texts(s) => {
            let front = bytes::le32_bytes(8) + bytes::le64_bytes(s.len() as u64);
            lemma_split(data, front, texts(s), at);
            lemma_split(data, bytes::le32_bytes(8), bytes::le64_bytes(s.len() as u64), at);
            bytes::law_le32_round_trip(8);
            bytes::law_le64_round_trip(s.len() as u64);
            lemma_texts_len(s);
            lemma_le32(data, 8, at);
            lemma_le64(data, s.len() as u64, at + 4);
            lemma_texts(data, s, at + 12);
        },
    }
}

proof fn lemma_texts_len(s: Seq<Seq<u8>>)
    ensures
        s.len() <= texts(s).len(),
    decreases s.len(),
{
    if s.len() > 0 {
        bytes::law_le64_round_trip(s[0].len() as u64);
        lemma_texts_len(s.skip(1));
    }
}

/// The entry `k` stands for `e`: under its key, of its type, at its value.
pub open spec fn stands_for(data: Seq<u8>, k: KvEntry, e: (Seq<u8>, Value)) -> bool {
    &&& data.subrange(k.key_off as int, k.key_off + k.key_len) == e.0
    &&& k.typ == e.1.typ()
    &&& k.value_pos + e.1.written().len() <= data.len()
    &&& data.subrange(k.value_pos as int, k.value_pos + e.1.written().len()) == e.1.written()
}

proof fn lemma_entries(data: Seq<u8>, e: Seq<(Seq<u8>, Value)>, at: int)
    requires
        data.len() <= usize::MAX,
        forall|i: int| 0 <= i < e.len() ==> (#[trigger] e[i]).1.well_formed(),
        bytes::occurs_at(data, entries(e), at),
    ensures
        gguf::entries_at(data, at, e.len()) matches Ok(r) && r.1 == at + entries(e).len()
            && r.0.len() == e.len() && forall|i: int|
            0 <= i < e.len() ==> stands_for(data, #[trigger] r.0[i], e[i]),
    decreases e.len(),
{
    if e.len() > 0 {
        let (key, v) = e[0];
        let rest = e.skip(1);
        lemma_split(data, entry(e[0]), entries(rest), at);
        lemma_split(data, text(key) + bytes::le32_bytes(v.typ()), v.written(), at);
        lemma_split(data, text(key), bytes::le32_bytes(v.typ()), at);
        bytes::law_le32_round_trip(v.typ());
        lemma_text(data, key, at);
        let t = at + text(key).len();
        lemma_le32(data, v.typ(), t);
        assert(e[0].1.well_formed());
        lemma_value(data, v, t + 4);
        assert forall|i: int| 0 <= i < rest.len() implies (#[trigger] rest[i]).1.well_formed() by {
            assert(rest[i] == e[i + 1]);
        }
        lemma_entries(data, rest, at + entry(e[0]).len());
        let r = gguf::entries_at(data, at, e.len())->Ok_0;
        let rr = gguf::entries_at(data, at + entry(e[0]).len(), rest.len())->Ok_0;
        let first = gguf::entry_at(data, at)->Ok_0.0;
        assert(stands_for(data, first, e[0]));
        assert(r.0 =~= seq![first] + rr.0);
        assert forall|i: int| 0 <= i < e.len() implies stands_for(data, #[trigger] r.0[i], e[i]) by {
            if i > 0 {
                assert(stands_for(data, rr.0[i - 1], rest[i - 1]));
            }
        }
    }
}

/// Metadata that is written is read back as it was: the counts, and each entry
/// under its key, of its type, at its value; the tensors follow behind it,
/// whatever they are.
pub proof fn law_metadata_round_trip(
    n_tensors: u64,
    e: Seq<(Seq<u8>, Value)>,
    behind: Seq<u8>,
)
    requires
        file(n_tensors, e).len() + behind.len() <= usize::MAX,
        forall|i: int| 0 <= i < e.len() ==> (#[trigger] e[i]).1.well_formed(),
    ensures
        ({
            let data = file(n_tensors, e) + behind;
            &&& gguf::header_of(data) matches Ok(h)
            &&& h.n_tensors == n_tensors
            &&& h.n_kv == e.len()
            &&& h.entries.len() == e.len()
            &&& h.end == file(n_tensors, e).len()
            &&& forall|i: int| 0 <= i < e.len() ==> stands_for(data, #[trigger] h.entries[i], e[i])
        }),
{
    let data = file(n_tensors, e) + behind;
    let magic = seq![0x47u8, 0x47u8, 0x55u8, 0x46u8];
    let a = magic + bytes::le32_bytes(3);
    let b = a + bytes::le64_bytes(n_tensors);
    let c = b + bytes::le64_bytes(e.len() as u64);
    bytes::law_le32_round_trip(3);
    bytes::law_le64_round_trip(n_tensors);
    bytes::law_le64_round_trip(e.len() as u64);
    lemma_entries_len(e);
    assert(data.subrange(0, file(n_tensors, e).len() as int) =~= file(n_tensors, e));
    lemma_split(data, c, entries(e), 0);
    lemma_split(data, b, bytes::le64_bytes(e.len() as u64), 0);
    lemma_split(data, a, bytes::le64_bytes(n_tensors), 0);
    lemma_split(data, magic, bytes::le32_bytes(3), 0);
    let m = data.subrange(0, 4);
    assert(m == magic);
    assert(data[0] == m[0] && data[1] == m[1] && data[2] == m[2] && data[3] == m[3]);
    lemma_le32(data, 3, 4);
    lemma_le64(data, n_tensors, 8);
    lemma_le64(data, e.len() as u64, 16);
    lemma_entries(data, e, 24);
}

proof fn lemma_entries_len(e: Seq<(Seq<u8>, Value)>)
    ensures
        e.len() <= entries(e).len(),
    decreases e.len(),
{
    if e.len() > 0 {
        bytes::law_le32_round_trip(e[0].1.typ());
        lemma_entries_len(e.skip(1));
    }
}

proof fn lemma_named_from(data: Seq<u8>, entries: Seq<KvEntry>, key: Seq<u8>, from: int, k: int)
    requires
        0 <= from <= k < entries.len(),
        gguf::key_of(data, entries[k]) == key,
        forall|j: int| from <= j < k ==> gguf::key_of(data, #[trigger] entries[j]) != key,
    ensures
        gguf::entry_named(data, entries, key, from) == Some(entries[k]),
    decreases k - from,
{
    if from < k {
        lemma_named_from(data, entries, key, from + 1, k);
    }
}

proof fn lemma_unnamed_from(data: Seq<u8>, entries: Seq<KvEntry>, key: Seq<u8>, from: int)
    requires
        0 <= from,
        forall|j: int| from <= j < entries.len() ==> gguf::key_of(data, #[trigger] entries[j]) != key,
    ensures
        gguf::entry_named(data, entries, key, from) is None,
    decreases entries.len() - from,
{
    if from < entries.len() {
        lemma_unnamed_from(data, entries, key, from + 1);
    }
}

/// What is found under a key is the first entry of that key, and nothing where
/// there is none.
pub proof fn law_first_entry_counts(data: Seq<u8>, entries: Seq<KvEntry>, key: Seq<u8>, k: int)
    requires
        0 <= k <= entries.len(),
        forall|j: int|
            0 <= j < k ==> data.subrange(
                (#[trigger] entries[j]).key_off as int,
                entries[j].key_off + entries[j].key_len,
            ) != key,
    ensures
        k < entries.len() && data.subrange(
            entries[k].key_off as int,
            entries[k].key_off + entries[k].key_len,
        ) == key ==> gguf::entry_named(data, entries, key, 0) == Some(entries[k]),
        k == entries.len() ==> gguf::entry_named(data, entries, key, 0) is None,
{
    if k < entries.len() && data.subrange(
        entries[k].key_off as int,
        entries[k].key_off + entries[k].key_len,
    ) == key {
        lemma_named_from(data, entries, key, 0, k);
    }
    if k == entries.len() {
        lemma_unnamed_from(data, entries, key, 0);
    }
}

proof fn lemma_alignment(data: Seq<u8>, entries: Seq<KvEntry>, k: int)
    requires
        0 <= k < entries.len(),
        gguf::sets_alignment(data, entries[k]),
        forall|j: int|
            k < j < entries.len() ==> !gguf::sets_alignment(data, #[trigger] entries[j]),
    ensures
        gguf::alignment_of(data, entries) == bytes::le32(data, entries[k].value_pos as int),
    decreases entries.len(),
{
    if k < entries.len() - 1 {
        assert(!gguf::sets_alignment(data, entries[entries.len() - 1]));
        lemma_alignment(data, entries.drop_last(), k);
    }
}

proof fn lemma_no_alignment(data: Seq<u8>, entries: Seq<KvEntry>)
    requires
        forall|j: int|
            0 <= j < entries.len() ==> !gguf::sets_alignment(data, #[trigger] entries[j]),
    ensures
        gguf::alignment_of(data, entries) == 32,
    decreases entries.len(),
{
    if entries.len() > 0 {
        assert(!gguf::sets_alignment(data, entries[entries.len() - 1]));
        lemma_no_alignment(data, entries.drop_last());
    }
}

/// The entry `e` of `data` is called `general.alignment` and is a 32-bit number
/// other than 0.
pub open spec fn aligns(data: Seq<u8>, e: KvEntry) -> bool {
    &&& data.subrange(e.key_off as int, e.key_off + e.key_len)
        == "general.alignment".spec_bytes()
    &&& e.typ == 4
    &&& data[e.value_pos as int] + 256 * (data[e.value_pos + 1] + 256 * (data[e.value_pos + 2]
        + 256 * data[e.value_pos + 3])) != 0
}

/// The tensors are aligned as the last entry says that sets an alignment, and to
/// 32 bytes where none does.
pub proof fn law_last_alignment_counts(data: Seq<u8>, entries: Seq<KvEntry>, k: int)
    requires
        -1 <= k < entries.len(),
        k >= 0 ==> aligns(data, entries[k]),
        forall|j: int| k < j < entries.len() ==> !aligns(data, #[trigger] entries[j]),
    ensures
        k < 0 ==> gguf::alignment_of(data, entries) == 32,
        k >= 0 ==> gguf::alignment_of(data, entries) == bytes::le32(
            data,
            entries[k].value_pos as int,
        ),
{
    assert forall|j: int| 0 <= j < entries.len() implies aligns(data, #[trigger] entries[j])
        == gguf::sets_alignment(data, entries[j]) by {
        bytes::law_low_byte_first(data, entries[j].value_pos as int);
    }
    if k >= 0 {
        lemma_alignment(data, entries, k);
    } else {
        lemma_no_alignment(data, entries);
    }
}

} // verus!
