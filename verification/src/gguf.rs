//! The metadata of a GGUF version 3 file.
//!
//! A file is a header, a list of key/value entries, then the tensor
//! directory. Strings and values are found by their offsets; the functions
//! here say what the bytes at those offsets mean.

use crate::bytes;
use crate::bytes::{read_le16, read_le32, read_le64};
use crate::mapped::{MapError, MappedFile};
use crate::text;
use crate::text::{bytes_eq, lossy, push_u64};
use vstd::prelude::*;
use vstd::slice::slice_subrange;
use vstd::string::*;

verus! {

pub const GGUF_MAGIC: u32 = 0x4655_4747;

pub const GGUF_VERSION: u32 = 3;

pub const GGUF_VALUE_UINT8: u32 = 0;

pub const GGUF_VALUE_INT8: u32 = 1;

pub const GGUF_VALUE_UINT16: u32 = 2;

pub const GGUF_VALUE_INT16: u32 = 3;

pub const GGUF_VALUE_UINT32: u32 = 4;

pub const GGUF_VALUE_INT32: u32 = 5;

pub const GGUF_VALUE_FLOAT32: u32 = 6;

pub const GGUF_VALUE_BOOL: u32 = 7;

pub const GGUF_VALUE_STRING: u32 = 8;

pub const GGUF_VALUE_ARRAY: u32 = 9;

pub const GGUF_VALUE_UINT64: u32 = 10;

pub const GGUF_VALUE_INT64: u32 = 11;

pub const GGUF_VALUE_FLOAT64: u32 = 12;

/// How deep arrays may nest.
pub const MAX_NEST: i32 = 8;

/// Why a file could not be read.
#[derive(Clone, Copy, Debug, PartialEq, Eq, Structural)]
pub enum GgufError {
    Io,
    TooSmall,
    NotGguf,
    UnsupportedVersion(u32),
    Truncated,
    Nest,
    Type,
    ArrayTooLarge,
}

impl GgufError {
    pub open spec fn spec_token(self) -> Seq<char> {
        match self {
            GgufError::Io => "io"@,
            GgufError::TooSmall => "too-small"@,
            GgufError::NotGguf => "not-gguf"@,
            GgufError::UnsupportedVersion(v) => "unsupported-version "@ + text::decimal(v as nat),
            GgufError::Truncated => "truncated"@,
            GgufError::Nest => "nest"@,
            GgufError::Type => "type"@,
            GgufError::ArrayTooLarge => "array-too-large"@,
        }
    }

    /// The short form of the error.
    pub fn token(&self) -> (r: String)
        ensures
            r@ == self.spec_token(),
    {
        match self {
            GgufError::Io => String::from_str("io"),
            GgufError::TooSmall => String::from_str("too-small"),
            GgufError::NotGguf => String::from_str("not-gguf"),
            GgufError::UnsupportedVersion(v) => {
                let mut r = String::from_str("unsupported-version ");
                push_u64(&mut r, *v as u64);
                r
            },
            GgufError::Truncated => String::from_str("truncated"),
            GgufError::Nest => String::from_str("nest"),
            GgufError::Type => String::from_str("type"),
            GgufError::ArrayTooLarge => String::from_str("array-too-large"),
        }
    }
}

/// A file too small to map is reported as such; every other failure is the
/// system's.
impl From<MapError> for GgufError {
    fn from(e: MapError) -> (r: GgufError) {
        match e {
            MapError::TooSmall => GgufError::TooSmall,
            MapError::TooLarge => GgufError::Io,
            MapError::Io => GgufError::Io,
        }
    }
}

impl vstd::std_specs::convert::FromSpecImpl<MapError> for GgufError {
    open spec fn obeys_from_spec() -> bool {
        true
    }

    open spec fn from_spec(e: MapError) -> GgufError {
        match e {
            MapError::TooSmall => GgufError::TooSmall,
            MapError::TooLarge => GgufError::Io,
            MapError::Io => GgufError::Io,
        }
    }
}

pub open spec fn type_label(t: u32) -> Seq<char> {
    if t == GGUF_VALUE_UINT8 {
        "UINT8"@
    } else if t == GGUF_VALUE_INT8 {
        "INT8"@
    } else if t == GGUF_VALUE_UINT16 {
        "UINT16"@
    } else if t == GGUF_VALUE_INT16 {
        "INT16"@
    } else if t == GGUF_VALUE_UINT32 {
        "UINT32"@
    } else if t == GGUF_VALUE_INT32 {
        "INT32"@
    } else if t == GGUF_VALUE_FLOAT32 {
        "FLOAT32"@
    } else if t == GGUF_VALUE_BOOL {
        "BOOL"@
    } else if t == GGUF_VALUE_STRING {
        "STRING"@
    } else if t == GGUF_VALUE_ARRAY {
        "ARRAY"@
    } else if t == GGUF_VALUE_UINT64 {
        "UINT64"@
    } else if t == GGUF_VALUE_INT64 {
        "INT64"@
    } else if t == GGUF_VALUE_FLOAT64 {
        "FLOAT64"@
    } else {
        "UNKNOWN"@
    }
}

/// The name of the value type `t`.
pub fn value_type_name(t: u32) -> (r: &'static str)
    ensures
        r@ == type_label(t),
{
    match t {
        GGUF_VALUE_UINT8 => "UINT8",
        GGUF_VALUE_INT8 => "INT8",
        GGUF_VALUE_UINT16 => "UINT16",
        GGUF_VALUE_INT16 => "INT16",
        GGUF_VALUE_UINT32 => "UINT32",
        GGUF_VALUE_INT32 => "INT32",
        GGUF_VALUE_FLOAT32 => "FLOAT32",
        GGUF_VALUE_BOOL => "BOOL",
        GGUF_VALUE_STRING => "STRING",
        GGUF_VALUE_ARRAY => "ARRAY",
        GGUF_VALUE_UINT64 => "UINT64",
        GGUF_VALUE_INT64 => "INT64",
        GGUF_VALUE_FLOAT64 => "FLOAT64",
        _ => "UNKNOWN",
    }
}

/// One key/value entry: where its key and its value stand.
#[derive(Clone, Copy, Debug)]
pub struct KvEntry {
    pub key_off: usize,
    pub key_len: usize,
    pub typ: u32,
    pub value_pos: usize,
}

/// An array value: its item type, its length, where its items start.
#[derive(Clone, Copy, Debug)]
pub struct ArrayRef {
    pub typ: u32,
    pub len: u64,
    pub data_pos: usize,
}

/// The size of a scalar of type `typ`; 0 for the other types.
pub open spec fn scalar_size(typ: u32) -> int {
    if typ == GGUF_VALUE_UINT8 || typ == GGUF_VALUE_INT8 || typ == GGUF_VALUE_BOOL {
        1
    } else if typ == GGUF_VALUE_UINT16 || typ == GGUF_VALUE_INT16 {
        2
    } else if typ == GGUF_VALUE_UINT32 || typ == GGUF_VALUE_INT32 || typ == GGUF_VALUE_FLOAT32 {
        4
    } else if typ == GGUF_VALUE_UINT64 || typ == GGUF_VALUE_INT64 || typ == GGUF_VALUE_FLOAT64 {
        8
    } else {
        0
    }
}

fn scalar_value_size(typ: u32) -> (r: u64)
    ensures
        r == scalar_size(typ),
{
    match typ {
        GGUF_VALUE_UINT8 | GGUF_VALUE_INT8 | GGUF_VALUE_BOOL => 1,
        GGUF_VALUE_UINT16 | GGUF_VALUE_INT16 => 2,
        GGUF_VALUE_UINT32 | GGUF_VALUE_INT32 | GGUF_VALUE_FLOAT32 => 4,
        GGUF_VALUE_UINT64 | GGUF_VALUE_INT64 | GGUF_VALUE_FLOAT64 => 8,
        _ => 0,
    }
}

/// A string is complete at `pos`: its 64-bit length, then its bytes.
pub open spec fn string_fits(data: Seq<u8>, pos: int) -> bool {
    &&& pos + 8 <= data.len()
    &&& pos + 8 + bytes::le64(data, pos) <= data.len()
}

/// The bytes of the string at `pos`.
pub open spec fn string_at(data: Seq<u8>, pos: int) -> Seq<u8> {
    data.subrange(pos + 8, string_end(data, pos))
}

/// Where the string at `pos` ends.
pub open spec fn string_end(data: Seq<u8>, pos: int) -> int {
    pos + 8 + bytes::le64(data, pos)
}

/// Where the value of type `typ` at `pos` ends, `depth` arrays down.
pub open spec fn value_end(data: Seq<u8>, pos: int, typ: u32, depth: int) -> Result<int, GgufError>
    decreases 10 - depth, 0nat,
{
    if depth > MAX_NEST {
        Err(GgufError::Nest)
    } else if scalar_size(typ) != 0 {
        if pos + scalar_size(typ) <= data.len() {
            Ok(pos + scalar_size(typ))
        } else {
            Err(GgufError::Truncated)
        }
    } else if typ == GGUF_VALUE_STRING {
        if string_fits(data, pos) {
            Ok(string_end(data, pos))
        } else {
            Err(GgufError::Truncated)
        }
    } else if typ == GGUF_VALUE_ARRAY {
        if pos + 12 > data.len() {
            Err(GgufError::Truncated)
        } else {
            let item = bytes::le32(data, pos) as u32;
            let n = bytes::le64(data, pos + 4);
            if scalar_size(item) == 0 {
                items_end(data, pos + 12, item, n as nat, depth + 1)
            } else if n * scalar_size(item) > u64::MAX {
                Err(GgufError::ArrayTooLarge)
            } else if pos + 12 + n * scalar_size(item) <= data.len() {
                Ok(pos + 12 + n * scalar_size(item))
            } else {
                Err(GgufError::Truncated)
            }
        }
    } else {
        Err(GgufError::Type)
    }
}

/// Where the `n` values of type `typ` that start at `pos` end.
pub open spec fn items_end(data: Seq<u8>, pos: int, typ: u32, n: nat, depth: int) -> Result<
    int,
    GgufError,
>
    decreases 10 - depth, n,
{
    if n == 0 {
        Ok(pos)
    } else {
        match value_end(data, pos, typ, depth) {
            Err(e) => Err(e),
            Ok(p) => items_end(data, p, typ, (n - 1) as nat, depth),
        }
    }
}

/// The entry at `pos` and where it ends: the key, the type, the value.
pub open spec fn entry_at(data: Seq<u8>, pos: int) -> Result<(KvEntry, int), GgufError> {
    if !string_fits(data, pos) {
        Err(GgufError::Truncated)
    } else if string_end(data, pos) + 4 > data.len() {
        Err(GgufError::Truncated)
    } else {
        let key_end = string_end(data, pos);
        let typ = bytes::le32(data, key_end) as u32;
        match value_end(data, key_end + 4, typ, 0) {
            Err(e) => Err(e),
            Ok(end) => Ok(
                (
                    KvEntry {
                        key_off: (pos + 8) as usize,
                        key_len: bytes::le64(data, pos) as usize,
                        typ,
                        value_pos: (key_end + 4) as usize,
                    },
                    end,
                ),
            ),
        }
    }
}

/// The `n` entries that start at `pos`, and where they end.
pub open spec fn entries_at(data: Seq<u8>, pos: int, n: nat) -> Result<
    (Seq<KvEntry>, int),
    GgufError,
>
    decreases n,
{
    if n == 0 {
        Ok((seq![], pos))
    } else {
        match entry_at(data, pos) {
            Err(e) => Err(e),
            Ok((entry, p)) => match entries_at(data, p, (n - 1) as nat) {
                Err(e) => Err(e),
                Ok((rest, end)) => Ok((seq![entry] + rest, end)),
            },
        }
    }
}

/// `first`, then what `rest` holds.
pub open spec fn prepended(first: Seq<KvEntry>, rest: Result<(Seq<KvEntry>, int), GgufError>) -> Result<
    (Seq<KvEntry>, int),
    GgufError,
> {
    match rest {
        Err(e) => Err(e),
        Ok((entries, end)) => Ok((first + entries, end)),
    }
}

/// The bytes of the key of `e`.
pub open spec fn key_of(data: Seq<u8>, e: KvEntry) -> Seq<u8> {
    data.subrange(e.key_off as int, e.key_off + e.key_len)
}

/// The entry sets the alignment of the tensor data.
pub open spec fn sets_alignment(data: Seq<u8>, e: KvEntry) -> bool {
    &&& key_of(data, e) == "general.alignment".spec_bytes()
    &&& e.typ == GGUF_VALUE_UINT32
    &&& bytes::le32(data, e.value_pos as int) != 0
}

/// The alignment of the tensor data: that of the last entry which sets it, 32
/// where none does.
pub open spec fn alignment_of(data: Seq<u8>, entries: Seq<KvEntry>) -> int
    decreases entries.len(),
{
    if entries.len() == 0 {
        32
    } else if sets_alignment(data, entries.last()) {
        bytes::le32(data, entries.last().value_pos as int)
    } else {
        alignment_of(data, entries.drop_last())
    }
}

/// The header fields and the entries of a file.
pub struct Header {
    pub n_tensors: int,
    pub n_kv: int,
    pub entries: Seq<KvEntry>,
    pub end: int,
}

/// What the bytes of a file say: the magic number, the version, the counts,
/// the entries.
pub open spec fn header_of(data: Seq<u8>) -> Result<Header, GgufError> {
    if data.len() < 4 {
        Err(GgufError::Truncated)
    } else if bytes::le32(data, 0) != GGUF_MAGIC {
        Err(GgufError::NotGguf)
    } else if data.len() < 24 {
        Err(GgufError::Truncated)
    } else if bytes::le32(data, 4) != GGUF_VERSION {
        Err(GgufError::UnsupportedVersion(bytes::le32(data, 4) as u32))
    } else {
        match entries_at(data, 24, bytes::le64(data, 16) as nat) {
            Err(e) => Err(e),
            Ok((entries, end)) => Ok(
                Header {
                    n_tensors: bytes::le64(data, 8),
                    n_kv: bytes::le64(data, 16),
                    entries,
                    end,
                },
            ),
        }
    }
}

/// The first of `entries`, from `i` on, whose key is `key`.
pub open spec fn entry_named(
    data: Seq<u8>,
    entries: Seq<KvEntry>,
    key: Seq<u8>,
    i: int,
) -> Option<KvEntry>
    decreases entries.len() - i,
{
    if i < 0 || i >= entries.len() {
        None
    } else if key_of(data, entries[i]) == key {
        Some(entries[i])
    } else {
        entry_named(data, entries, key, i + 1)
    }
}

/// The key and the value of `e` start within the file.
pub open spec fn entry_within(data: Seq<u8>, e: KvEntry) -> bool {
    &&& e.key_off + e.key_len <= data.len()
    &&& e.value_pos <= data.len()
}

struct Cursor<'a> {
    data: &'a [u8],
    pos: usize,
}

impl<'a> Cursor<'a> {
    fn at(data: &'a [u8], pos: usize) -> (c: Cursor<'a>)
        ensures
            c.data@ == data@,
            c.pos == pos,
    {
        Cursor { data, pos }
    }

    fn has(&self, n: u64) -> (r: Result<(), GgufError>)
        ensures
            match r {
                Ok(_) => self.pos + n <= self.data@.len(),
                Err(e) => e == GgufError::Truncated && self.pos + n > self.data@.len(),
            },
    {
        let len: usize = self.data.len();
        if n > len as u64 || self.pos as u64 > len as u64 - n {
            return Err(GgufError::Truncated);
        }
        Ok(())
    }

    fn skip(&mut self, n: u64) -> (r: Result<(), GgufError>)
        ensures
            final(self).data@ == old(self).data@,
            match r {
                Ok(_) => final(self).pos == old(self).pos + n && final(self).pos
                    <= final(self).data@.len(),
                Err(e) => e == GgufError::Truncated && old(self).pos + n > old(self).data@.len(),
            },
    {
        let len: usize = self.data.len();
        match self.has(n) {
            Ok(()) => {
                self.pos = self.pos + n as usize;
                Ok(())
            },
            Err(e) => Err(e),
        }
    }

    fn u32(&mut self) -> (r: Result<u32, GgufError>)
        ensures
            final(self).data@ == old(self).data@,
            match r {
                Ok(v) => final(self).pos == old(self).pos + 4 && final(self).pos
                    <= final(self).data@.len() && v == bytes::le32(
                    old(self).data@,
                    old(self).pos as int,
                ),
                Err(e) => e == GgufError::Truncated && old(self).pos + 4 > old(self).data@.len(),
            },
    {
        let at: usize = self.pos;
        match self.skip(4) {
            Ok(()) => Ok(read_le32(self.data, at)),
            Err(e) => Err(e),
        }
    }

    fn u64(&mut self) -> (r: Result<u64, GgufError>)
        ensures
            final(self).data@ == old(self).data@,
            match r {
                Ok(v) => final(self).pos == old(self).pos + 8 && final(self).pos
                    <= final(self).data@.len() && v == bytes::le64(
                    old(self).data@,
                    old(self).pos as int,
                ),
                Err(e) => e == GgufError::Truncated && old(self).pos + 8 > old(self).data@.len(),
            },
    {
        let at: usize = self.pos;
        match self.skip(8) {
            Ok(()) => Ok(read_le64(self.data, at)),
            Err(e) => Err(e),
        }
    }

    /// The offset and the length of the string at the cursor.
    fn string(&mut self) -> (r: Result<(usize, usize), GgufError>)
        ensures
            final(self).data@ == old(self).data@,
            match r {
                Ok(s) => {
                    &&& string_fits(old(self).data@, old(self).pos as int)
                    &&& s.0 == old(self).pos + 8
                    &&& s.1 == bytes::le64(old(self).data@, old(self).pos as int)
                    &&& final(self).pos == string_end(old(self).data@, old(self).pos as int)
                    &&& final(self).pos <= final(self).data@.len()
                },
                Err(e) => e == GgufError::Truncated && !string_fits(
                    old(self).data@,
                    old(self).pos as int,
                ),
            },
    {
        let len: u64 = match self.u64() {
            Ok(v) => v,
            Err(e) => {
                return Err(e);
            },
        };
        let off: usize = self.pos;
        match self.skip(len) {
            Ok(()) => Ok((off, len as usize)),
            Err(e) => Err(e),
        }
    }
}

fn skip_value(c: &mut Cursor, typ: u32, depth: i32) -> (r: Result<(), GgufError>)
    requires
        0 <= depth <= MAX_NEST + 1,
        old(c).pos <= old(c).data@.len(),
    ensures
        final(c).data@ == old(c).data@,
        match r {
            Ok(_) => value_end(old(c).data@, old(c).pos as int, typ, depth as int) == Ok::<
                int,
                GgufError,
            >(final(c).pos as int) && final(c).pos <= final(c).data@.len(),
            Err(e) => value_end(old(c).data@, old(c).pos as int, typ, depth as int) == Err::<
                int,
                GgufError,
            >(e),
        },
    decreases 10 - depth, 0nat,
{
    if depth > MAX_NEST {
        return Err(GgufError::Nest);
    }
    let scalar: u64 = scalar_value_size(typ);
    if scalar != 0 {
        return c.skip(scalar);
    }
    if typ == GGUF_VALUE_STRING {
        return match c.string() {
            Ok(_) => Ok(()),
            Err(e) => Err(e),
        };
    }
    if typ == GGUF_VALUE_ARRAY {
        let ghost start = c.pos as int;
        let item_type: u32 = match c.u32() {
            Ok(v) => v,
            Err(e) => {
                return Err(e);
            },
        };
        let len: u64 = match c.u64() {
            Ok(v) => v,
            Err(e) => {
                return Err(e);
            },
        };
        let item_size: u64 = scalar_value_size(item_type);
        if item_size != 0 {
            let total: Option<u64> = len.checked_mul(item_size);
            return match total {
                Some(n) => c.skip(n),
                None => Err(GgufError::ArrayTooLarge),
            };
        }
        return skip_items(c, item_type, len, depth + 1);
    }
    Err(GgufError::Type)
}

fn skip_items(c: &mut Cursor, typ: u32, n: u64, depth: i32) -> (r: Result<(), GgufError>)
    requires
        0 <= depth <= MAX_NEST + 1,
        old(c).pos <= old(c).data@.len(),
    ensures
        final(c).data@ == old(c).data@,
        match r {
            Ok(_) => items_end(old(c).data@, old(c).pos as int, typ, n as nat, depth as int) == Ok::<
                int,
                GgufError,
            >(final(c).pos as int) && final(c).pos <= final(c).data@.len(),
            Err(e) => items_end(old(c).data@, old(c).pos as int, typ, n as nat, depth as int)
                == Err::<int, GgufError>(e),
        },
    decreases 10 - depth, n + 1,
{
    let mut left: u64 = n;
    while left > 0
        invariant
            left <= n,
            0 <= depth <= MAX_NEST + 1,
            c.data@ == old(c).data@,
            c.pos <= c.data@.len(),
            items_end(old(c).data@, old(c).pos as int, typ, n as nat, depth as int) == items_end(
                c.data@,
                c.pos as int,
                typ,
                left as nat,
                depth as int,
            ),
        decreases left,
    {
        match skip_value(c, typ, depth) {
            Ok(()) => {},
            Err(e) => {
                return Err(e);
            },
        }
        left -= 1;
    }
    Ok(())
}

/// Every entry of a list lies within the file.
proof fn lemma_entries_within(data: Seq<u8>, pos: int, n: nat)
    requires
        0 <= pos <= data.len() <= usize::MAX,
        entries_at(data, pos, n) is Ok,
    ensures
        forall|i: int|
            0 <= i < entries_at(data, pos, n)->Ok_0.0.len() ==> entry_within(
                data,
                #[trigger] entries_at(data, pos, n)->Ok_0.0[i],
            ),
    decreases n,
{
    if n > 0 {
        let (e, p) = entry_at(data, pos)->Ok_0;
        lemma_value_end_within(data, e.value_pos as int, e.typ, 0);
        lemma_entries_within(data, p, (n - 1) as nat);
        let rest = entries_at(data, p, (n - 1) as nat)->Ok_0.0;
        assert forall|i: int| 0 <= i < (seq![e] + rest).len() implies entry_within(
            data,
            #[trigger] (seq![e] + rest)[i],
        ) by {
            if i > 0 {
                assert(entry_within(data, rest[i - 1]));
            }
        }
    }
}

proof fn lemma_value_end_within(data: Seq<u8>, pos: int, typ: u32, depth: int)
    requires
        0 <= pos <= data.len(),
        value_end(data, pos, typ, depth) is Ok,
    ensures
        pos <= value_end(data, pos, typ, depth)->Ok_0 <= data.len(),
    decreases 10 - depth, 0nat,
{
    if scalar_size(typ) == 0 && typ == GGUF_VALUE_ARRAY {
        let item = bytes::le32(data, pos) as u32;
        let n = bytes::le64(data, pos + 4);
        if scalar_size(item) == 0 {
            lemma_items_end_within(data, pos + 12, item, n as nat, depth + 1);
        } else {
            assert(0 <= n * scalar_size(item)) by (nonlinear_arith)
                requires
                    0 <= n,
                    0 <= scalar_size(item),
            ;
        }
    }
}

proof fn lemma_items_end_within(data: Seq<u8>, pos: int, typ: u32, n: nat, depth: int)
    requires
        0 <= pos <= data.len(),
        items_end(data, pos, typ, n, depth) is Ok,
    ensures
        pos <= items_end(data, pos, typ, n, depth)->Ok_0 <= data.len(),
    decreases 10 - depth, n,
{
    if n > 0 {
        lemma_value_end_within(data, pos, typ, depth);
        lemma_items_end_within(
            data,
            value_end(data, pos, typ, depth)->Ok_0,
            typ,
            (n - 1) as nat,
            depth,
        );
    }
}

/// The first `n` bytes of `a` and of `b` are there and the same.
pub open spec fn agree(a: Seq<u8>, b: Seq<u8>, n: int) -> bool {
    &&& 0 <= n <= a.len()
    &&& n <= b.len()
    &&& forall|i: int| 0 <= i < n ==> a[i] == b[i]
}

proof fn lemma_value_end_agrees(a: Seq<u8>, b: Seq<u8>, n: int, pos: int, typ: u32, depth: int)
    requires
        agree(a, b, n),
        0 <= pos <= a.len(),
        value_end(a, pos, typ, depth) is Ok,
        value_end(a, pos, typ, depth)->Ok_0 <= n,
    ensures
        value_end(b, pos, typ, depth) == value_end(a, pos, typ, depth),
    decreases 10 - depth, 0nat,
{
    lemma_value_end_within(a, pos, typ, depth);
    if scalar_size(typ) == 0 && typ == GGUF_VALUE_ARRAY {
        let item = bytes::le32(a, pos) as u32;
        let count = bytes::le64(a, pos + 4);
        if scalar_size(item) == 0 {
            lemma_items_end_within(a, pos + 12, item, count as nat, depth + 1);
            lemma_items_end_agrees(a, b, n, pos + 12, item, count as nat, depth + 1);
        } else {
            assert(0 <= count * scalar_size(item)) by (nonlinear_arith)
                requires
                    0 <= count,
                    0 <= scalar_size(item),
            ;
        }
    }
}

proof fn lemma_items_end_agrees(
    a: Seq<u8>,
    b: Seq<u8>,
    n: int,
    pos: int,
    typ: u32,
    count: nat,
    depth: int,
)
    requires
        agree(a, b, n),
        0 <= pos <= a.len(),
        items_end(a, pos, typ, count, depth) is Ok,
        items_end(a, pos, typ, count, depth)->Ok_0 <= n,
    ensures
        items_end(b, pos, typ, count, depth) == items_end(a, pos, typ, count, depth),
    decreases 10 - depth, count,
{
    if count > 0 {
        let p = value_end(a, pos, typ, depth)->Ok_0;
        lemma_value_end_within(a, pos, typ, depth);
        lemma_items_end_within(a, p, typ, (count - 1) as nat, depth);
        lemma_value_end_agrees(a, b, n, pos, typ, depth);
        lemma_items_end_agrees(a, b, n, p, typ, (count - 1) as nat, depth);
    }
}

proof fn lemma_entries_end_within(data: Seq<u8>, pos: int, n: nat)
    requires
        0 <= pos <= data.len(),
        entries_at(data, pos, n) is Ok,
    ensures
        pos <= entries_at(data, pos, n)->Ok_0.1 <= data.len(),
        entries_at(data, pos, n)->Ok_0.0.len() == n,
    decreases n,
{
    if n > 0 {
        let key_end = string_end(data, pos);
        let typ = bytes::le32(data, key_end) as u32;
        lemma_value_end_within(data, key_end + 4, typ, 0);
        lemma_entries_end_within(data, entry_at(data, pos)->Ok_0.1, (n - 1) as nat);
    }
}

proof fn lemma_entries_agree(a: Seq<u8>, b: Seq<u8>, n: int, pos: int, count: nat)
    requires
        agree(a, b, n),
        0 <= pos <= a.len(),
        entries_at(a, pos, count) is Ok,
        entries_at(a, pos, count)->Ok_0.1 <= n,
    ensures
        entries_at(b, pos, count) == entries_at(a, pos, count),
    decreases count,
{
    if count > 0 {
        let key_end = string_end(a, pos);
        let typ = bytes::le32(a, key_end) as u32;
        let end = entry_at(a, pos)->Ok_0.1;
        lemma_value_end_within(a, key_end + 4, typ, 0);
        lemma_entries_end_within(a, end, (count - 1) as nat);
        assert(bytes::le64(b, pos) == bytes::le64(a, pos));
        assert(bytes::le32(b, key_end) == bytes::le32(a, key_end));
        lemma_value_end_agrees(a, b, n, key_end + 4, typ, 0);
        assert(entry_at(b, pos) == entry_at(a, pos));
        lemma_entries_agree(a, b, n, end, (count - 1) as nat);
    }
}

/// The entries of a file are as many as its header counts; they, and the place
/// where the tensor directory starts, lie within the file.
pub proof fn law_entries_lie_within(data: Seq<u8>, h: Header)
    requires
        data.len() <= usize::MAX,
        header_of(data) == Ok::<Header, GgufError>(h),
    ensures
        h.entries.len() == h.n_kv,
        24 <= h.end <= data.len(),
        forall|i: int| 0 <= i < h.entries.len() ==> entry_within(data, #[trigger] h.entries[i]),
{
    lemma_entries_end_within(data, 24, bytes::le64(data, 16) as nat);
    lemma_entries_within(data, 24, bytes::le64(data, 16) as nat);
}

/// What stands behind the metadata does not change it: two files that agree up
/// to the tensor directory of the first have the same header and entries.
pub proof fn law_metadata_stands_alone(data: Seq<u8>, other: Seq<u8>, h: Header)
    requires
        header_of(data) == Ok::<Header, GgufError>(h),
        agree(data, other, h.end),
    ensures
        header_of(other) == Ok::<Header, GgufError>(h),
{
    let n = bytes::le64(data, 16) as nat;
    lemma_entries_end_within(data, 24, n);
    lemma_entries_agree(data, other, h.end, 24, n);
}

/// The alignment of the tensor data is never 0.
pub proof fn law_alignment_is_positive(data: Seq<u8>, entries: Seq<KvEntry>)
    ensures
        alignment_of(data, entries) > 0,
    decreases entries.len(),
{
    if entries.len() > 0 && !sets_alignment(data, entries.last()) {
        law_alignment_is_positive(data, entries.drop_last());
    }
}

/// Reads the entry at the cursor.
fn read_entry(c: &mut Cursor) -> (r: Result<KvEntry, GgufError>)
    requires
        old(c).pos <= old(c).data@.len(),
    ensures
        final(c).data@ == old(c).data@,
        match r {
            Ok(e) => {
                &&& entry_at(old(c).data@, old(c).pos as int) == Ok::<(KvEntry, int), GgufError>(
                    (e, final(c).pos as int),
                )
                &&& final(c).pos <= final(c).data@.len()
            },
            Err(e) => entry_at(old(c).data@, old(c).pos as int) == Err::<
                (KvEntry, int),
                GgufError,
            >(e),
        },
{
    let (key_off, key_len) = match c.string() {
        Ok(s) => s,
        Err(e) => {
            return Err(e);
        },
    };
    let typ: u32 = match c.u32() {
        Ok(v) => v,
        Err(e) => {
            return Err(e);
        },
    };
    let value_pos: usize = c.pos;
    match skip_value(c, typ, 0) {
        Ok(()) => Ok(KvEntry { key_off, key_len, typ, value_pos }),
        Err(e) => Err(e),
    }
}

/// The alignment after the entry `e`, where it was `alignment` before.
fn next_alignment(data: &[u8], e: &KvEntry, alignment: u64) -> (r: u64)
    requires
        entry_within(data@, *e),
        e.typ == GGUF_VALUE_UINT32 ==> e.value_pos + 4 <= data@.len(),
    ensures
        r == if sets_alignment(data@, *e) {
            bytes::le32(data@, e.value_pos as int)
        } else {
            alignment as int
        },
{
    let len: usize = data.len();
    let key = slice_subrange(data, e.key_off, e.key_off + e.key_len);
    if e.typ == GGUF_VALUE_UINT32 && bytes_eq(key, "general.alignment".as_bytes()) {
        let a: u32 = read_le32(data, e.value_pos);
        if a != 0 {
            return a as u64;
        }
    }
    alignment
}

/// An open file: its bytes and what its header says.
pub struct GgufFile<'a> {
    pub map: MappedFile<'a>,
    pub version: u32,
    pub n_tensors: u64,
    pub n_kv: u64,
    pub alignment: u64,
    pub tensor_dir_pos: usize,
    pub kv: Vec<KvEntry>,
}

/// A value from which a 32-bit float is made: its bits, or an integer.
#[derive(Clone, Copy, Debug, PartialEq, Eq, Structural)]
pub enum FloatSource {
    Single(u32),
    Double(u64),
    Unsigned(u32),
    /// The bits of a signed integer.
    Signed(u32),
}

/// The bits of an array of floats.
#[derive(Debug)]
pub enum FloatArray {
    Single(Vec<u32>),
    Double(Vec<u64>),
}

/// An array of `n` items of `size` bytes each is complete at `pos`.
pub open spec fn items_fit(data: Seq<u8>, pos: int, n: int, size: int) -> bool {
    pos + n * size <= data.len()
}

/// The strings of an array: the `n` strings that start at `pos`, `None` where
/// they are not all complete.
pub open spec fn strings_at(data: Seq<u8>, pos: int, n: nat) -> Option<Seq<Seq<u8>>>
    decreases n,
{
    if n == 0 {
        Some(seq![])
    } else if !string_fits(data, pos) {
        None
    } else {
        match strings_at(data, string_end(data, pos), (n - 1) as nat) {
            None => None,
            Some(rest) => Some(seq![string_at(data, pos)] + rest),
        }
    }
}

/// The bytes of each of `v`.
pub open spec fn slices(v: Seq<&[u8]>) -> Seq<Seq<u8>> {
    Seq::new(v.len(), |i: int| v[i]@)
}

impl<'a> GgufFile<'a> {
    /// The bytes of the file.
    pub open spec fn data(self) -> Seq<u8> {
        self.map.spec_bytes()
    }

    /// The key/value entries, in file order.
    pub open spec fn entries(self) -> Seq<KvEntry> {
        self.kv@
    }

    /// Every entry lies within the file.
    pub open spec fn well_formed(self) -> bool {
        forall|i: int|
            0 <= i < self.entries().len() ==> entry_within(
                self.data(),
                #[trigger] self.entries()[i],
            )
    }

    /// The entry of key `key`.
    pub open spec fn lookup(self, key: Seq<char>) -> Option<KvEntry> {
        entry_named(self.data(), self.entries(), vstd::utf8::encode_utf8(key), 0)
    }

    /// The entry of key `key` that has type `typ` and whose `size` value bytes
    /// are complete.
    pub open spec fn scalar(self, key: Seq<char>, typ: u32, size: int) -> Option<int> {
        match self.lookup(key) {
            Some(e) if e.typ == typ && e.value_pos + size <= self.data().len() => Some(
                e.value_pos as int,
            ),
            _ => None,
        }
    }

    /// Opens the mapped file; a file whose length rules it out is too small to
    /// be a model.
    pub fn open(map: Result<MappedFile<'a>, MapError>) -> (r: Result<GgufFile<'a>, GgufError>)
        ensures
            match map {
                Err(e) => r == Err::<GgufFile, GgufError>(
                    if e.invalid_data() {
                        GgufError::TooSmall
                    } else {
                        GgufError::Io
                    },
                ),
                Ok(m) => Self::parsed(m.spec_bytes(), r),
            },
    {
        match map {
            Ok(m) => Self::parse(m),
            Err(MapError::TooSmall) => Err(GgufError::TooSmall),
            Err(MapError::TooLarge) => Err(GgufError::TooSmall),
            Err(MapError::Io) => Err(GgufError::Io),
        }
    }

    /// `r` is what the bytes `data` of a file say.
    pub open spec fn parsed(data: Seq<u8>, r: Result<GgufFile<'a>, GgufError>) -> bool {
        match (header_of(data), r) {
            (Ok(h), Ok(g)) => {
                &&& g.well_formed()
                &&& g.data() == data
                &&& g.entries() == h.entries
                &&& g.version == GGUF_VERSION
                &&& g.n_tensors == h.n_tensors
                &&& g.n_kv == h.n_kv
                &&& g.alignment == alignment_of(data, h.entries)
                &&& g.tensor_dir_pos == h.end
            },
            (Err(e), Err(x)) => e == x,
            _ => false,
        }
    }

    /// Reads the header and the entries of the mapped file.
    pub fn parse(map: MappedFile<'a>) -> (r: Result<GgufFile<'a>, GgufError>)
        ensures
            Self::parsed(map.spec_bytes(), r),
    {
        let data = map.as_slice();
        let len: usize = data.len();
        let mut c = Cursor::at(data, 0);
        let magic: u32 = match c.u32() {
            Ok(v) => v,
            Err(e) => {
                return Err(e);
            },
        };
        if magic != GGUF_MAGIC {
            return Err(GgufError::NotGguf);
        }
        let version: u32 = match c.u32() {
            Ok(v) => v,
            Err(e) => {
                return Err(e);
            },
        };
        let n_tensors: u64 = match c.u64() {
            Ok(v) => v,
            Err(e) => {
                return Err(e);
            },
        };
        let n_kv: u64 = match c.u64() {
            Ok(v) => v,
            Err(e) => {
                return Err(e);
            },
        };
        if version != GGUF_VERSION {
            return Err(GgufError::UnsupportedVersion(version));
        }
        let mut kv: Vec<KvEntry> = Vec::new();
        let mut alignment: u64 = 32;
        let mut left: u64 = n_kv;
        proof {
            assert(kv@ + entries_at(data@, 24, n_kv as nat)->Ok_0.0 =~= entries_at(
                data@,
                24,
                n_kv as nat,
            )->Ok_0.0);
        }
        while left > 0
            invariant
                left <= n_kv,
                data@ == map.spec_bytes(),
                24 <= len == data@.len(),
                bytes::le32(data@, 0) == GGUF_MAGIC,
                bytes::le32(data@, 4) == GGUF_VERSION,
                bytes::le64(data@, 16) == n_kv,
                c.data@ == data@,
                c.pos <= len,
                alignment == alignment_of(data@, kv@),
                entries_at(data@, 24, n_kv as nat) == prepended(
                    kv@,
                    entries_at(data@, c.pos as int, left as nat),
                ),
            decreases left,
        {
            let ghost before = kv@;
            let entry = match read_entry(&mut c) {
                Ok(e) => e,
                Err(e) => {
                    return Err(e);
                },
            };
            alignment = next_alignment(data, &entry, alignment);
            kv.push(entry);
            left -= 1;
            proof {
                assert(kv@.drop_last() =~= before);
                let rest = entries_at(data@, c.pos as int, left as nat);
                if rest is Ok {
                    assert(before + (seq![entry] + rest->Ok_0.0) =~= kv@ + rest->Ok_0.0);
                }
            }
        }
        let tensor_dir_pos: usize = c.pos;
        proof {
            assert(kv@ + Seq::<KvEntry>::empty() =~= kv@);
            lemma_entries_within(data@, 24, n_kv as nat);
        }
        Ok(GgufFile { map, version, n_tensors, n_kv, alignment, tensor_dir_pos, kv })
    }

    /// The bytes of the file.
    pub fn as_bytes(&self) -> (r: &[u8])
        ensures
            r@ == self.data(),
    {
        self.map.as_slice()
    }

    /// The entries, in file order.
    pub fn kv_entries(&self) -> (r: &[KvEntry])
        ensures
            r@ == self.entries(),
    {
        self.kv.as_slice()
    }

    /// The bytes of the key of `e`.
    pub fn key_bytes(&self, e: &KvEntry) -> (r: &[u8])
        requires
            entry_within(self.data(), *e),
        ensures
            r@ == key_of(self.data(), *e),
    {
        let data = self.map.as_slice();
        let len: usize = data.len();
        slice_subrange(data, e.key_off, e.key_off + e.key_len)
    }

    fn find(&self, key: &str) -> (r: Option<KvEntry>)
        requires
            self.well_formed(),
        ensures
            r == self.lookup(key@),
            r matches Some(e) ==> entry_within(self.data(), e),
    {
        let want = key.as_bytes();
        let mut i: usize = 0;
        while i < self.kv.len()
            invariant
                i <= self.entries().len(),
                self.well_formed(),
                want@ == vstd::utf8::encode_utf8(key@),
                self.lookup(key@) == entry_named(self.data(), self.entries(), want@, i as int),
            decreases self.entries().len() - i,
        {
            assert(entry_within(self.data(), self.entries()[i as int]));
            if bytes_eq(self.key_bytes(&self.kv[i]), want) {
                return Some(self.kv[i]);
            }
            i += 1;
        }
        None
    }

    /// Where the value of the entry of key `key` starts, if it has type `typ`
    /// and `size` bytes of it are there.
    fn find_scalar(&self, key: &str, typ: u32, size: u64) -> (r: Option<usize>)
        requires
            self.well_formed(),
        ensures
            match (r, self.scalar(key@, typ, size as int)) {
                (Some(p), Some(at)) => p == at,
                (None, None) => true,
                _ => false,
            },
            r matches Some(p) ==> p + size <= self.data().len(),
    {
        match self.find(key) {
            None => None,
            Some(e) => {
                if e.typ != typ {
                    return None;
                }
                let c = Cursor::at(self.map.as_slice(), e.value_pos);
                match c.has(size) {
                    Ok(()) => Some(e.value_pos),
                    Err(_) => None,
                }
            },
        }
    }

    /// The string of key `key`; other types do not count.
    pub fn get_string(&self, key: &str) -> (r: Option<&[u8]>)
        requires
            self.well_formed(),
        ensures
            match r {
                Some(s) => {
                    &&& self.lookup(key@) matches Some(e)
                    &&& e.typ == GGUF_VALUE_STRING
                    &&& string_fits(self.data(), e.value_pos as int)
                    &&& s@ == string_at(self.data(), e.value_pos as int)
                },
                None => !(self.lookup(key@) matches Some(e) && e.typ == GGUF_VALUE_STRING
                    && string_fits(self.data(), e.value_pos as int)),
            },
    {
        match self.find(key) {
            None => None,
            Some(e) => {
                if e.typ != GGUF_VALUE_STRING {
                    return None;
                }
                let data = self.map.as_slice();
                let len: usize = data.len();
                let mut c = Cursor::at(data, e.value_pos);
                match c.string() {
                    Ok((off, n)) => Some(slice_subrange(data, off, off + n)),
                    Err(_) => None,
                }
            },
        }
    }

    /// The value of key `key` of type UINT32; a signed integer does not count.
    pub fn get_u32(&self, key: &str) -> (r: Option<u32>)
        requires
            self.well_formed(),
        ensures
            match (r, self.scalar(key@, GGUF_VALUE_UINT32, 4)) {
                (Some(v), Some(at)) => v == bytes::le32(self.data(), at),
                (None, None) => true,
                _ => false,
            },
    {
        match self.find_scalar(key, GGUF_VALUE_UINT32, 4) {
            Some(at) => Some(read_le32(self.map.as_slice(), at)),
            None => None,
        }
    }

    /// The value of key `key` of type UINT16.
    pub fn get_u16(&self, key: &str) -> (r: Option<u16>)
        requires
            self.well_formed(),
        ensures
            match (r, self.scalar(key@, GGUF_VALUE_UINT16, 2)) {
                (Some(v), Some(at)) => v == bytes::le16(self.data(), at),
                (None, None) => true,
                _ => false,
            },
    {
        match self.find_scalar(key, GGUF_VALUE_UINT16, 2) {
            Some(at) => Some(read_le16(self.map.as_slice(), at)),
            None => None,
        }
    }

    /// The value of key `key` of type UINT64.
    pub fn get_u64(&self, key: &str) -> (r: Option<u64>)
        requires
            self.well_formed(),
        ensures
            match (r, self.scalar(key@, GGUF_VALUE_UINT64, 8)) {
                (Some(v), Some(at)) => v == bytes::le64(self.data(), at),
                (None, None) => true,
                _ => false,
            },
    {
        match self.find_scalar(key, GGUF_VALUE_UINT64, 8) {
            Some(at) => Some(read_le64(self.map.as_slice(), at)),
            None => None,
        }
    }

    /// The value of key `key` of type UINT64 or UINT32.
    pub fn get_u64_compat(&self, key: &str) -> (r: Option<u64>)
        requires
            self.well_formed(),
        ensures
            match (
                self.scalar(key@, GGUF_VALUE_UINT64, 8),
                self.scalar(key@, GGUF_VALUE_UINT32, 4),
            ) {
                (Some(at), _) => r matches Some(v) && v == bytes::le64(self.data(), at),
                (None, Some(at)) => r matches Some(v) && v == bytes::le32(self.data(), at),
                (None, None) => r is None,
            },
    {
        match self.get_u64(key) {
            Some(v) => Some(v),
            None => match self.get_u32(key) {
                Some(v) => Some(v as u64),
                None => None,
            },
        }
    }

    /// What a float is made of under key `key`: a float of either width or a
    /// 32-bit integer.
    pub fn get_f32_source(&self, key: &str) -> (r: Option<FloatSource>)
        requires
            self.well_formed(),
        ensures
            match self.lookup(key@) {
                None => r is None,
                Some(e) => {
                    let at = e.value_pos as int;
                    if e.typ == GGUF_VALUE_FLOAT64 {
                        if at + 8 <= self.data().len() {
                            r == Some(FloatSource::Double(bytes::le64(self.data(), at) as u64))
                        } else {
                            r is None
                        }
                    } else if at + 4 > self.data().len() {
                        r is None
                    } else if e.typ == GGUF_VALUE_FLOAT32 {
                        r == Some(FloatSource::Single(bytes::le32(self.data(), at) as u32))
                    } else if e.typ == GGUF_VALUE_UINT32 {
                        r == Some(FloatSource::Unsigned(bytes::le32(self.data(), at) as u32))
                    } else if e.typ == GGUF_VALUE_INT32 {
                        r == Some(FloatSource::Signed(bytes::le32(self.data(), at) as u32))
                    } else {
                        r is None
                    }
                },
            },
    {
        match self.find(key) {
            None => None,
            Some(e) => {
                let mut c = Cursor::at(self.map.as_slice(), e.value_pos);
                if e.typ == GGUF_VALUE_FLOAT64 {
                    return match c.u64() {
                        Ok(v) => Some(FloatSource::Double(v)),
                        Err(_) => None,
                    };
                }
                match c.u32() {
                    Ok(v) => match e.typ {
                        GGUF_VALUE_FLOAT32 => Some(FloatSource::Single(v)),
                        GGUF_VALUE_UINT32 => Some(FloatSource::Unsigned(v)),
                        GGUF_VALUE_INT32 => Some(FloatSource::Signed(v)),
                        _ => None,
                    },
                    Err(_) => None,
                }
            },
        }
    }

    /// The value of key `key` of type BOOL: any byte but 0 is true.
    pub fn get_bool(&self, key: &str) -> (r: Option<bool>)
        requires
            self.well_formed(),
        ensures
            match (r, self.scalar(key@, GGUF_VALUE_BOOL, 1)) {
                (Some(v), Some(at)) => v == (self.data()[at] != 0),
                (None, None) => true,
                _ => false,
            },
    {
        match self.find_scalar(key, GGUF_VALUE_BOOL, 1) {
            Some(at) => Some(self.map.as_slice()[at] != 0),
            None => None,
        }
    }

    /// The array of key `key`.
    pub fn get_array(&self, key: &str) -> (r: Option<ArrayRef>)
        requires
            self.well_formed(),
        ensures
            match (r, self.scalar(key@, GGUF_VALUE_ARRAY, 12)) {
                (Some(a), Some(at)) => {
                    &&& a.typ == bytes::le32(self.data(), at)
                    &&& a.len == bytes::le64(self.data(), at + 4)
                    &&& a.data_pos == at + 12
                },
                (None, None) => true,
                _ => false,
            },
    {
        match self.find_scalar(key, GGUF_VALUE_ARRAY, 12) {
            Some(at) => {
                let data = self.map.as_slice();
                let len: usize = data.len();
                Some(
                    ArrayRef {
                        typ: read_le32(data, at),
                        len: read_le64(data, at + 4),
                        data_pos: at + 12,
                    },
                )
            },
            None => None,
        }
    }

    /// The strings of an array of strings.
    pub fn array_strings(&self, arr: &ArrayRef) -> (r: Result<Vec<&[u8]>, GgufError>)
        ensures
            if arr.typ != GGUF_VALUE_STRING {
                r matches Err(e) && e == GgufError::Type
            } else if arr.data_pos > self.data().len() {
                r matches Err(e) && e == GgufError::Truncated
            } else {
                match (r, strings_at(self.data(), arr.data_pos as int, arr.len as nat)) {
                    (Ok(v), Some(strings)) => slices(v@) == strings,
                    (Err(e), None) => e == GgufError::Truncated,
                    _ => false,
                }
            },
    {
        if arr.typ != GGUF_VALUE_STRING {
            return Err(GgufError::Type);
        }
        let data = self.map.as_slice();
        let len: usize = data.len();
        if arr.data_pos > len {
            return Err(GgufError::Truncated);
        }
        let mut c = Cursor::at(data, arr.data_pos);
        let mut out: Vec<&[u8]> = Vec::new();
        let mut left: u64 = arr.len;
        let ghost all = strings_at(data@, arr.data_pos as int, arr.len as nat);
        proof {
            if all is Some {
                assert(slices(out@) + all->0 =~= all->0);
            }
        }
        while left > 0
            invariant
                left <= arr.len,
                len == data@.len(),
                data@ == self.data(),
                c.data@ == data@,
                c.pos <= len,
                all == strings_at(data@, arr.data_pos as int, arr.len as nat),
                arr.typ == GGUF_VALUE_STRING,
                arr.data_pos <= len,
                match (all, strings_at(data@, c.pos as int, left as nat)) {
                    (Some(a), Some(rest)) => a == slices(out@) + rest,
                    (None, None) => true,
                    _ => false,
                },
            decreases left,
        {
            let ghost before = out@;
            let ghost at = c.pos as int;
            let (off, n) = match c.string() {
                Ok(s) => s,
                Err(e) => {
                    return Err(e);
                },
            };
            out.push(slice_subrange(data, off, off + n));
            left -= 1;
            proof {
                let rest = strings_at(data@, c.pos as int, left as nat);
                if rest is Some {
                    assert(slices(before) + (seq![string_at(data@, at)] + rest->0) =~= slices(out@)
                        + rest->0);
                }
            }
        }
        assert(slices(out@) + Seq::<Seq<u8>>::empty() =~= slices(out@));
        Ok(out)
    }

    /// The items of an array of 4-byte items that starts at `pos`.
    fn read_u32s(&self, pos: usize, n: u64) -> (r: Result<Vec<u32>, GgufError>)
        ensures
            match r {
                Ok(v) => {
                    &&& items_fit(self.data(), pos as int, n as int, 4)
                    &&& v@.len() == n
                    &&& forall|i: int|
                        0 <= i < n ==> v@[i] == bytes::le32(self.data(), pos + 4 * i)
                },
                Err(e) => e == GgufError::Truncated && !items_fit(
                    self.data(),
                    pos as int,
                    n as int,
                    4,
                ),
            },
    {
        let data = self.map.as_slice();
        let len: usize = data.len();
        if pos > len {
            return Err(GgufError::Truncated);
        }
        let mut c = Cursor::at(data, pos);
        let mut out: Vec<u32> = Vec::new();
        let mut i: u64 = 0;
        while i < n
            invariant
                i <= n,
                len == data@.len(),
                data@ == self.data(),
                c.data@ == data@,
                c.pos == pos + 4 * i,
                c.pos <= len,
                out@.len() == i,
                forall|k: int| 0 <= k < i ==> out@[k] == bytes::le32(data@, pos + 4 * k),
            decreases n - i,
        {
            match c.u32() {
                Ok(v) => out.push(v),
                Err(e) => {
                    return Err(e);
                },
            }
            i += 1;
        }
        Ok(out)
    }

    /// The items of an array of 8-byte items that starts at `pos`.
    fn read_u64s(&self, pos: usize, n: u64) -> (r: Result<Vec<u64>, GgufError>)
        ensures
            match r {
                Ok(v) => {
                    &&& items_fit(self.data(), pos as int, n as int, 8)
                    &&& v@.len() == n
                    &&& forall|i: int|
                        0 <= i < n ==> v@[i] == bytes::le64(self.data(), pos + 8 * i)
                },
                Err(e) => e == GgufError::Truncated && !items_fit(
                    self.data(),
                    pos as int,
                    n as int,
                    8,
                ),
            },
    {
        let data = self.map.as_slice();
        let len: usize = data.len();
        if pos > len {
            return Err(GgufError::Truncated);
        }
        let mut c = Cursor::at(data, pos);
        let mut out: Vec<u64> = Vec::new();
        let mut i: u64 = 0;
        while i < n
            invariant
                i <= n,
                len == data@.len(),
                data@ == self.data(),
                c.data@ == data@,
                c.pos == pos + 8 * i,
                c.pos <= len,
                out@.len() == i,
                forall|k: int| 0 <= k < i ==> out@[k] == bytes::le64(data@, pos + 8 * k),
            decreases n - i,
        {
            match c.u64() {
                Ok(v) => out.push(v),
                Err(e) => {
                    return Err(e);
                },
            }
            i += 1;
        }
        Ok(out)
    }

    /// The items of an array of UINT32.
    pub fn array_u32s(&self, arr: &ArrayRef) -> (r: Result<Vec<u32>, GgufError>)
        ensures
            match r {
                Ok(v) => {
                    &&& arr.typ == GGUF_VALUE_UINT32
                    &&& items_fit(self.data(), arr.data_pos as int, arr.len as int, 4)
                    &&& v@.len() == arr.len
                    &&& forall|i: int|
                        0 <= i < arr.len ==> v@[i] == bytes::le32(
                            self.data(),
                            arr.data_pos + 4 * i,
                        )
                },
                Err(e) => if arr.typ != GGUF_VALUE_UINT32 {
                    e == GgufError::Type
                } else {
                    e == GgufError::Truncated && !items_fit(
                        self.data(),
                        arr.data_pos as int,
                        arr.len as int,
                        4,
                    )
                },
            },
    {
        if arr.typ != GGUF_VALUE_UINT32 {
            return Err(GgufError::Type);
        }
        self.array_le_u32s(arr)
    }

    /// The bits of an array of floats of either width.
    pub fn array_f32_bits(&self, arr: &ArrayRef) -> (r: Result<FloatArray, GgufError>)
        ensures
            match r {
                Ok(FloatArray::Single(v)) => {
                    &&& arr.typ == GGUF_VALUE_FLOAT32
                    &&& items_fit(self.data(), arr.data_pos as int, arr.len as int, 4)
                    &&& v@.len() == arr.len
                    &&& forall|i: int|
                        0 <= i < arr.len ==> v@[i] == bytes::le32(
                            self.data(),
                            arr.data_pos + 4 * i,
                        )
                },
                Ok(FloatArray::Double(v)) => {
                    &&& arr.typ == GGUF_VALUE_FLOAT64
                    &&& items_fit(self.data(), arr.data_pos as int, arr.len as int, 8)
                    &&& v@.len() == arr.len
                    &&& forall|i: int|
                        0 <= i < arr.len ==> v@[i] == bytes::le64(
                            self.data(),
                            arr.data_pos + 8 * i,
                        )
                },
                Err(e) => if arr.data_pos > self.data().len() {
                    e == GgufError::Truncated
                } else if arr.typ == GGUF_VALUE_FLOAT32 {
                    e == GgufError::Truncated && !items_fit(
                        self.data(),
                        arr.data_pos as int,
                        arr.len as int,
                        4,
                    )
                } else if arr.typ == GGUF_VALUE_FLOAT64 {
                    e == GgufError::Truncated && !items_fit(
                        self.data(),
                        arr.data_pos as int,
                        arr.len as int,
                        8,
                    )
                } else {
                    e == GgufError::Type
                },
            },
    {
        if arr.data_pos > self.map.as_slice().len() {
            return Err(GgufError::Truncated);
        }
        match arr.typ {
            GGUF_VALUE_FLOAT32 => match self.read_u32s(arr.data_pos, arr.len) {
                Ok(v) => Ok(FloatArray::Single(v)),
                Err(e) => Err(e),
            },
            GGUF_VALUE_FLOAT64 => match self.read_u64s(arr.data_pos, arr.len) {
                Ok(v) => Ok(FloatArray::Double(v)),
                Err(e) => Err(e),
            },
            _ => Err(GgufError::Type),
        }
    }

    /// The items of an array of BOOL: any byte but 0 is true.
    pub fn array_bools(&self, arr: &ArrayRef) -> (r: Result<Vec<bool>, GgufError>)
        ensures
            match r {
                Ok(v) => {
                    &&& arr.typ == GGUF_VALUE_BOOL
                    &&& items_fit(self.data(), arr.data_pos as int, arr.len as int, 1)
                    &&& v@.len() == arr.len
                    &&& forall|i: int|
                        0 <= i < arr.len ==> v@[i] == (self.data()[arr.data_pos + i] != 0)
                },
                Err(e) => if arr.typ != GGUF_VALUE_BOOL {
                    e == GgufError::Type
                } else {
                    e == GgufError::Truncated && !items_fit(
                        self.data(),
                        arr.data_pos as int,
                        arr.len as int,
                        1,
                    )
                },
            },
    {
        if arr.typ != GGUF_VALUE_BOOL {
            return Err(GgufError::Type);
        }
        let data = self.map.as_slice();
        let len: usize = data.len();
        let pos: usize = arr.data_pos;
        if pos > len {
            return Err(GgufError::Truncated);
        }
        let mut c = Cursor::at(data, pos);
        let mut out: Vec<bool> = Vec::new();
        let mut i: u64 = 0;
        while i < arr.len
            invariant
                i <= arr.len,
                pos == arr.data_pos,
                arr.typ == GGUF_VALUE_BOOL,
                len == data@.len(),
                data@ == self.data(),
                c.data@ == data@,
                c.pos == pos + i,
                c.pos <= len,
                out@.len() == i,
                forall|k: int| 0 <= k < i ==> out@[k] == (data@[pos + k] != 0),
            decreases arr.len - i,
        {
            let at: usize = c.pos;
            match c.skip(1) {
                Ok(()) => out.push(data[at] != 0),
                Err(e) => {
                    return Err(e);
                },
            }
            i += 1;
        }
        Ok(out)
    }

    /// The items of an array of UINT32 or INT32, as unsigned integers.
    pub fn array_le_u32s(&self, arr: &ArrayRef) -> (r: Result<Vec<u32>, GgufError>)
        ensures
            match r {
                Ok(v) => {
                    &&& arr.typ == GGUF_VALUE_UINT32 || arr.typ == GGUF_VALUE_INT32
                    &&& items_fit(self.data(), arr.data_pos as int, arr.len as int, 4)
                    &&& v@.len() == arr.len
                    &&& forall|i: int|
                        0 <= i < arr.len ==> v@[i] == bytes::le32(
                            self.data(),
                            arr.data_pos + 4 * i,
                        )
                },
                Err(e) => if arr.typ != GGUF_VALUE_UINT32 && arr.typ != GGUF_VALUE_INT32 {
                    e == GgufError::Type
                } else {
                    e == GgufError::Truncated && !items_fit(
                        self.data(),
                        arr.data_pos as int,
                        arr.len as int,
                        4,
                    )
                },
            },
    {
        if arr.typ != GGUF_VALUE_UINT32 && arr.typ != GGUF_VALUE_INT32 {
            return Err(GgufError::Type);
        }
        self.read_u32s(arr.data_pos, arr.len)
    }

    /// The token id under key `key`: an integer of any 32- or 64-bit type that
    /// is neither negative nor above `i32::MAX`.
    pub open spec fn token_id(self, key: Seq<char>) -> Option<int> {
        match self.lookup(key) {
            None => None,
            Some(e) => {
                let at = e.value_pos as int;
                if (e.typ == GGUF_VALUE_UINT32 || e.typ == GGUF_VALUE_INT32) && at + 4
                    <= self.data().len() && bytes::le32(self.data(), at) <= i32::MAX {
                    Some(bytes::le32(self.data(), at))
                } else if (e.typ == GGUF_VALUE_UINT64 || e.typ == GGUF_VALUE_INT64) && at + 8
                    <= self.data().len() && bytes::le64(self.data(), at) <= i32::MAX {
                    Some(bytes::le64(self.data(), at))
                } else {
                    None
                }
            },
        }
    }

    /// The token id under key `key`.
    pub fn get_token_id(&self, key: &str) -> (r: Option<i32>)
        requires
            self.well_formed(),
        ensures
            match (r, self.token_id(key@)) {
                (Some(v), Some(id)) => v == id,
                (None, None) => true,
                _ => false,
            },
    {
        match self.find(key) {
            None => None,
            Some(e) => {
                let mut c = Cursor::at(self.map.as_slice(), e.value_pos);
                match e.typ {
                    GGUF_VALUE_UINT32 | GGUF_VALUE_INT32 => match c.u32() {
                        Ok(v) => if v > i32::MAX as u32 {
                            None
                        } else {
                            Some(v as i32)
                        },
                        Err(_) => None,
                    },
                    GGUF_VALUE_UINT64 | GGUF_VALUE_INT64 => match c.u64() {
                        Ok(v) => if v > i32::MAX as u64 {
                            None
                        } else {
                            Some(v as i32)
                        },
                        Err(_) => None,
                    },
                    _ => None,
                }
            },
        }
    }

    /// The number of files that the model is split into: `split.count`, of
    /// 16 or of 32 bits, 0 where it is not given.
    pub open spec fn splits(self) -> int {
        match (
            self.scalar("split.count"@, GGUF_VALUE_UINT16, 2),
            self.scalar("split.count"@, GGUF_VALUE_UINT32, 4),
        ) {
            (Some(at), _) => bytes::le16(self.data(), at),
            (None, Some(at)) => bytes::le32(self.data(), at),
            (None, None) => 0,
        }
    }

    /// The number of files that the model is split into.
    pub fn split_count(&self) -> (r: u32)
        requires
            self.well_formed(),
        ensures
            r == self.splits(),
    {
        if let Some(v) = self.get_u16("split.count") {
            return v as u32;
        }
        match self.get_u32("split.count") {
            Some(v) => v,
            None => 0,
        }
    }

    /// The string of key `key`, if there is one.
    pub open spec fn string(self, key: Seq<char>) -> Option<Seq<u8>> {
        match self.lookup(key) {
            Some(e) if e.typ == GGUF_VALUE_STRING && string_fits(self.data(), e.value_pos as int)
                => Some(string_at(self.data(), e.value_pos as int)),
            _ => None,
        }
    }

    /// The lines of the first `n` entries: key and type.
    pub open spec fn entry_lines(self, n: nat) -> Seq<char>
        decreases n,
    {
        if n == 0 {
            seq![]
        } else {
            let e = self.entries()[n - 1];
            self.entry_lines((n - 1) as nat) + ("KV "@ + text::utf8_lossy(key_of(self.data(), e))
                + " "@ + type_label(e.typ) + "\n"@)
        }
    }

    /// The header and the entries as text.
    pub open spec fn header_text(self) -> Seq<char> {
        ("HEADER version="@ + text::decimal(self.version as nat) + " n_tensors="@ + text::decimal(
            self.n_tensors as nat,
        ) + " n_kv="@ + text::decimal(self.n_kv as nat) + " alignment="@ + text::decimal(
            self.alignment as nat,
        ) + "\n"@) + self.entry_lines(self.entries().len()) + ("SPLIT "@ + text::decimal(
            self.splits() as nat,
        ) + "\n"@) + match self.string("general.architecture"@) {
            None => "ARCH missing\n"@,
            Some(a) => "ARCH "@ + text::utf8_lossy(a) + "\n"@,
        }
    }

    /// The header and the entries as text.
    pub fn dump_header_kv(&self) -> (r: String)
        requires
            self.well_formed(),
        ensures
            r@ == self.header_text(),
    {
        let mut out = String::from_str("HEADER version=");
        push_u64(&mut out, self.version as u64);
        out.append(" n_tensors=");
        push_u64(&mut out, self.n_tensors);
        out.append(" n_kv=");
        push_u64(&mut out, self.n_kv);
        out.append(" alignment=");
        push_u64(&mut out, self.alignment);
        out.append("\n");
        let ghost head = out@;
        let mut i: usize = 0;
        while i < self.kv.len()
            invariant
                i <= self.entries().len(),
                self.well_formed(),
                out@ == head + self.entry_lines(i as nat),
            decreases self.entries().len() - i,
        {
            assert(entry_within(self.data(), self.entries()[i as int]));
            let mut line = String::from_str("KV ");
            line.append(lossy(self.key_bytes(&self.kv[i])).as_str());
            line.append(" ");
            line.append(value_type_name(self.kv[i].typ));
            line.append("\n");
            out.append(line.as_str());
            i += 1;
        }
        let mut split = String::from_str("SPLIT ");
        push_u64(&mut split, self.split_count() as u64);
        split.append("\n");
        out.append(split.as_str());
        match self.get_string("general.architecture") {
            None => out.append("ARCH missing\n"),
            Some(a) => {
                let mut arch = String::from_str("ARCH ");
                arch.append(lossy(a).as_str());
                arch.append("\n");
                out.append(arch.as_str());
            },
        }
        out
    }
}

} // verus!
