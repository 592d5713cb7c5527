//! What is handed to the native engine, and the errors that come back.

use crate::shape::{BindPlan, BindSlot, TensorInfo};
use crate::text;
use crate::text::{lossy, push_i64};
use vstd::prelude::*;
use vstd::slice::{slice_subrange, slice_to_vec};
use vstd::string::*;
use vstd::utf8::*;

verus! {

/// Where the engine runs.
#[derive(Clone, Copy, Debug, PartialEq, Eq, Structural)]
pub enum Backend {
    Cuda,
    Metal,
    Cpu,
}

impl Backend {
    /// The number under which the engine knows the backend.
    pub fn to_c(self) -> (r: i32)
        ensures
            r == match self {
                Backend::Cuda => 0int,
                Backend::Metal => 1,
                Backend::Cpu => 2,
            },
    {
        match self {
            Backend::Cuda => 0,
            Backend::Metal => 1,
            Backend::Cpu => 2,
        }
    }

    pub open spec fn spec_label(self) -> Seq<char> {
        match self {
            Backend::Cuda => "Cuda"@,
            Backend::Metal => "Metal"@,
            Backend::Cpu => "Cpu"@,
        }
    }

    /// The name of the backend.
    pub fn label(self) -> (r: &'static str)
        ensures
            r@ == self.spec_label(),
    {
        match self {
            Backend::Cuda => "Cuda",
            Backend::Metal => "Metal",
            Backend::Cpu => "Cpu",
        }
    }
}

/// A failure: the engine's code, or 1, and a message.
#[derive(Debug)]
pub struct Error {
    pub code: i32,
    pub message: String,
}

impl Error {
    /// `e` is the host's own failure `message`.
    pub open spec fn says(self, message: Seq<char>) -> bool {
        self.code == 1 && self.message@ == message
    }

    /// The host's own failure `message`.
    pub fn host(message: &str) -> (e: Error)
        ensures
            e.says(message@),
    {
        Error { code: 1, message: String::from_str(message) }
    }

    pub open spec fn spec_text(self) -> Seq<char> {
        if self.message@.len() == 0 {
            "ds4 bridge error "@ + text::signed_decimal(self.code as int)
        } else {
            "ds4 bridge error "@ + text::signed_decimal(self.code as int) + ": "@ + self.message@
        }
    }

    /// The failure as one line.
    pub fn to_text(&self) -> (r: String)
        ensures
            r@ == self.spec_text(),
    {
        let mut r = String::from_str("ds4 bridge error ");
        push_i64(&mut r, self.code as i64);
        if !self.message.as_str().is_empty() {
            r.append(": ");
            r.append(self.message.as_str());
        }
        r
    }
}

/// The bytes in front of the first NUL.
pub open spec fn c_prefix(buf: Seq<u8>) -> Seq<u8>
    decreases buf.len(),
{
    if buf.len() == 0 || buf[0] == 0 {
        seq![]
    } else {
        seq![buf[0]] + c_prefix(buf.skip(1))
    }
}

/// The text in a buffer that the engine filled: up to its first NUL.
pub fn c_err(buf: &[u8]) -> (r: String)
    ensures
        r@ == text::utf8_lossy(c_prefix(buf@)),
{
    let mut end: usize = 0;
    assert(buf@.take(0) + c_prefix(buf@.skip(0)) =~= c_prefix(buf@)) by {
        assert(buf@.skip(0) =~= buf@);
    }
    while end < buf.len() && buf[end] != 0
        invariant
            end <= buf@.len(),
            c_prefix(buf@) == buf@.take(end as int) + c_prefix(buf@.skip(end as int)),
        decreases buf@.len() - end,
    {
        proof {
            let rest = buf@.skip(end as int);
            assert(rest.skip(1) =~= buf@.skip(end + 1));
            assert(buf@.take(end as int) + (seq![rest[0]] + c_prefix(rest.skip(1)))
                =~= buf@.take(end + 1) + c_prefix(buf@.skip(end + 1)));
        }
        end += 1;
    }
    proof {
        assert(c_prefix(buf@.skip(end as int)) =~= seq![]);
        assert(buf@.take(end as int) + seq![] =~= buf@.take(end as int));
        assert(buf@.take(end as int) =~= buf@.subrange(0, end as int));
    }
    lossy(slice_subrange(buf, 0, end))
}

/// The failure that the engine reports with `code` and the text in `buf`.
pub fn fail(code: i32, buf: &[u8]) -> (e: Error)
    ensures
        e.code == code,
        e.message@ == text::utf8_lossy(c_prefix(buf@)),
{
    Error { code, message: c_err(buf) }
}

/// The engine was asked by `call` for something new: it answered with the code
/// `rc` and the text in `err`, and `null` where it handed nothing over.
pub fn check_created(call: &str, rc: i32, err: &[u8], null: bool) -> (r: Result<(), Error>)
    ensures
        if rc != 0 {
            r matches Err(e) && e.code == rc && e.message@ == text::utf8_lossy(c_prefix(err@))
        } else if null {
            r matches Err(e) && e.says(call@ + " returned NULL"@)
        } else {
            r is Ok
        },
{
    if rc != 0 {
        return Err(fail(rc, err));
    }
    if null {
        let mut message = String::from_str(call);
        message.append(" returned NULL");
        return Err(Error { code: 1, message });
    }
    Ok(())
}

/// `s` holds a NUL byte, so that it cannot be handed to the engine.
pub open spec fn has_nul(s: Seq<u8>) -> bool {
    s.contains(0u8)
}

fn contains_nul(s: &[u8]) -> (r: bool)
    ensures
        r == has_nul(s@),
{
    let mut i: usize = 0;
    while i < s.len()
        invariant
            i <= s@.len(),
            forall|k: int| 0 <= k < i ==> s@[k] != 0,
        decreases s@.len() - i,
    {
        if s[i] == 0 {
            assert(s@[i as int] == 0);
            return true;
        }
        i += 1;
    }
    false
}

/// `bytes` as the engine takes it, or the failure `message` where it holds a
/// NUL.
pub(crate) fn c_bytes(bytes: &[u8], message: &str) -> (r: Result<Vec<u8>, Error>)
    ensures
        match r {
            Ok(v) => !has_nul(bytes@) && v@ == bytes@,
            Err(e) => has_nul(bytes@) && e.says(message@),
        },
{
    if contains_nul(bytes) {
        return Err(Error::host(message));
    }
    Ok(slice_to_vec(bytes))
}

/// The path of a model, as the engine takes it.
pub fn cstring_path(path: &str) -> (r: Result<Vec<u8>, Error>)
    ensures
        match r {
            Ok(v) => !has_nul(encode_utf8(path@)) && v@ == encode_utf8(path@),
            Err(e) => has_nul(encode_utf8(path@)) && e.says("model path contains NUL"@),
        },
{
    c_bytes(path.as_bytes(), "model path contains NUL")
}

/// The path of a payload, as the engine takes it. A path need not be UTF-8.
pub fn cstring_payload_path(path: &[u8]) -> (r: Result<Vec<u8>, Error>)
    ensures
        match r {
            Ok(v) => !has_nul(path@) && v@ == path@,
            Err(e) => has_nul(path@) && e.says("payload path contains NUL"@),
        },
{
    c_bytes(path, "payload path contains NUL")
}

/// One file of a model.
#[derive(Debug)]
pub struct Shard {
    pub path: String,
    pub size: u64,
    pub base: u64,
}

/// The tensors of a model's files.
#[derive(Debug)]
pub struct TensorInventory {
    pub tensors: Vec<TensorInfo>,
    pub shards: Vec<Shard>,
    pub data_pos: u64,
    pub alignment: u64,
    pub page: u64,
}

/// A name of the bind map, with what was found for it.
#[derive(Debug)]
pub struct BindLook {
    pub name: Vec<u8>,
    pub required: u32,
    pub found: u32,
    pub index: u32,
}

pub open spec fn flag(b: bool) -> u32 {
    if b {
        1
    } else {
        0
    }
}

fn flag_of(b: bool) -> (r: u32)
    ensures
        r == flag(b),
{
    if b {
        1
    } else {
        0
    }
}

/// `look` says what `slot` says; a slot without an index gets the largest.
pub open spec fn looks_like(look: BindLook, slot: BindSlot) -> bool {
    &&& look.name@ == encode_utf8(slot.name@)
    &&& look.required == flag(slot.required)
    &&& look.found == flag(slot.tensor is Some)
    &&& look.index == match slot.index {
        Some(i) => i,
        None => u32::MAX,
    }
}

/// Some slot's name holds a NUL.
pub open spec fn slot_name_nul(slots: Seq<BindSlot>) -> bool {
    exists|i: int| 0 <= i < slots.len() && has_nul(encode_utf8((#[trigger] slots[i]).name@))
}

/// The bind map of `plan`, one entry per slot.
pub fn pack_host_bind_map(plan: &BindPlan) -> (r: Result<Vec<BindLook>, Error>)
    ensures
        match r {
            Ok(v) => {
                &&& !slot_name_nul(plan.slots@)
                &&& v@.len() == plan.slots@.len()
                &&& forall|i: int|
                    0 <= i < v@.len() ==> looks_like(#[trigger] v@[i], plan.slots@[i])
            },
            Err(e) => slot_name_nul(plan.slots@) && e.says("bind slot name contains NUL"@),
        },
{
    let mut out: Vec<BindLook> = Vec::new();
    let mut i: usize = 0;
    while i < plan.slots.len()
        invariant
            i <= plan.slots@.len(),
            out@.len() == i,
            forall|k: int| 0 <= k < i ==> looks_like(#[trigger] out@[k], plan.slots@[k]),
            forall|k: int|
                0 <= k < i ==> !has_nul(encode_utf8((#[trigger] plan.slots@[k]).name@)),
        decreases plan.slots@.len() - i,
    {
        let slot = &plan.slots[i];
        let name = match c_bytes(slot.name.as_str().as_bytes(), "bind slot name contains NUL") {
            Ok(n) => n,
            Err(e) => {
                assert(has_nul(encode_utf8(plan.slots@[i as int].name@)));
                return Err(e);
            },
        };
        out.push(
            BindLook {
                name,
                required: flag_of(slot.required),
                found: flag_of(slot.tensor.is_some()),
                index: match slot.index {
                    Some(k) => k,
                    None => u32::MAX,
                },
            },
        );
        i += 1;
    }
    Ok(out)
}

/// A slot of the bind plan, as the engine takes it.
#[derive(Debug)]
pub struct PlanSlot {
    pub name: Vec<u8>,
    pub required: u32,
    pub ndim: u32,
    pub dim: [u64; 8],
    pub typ: u32,
    pub rel_offset: u64,
    pub abs_offset: u64,
    pub bytes: u64,
    pub shard: u32,
    pub found: u32,
}

/// `row` says what `slot` says; a slot without a tensor has zeros.
pub open spec fn plans(row: PlanSlot, slot: BindSlot) -> bool {
    &&& row.name@ == encode_utf8(slot.name@)
    &&& row.required == flag(slot.required)
    &&& row.found == flag(slot.tensor is Some)
    &&& match slot.tensor {
        Some(t) => {
            &&& row.ndim == t.ndim
            &&& row.dim@ == t.dim@
            &&& row.typ == t.typ
            &&& row.rel_offset == t.rel_offset
            &&& row.abs_offset == t.abs_offset
            &&& row.bytes == t.bytes
            &&& row.shard == t.shard
        },
        None => {
            &&& row.ndim == 0
            &&& row.typ == 0
            &&& row.rel_offset == 0
            &&& row.abs_offset == 0
            &&& row.bytes == 0
            &&& row.shard == 0
            &&& forall|k: int| 0 <= k < 8 ==> row.dim@[k] == 0
        },
    }
}

/// A file of the bind plan, as the engine takes it.
#[derive(Debug)]
pub struct PlanShard {
    pub path: Vec<u8>,
    pub size: u64,
    pub base: u64,
}

/// The bind plan, as the engine takes it.
#[derive(Debug)]
pub struct PackedPlan {
    pub slots: Vec<PlanSlot>,
    pub shards: Vec<PlanShard>,
    pub data_pos: u64,
    pub alignment: u64,
    pub page: u64,
}

/// Some file's path holds a NUL.
pub open spec fn shard_path_nul(shards: Seq<Shard>) -> bool {
    exists|i: int| 0 <= i < shards.len() && has_nul(encode_utf8((#[trigger] shards[i]).path@))
}

fn plan_slot(slot: &BindSlot) -> (r: Result<PlanSlot, Error>)
    ensures
        match r {
            Ok(row) => !has_nul(encode_utf8(slot.name@)) && plans(row, *slot),
            Err(e) => has_nul(encode_utf8(slot.name@)) && e.says("bind slot name contains NUL"@),
        },
{
    let name = match c_bytes(slot.name.as_str().as_bytes(), "bind slot name contains NUL") {
        Ok(n) => n,
        Err(e) => {
            return Err(e);
        },
    };
    let required: u32 = flag_of(slot.required);
    Ok(
        match &slot.tensor {
            Some(t) => PlanSlot {
                name,
                required,
                ndim: t.ndim,
                dim: t.dim,
                typ: t.typ,
                rel_offset: t.rel_offset,
                abs_offset: t.abs_offset,
                bytes: t.bytes,
                shard: t.shard,
                found: 1,
            },
            None => PlanSlot {
                name,
                required,
                ndim: 0,
                dim: [0, 0, 0, 0, 0, 0, 0, 0],
                typ: 0,
                rel_offset: 0,
                abs_offset: 0,
                bytes: 0,
                shard: 0,
                found: 0,
            },
        },
    )
}

fn plan_shards(shards: &Vec<Shard>) -> (r: Result<Vec<PlanShard>, Error>)
    ensures
        match r {
            Ok(v) => {
                &&& !shard_path_nul(shards@)
                &&& v@.len() == shards@.len()
                &&& forall|i: int|
                    0 <= i < v@.len() ==> (#[trigger] v@[i]).path@ == encode_utf8(shards@[i].path@)
                        && v@[i].size == shards@[i].size && v@[i].base == shards@[i].base
            },
            Err(e) => shard_path_nul(shards@) && e.says("shard path contains NUL"@),
        },
{
    let mut out: Vec<PlanShard> = Vec::new();
    let mut i: usize = 0;
    while i < shards.len()
        invariant
            i <= shards@.len(),
            out@.len() == i,
            forall|k: int|
                0 <= k < i ==> (#[trigger] out@[k]).path@ == encode_utf8(shards@[k].path@)
                    && out@[k].size == shards@[k].size && out@[k].base == shards@[k].base,
            forall|k: int| 0 <= k < i ==> !has_nul(encode_utf8((#[trigger] shards@[k]).path@)),
        decreases shards@.len() - i,
    {
        let path = match c_bytes(shards[i].path.as_str().as_bytes(), "shard path contains NUL") {
            Ok(p) => p,
            Err(e) => {
                assert(has_nul(encode_utf8(shards@[i as int].path@)));
                return Err(e);
            },
        };
        out.push(PlanShard { path, size: shards[i].size, base: shards[i].base });
        i += 1;
    }
    Ok(out)
}

/// The plan of `plan` over the files of `inventory`: the names are looked at
/// before the paths.
pub fn pack_bind_plan(plan: &BindPlan, inventory: &TensorInventory) -> (r: Result<
    PackedPlan,
    Error,
>)
    ensures
        match r {
            Ok(p) => {
                &&& !slot_name_nul(plan.slots@)
                &&& !shard_path_nul(inventory.shards@)
                &&& p.slots@.len() == plan.slots@.len()
                &&& forall|i: int|
                    0 <= i < p.slots@.len() ==> plans(#[trigger] p.slots@[i], plan.slots@[i])
                &&& p.shards@.len() == inventory.shards@.len()
                &&& forall|i: int|
                    0 <= i < p.shards@.len() ==> (#[trigger] p.shards@[i]).path@ == encode_utf8(
                        inventory.shards@[i].path@,
                    ) && p.shards@[i].size == inventory.shards@[i].size && p.shards@[i].base
                        == inventory.shards@[i].base
                &&& p.data_pos == inventory.data_pos
                &&& p.alignment == inventory.alignment
                &&& p.page == inventory.page
            },
            Err(e) => if slot_name_nul(plan.slots@) {
                e.says("bind slot name contains NUL"@)
            } else {
                shard_path_nul(inventory.shards@) && e.says("shard path contains NUL"@)
            },
        },
{
    let mut slots: Vec<PlanSlot> = Vec::new();
    let mut i: usize = 0;
    while i < plan.slots.len()
        invariant
            i <= plan.slots@.len(),
            slots@.len() == i,
            forall|k: int| 0 <= k < i ==> plans(#[trigger] slots@[k], plan.slots@[k]),
            forall|k: int|
                0 <= k < i ==> !has_nul(encode_utf8((#[trigger] plan.slots@[k]).name@)),
        decreases plan.slots@.len() - i,
    {
        match plan_slot(&plan.slots[i]) {
            Ok(row) => slots.push(row),
            Err(e) => {
                assert(has_nul(encode_utf8(plan.slots@[i as int].name@)));
                return Err(e);
            },
        }
        i += 1;
    }
    match plan_shards(&inventory.shards) {
        Ok(shards) => Ok(
            PackedPlan {
                slots,
                shards,
                data_pos: inventory.data_pos,
                alignment: inventory.alignment,
                page: inventory.page,
            },
        ),
        Err(e) => Err(e),
    }
}

/// A tensor of the directory, as the engine takes it.
#[derive(Debug)]
pub struct DirRow {
    pub name: Vec<u8>,
    pub ndim: u32,
    pub dim: [u64; 8],
    pub typ: u32,
    pub rel_offset: u64,
    pub abs_offset: u64,
    pub bytes: u64,
}

pub open spec fn lists(row: DirRow, t: TensorInfo) -> bool {
    &&& row.name@ == encode_utf8(t.name@)
    &&& row.ndim == t.ndim
    &&& row.dim@ == t.dim@
    &&& row.typ == t.typ
    &&& row.rel_offset == t.rel_offset
    &&& row.abs_offset == t.abs_offset
    &&& row.bytes == t.bytes
}

/// Some tensor's name holds a NUL.
pub open spec fn tensor_name_nul(tensors: Seq<TensorInfo>) -> bool {
    exists|i: int| 0 <= i < tensors.len() && has_nul(encode_utf8((#[trigger] tensors[i]).name@))
}

/// The tensor directory of `inventory`.
pub fn pack_tensor_dir(inventory: &TensorInventory) -> (r: Result<Vec<DirRow>, Error>)
    ensures
        match r {
            Ok(v) => {
                &&& !tensor_name_nul(inventory.tensors@)
                &&& v@.len() == inventory.tensors@.len()
                &&& forall|i: int|
                    0 <= i < v@.len() ==> lists(#[trigger] v@[i], inventory.tensors@[i])
            },
            Err(e) => tensor_name_nul(inventory.tensors@) && e.says("tensor name contains NUL"@),
        },
{
    let mut out: Vec<DirRow> = Vec::new();
    let mut i: usize = 0;
    while i < inventory.tensors.len()
        invariant
            i <= inventory.tensors@.len(),
            out@.len() == i,
            forall|k: int| 0 <= k < i ==> lists(#[trigger] out@[k], inventory.tensors@[k]),
            forall|k: int|
                0 <= k < i ==> !has_nul(encode_utf8((#[trigger] inventory.tensors@[k]).name@)),
        decreases inventory.tensors@.len() - i,
    {
        let t = &inventory.tensors[i];
        let name = match c_bytes(t.name.as_str().as_bytes(), "tensor name contains NUL") {
            Ok(n) => n,
            Err(e) => {
                assert(has_nul(encode_utf8(inventory.tensors@[i as int].name@)));
                return Err(e);
            },
        };
        out.push(
            DirRow {
                name,
                ndim: t.ndim,
                dim: t.dim,
                typ: t.typ,
                rel_offset: t.rel_offset,
                abs_offset: t.abs_offset,
                bytes: t.bytes,
            },
        );
        i += 1;
    }
    Ok(out)
}

} // verus!
