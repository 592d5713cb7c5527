//! What a worker of a distributed run announces and checks.

use vstd::prelude::*;
use vstd::string::*;
use vstd::utf8::*;

verus! {

/// The slice of a model that a worker serves.
#[derive(Clone, Copy, Debug, PartialEq, Eq, Structural)]
pub struct SliceMeta {
    pub model_id: u32,
    pub n_layers: u32,
    pub ctx_size: u32,
    pub layer_start: u32,
    pub layer_end: u32,
    pub has_output: bool,
}

/// What a worker announces to its coordinator.
#[derive(Clone, Copy, Debug, PartialEq, Eq, Structural)]
pub struct Hello {
    pub model_id: u32,
    pub quant_bits: u32,
    pub layer_start: u32,
    pub layer_end: u32,
    pub has_output: u32,
    pub has_hidden: u32,
    pub ctx_size: u32,
    pub n_layers: u32,
    pub listen_port: u32,
    pub model_name_len: u32,
}

/// The name of a model that has none.
pub const UNKNOWN_MODEL_NAME: &'static str = "unknown";

/// The name that stands for `name`.
pub open spec fn announced_name(name: Seq<char>) -> Seq<char> {
    if name.len() == 0 {
        UNKNOWN_MODEL_NAME@
    } else {
        name
    }
}

/// The name of a model, or what stands for an empty one.
pub fn worker_model_name(name: &str) -> (r: &str)
    ensures
        r@ == announced_name(name@),
{
    if name.unicode_len() == 0 {
        UNKNOWN_MODEL_NAME
    } else {
        name
    }
}

/// The announcement for a model called `name`, of which at most `max_name`
/// bytes are sent.
pub open spec fn hello(
    meta: SliceMeta,
    quant_bits: u32,
    listen_port: u32,
    name: Seq<char>,
    max_name: u32,
) -> Hello {
    let len = encode_utf8(announced_name(name)).len();
    Hello {
        model_id: meta.model_id,
        quant_bits,
        layer_start: meta.layer_start,
        layer_end: meta.layer_end,
        has_output: if meta.has_output {
            1
        } else {
            0
        },
        has_hidden: 1,
        ctx_size: meta.ctx_size,
        n_layers: meta.n_layers,
        listen_port,
        model_name_len: if len < max_name {
            len as u32
        } else {
            max_name
        },
    }
}

/// The announcement of a worker that listens on `listen_port`.
pub fn worker_hello(
    meta: &SliceMeta,
    quant_bits: u32,
    listen_port: u32,
    model_name: &str,
    max_name: u32,
) -> (r: Hello)
    ensures
        r == hello(*meta, quant_bits, listen_port, model_name@, max_name),
{
    let name = worker_model_name(model_name);
    let len: usize = name.as_bytes().len();
    let name_len: u32 = if (len as u64) < max_name as u64 {
        len as u32
    } else {
        max_name
    };
    Hello {
        model_id: meta.model_id,
        quant_bits,
        layer_start: meta.layer_start,
        layer_end: meta.layer_end,
        has_output: if meta.has_output {
            1
        } else {
            0
        },
        has_hidden: 1,
        ctx_size: meta.ctx_size,
        n_layers: meta.n_layers,
        listen_port,
        model_name_len: name_len,
    }
}

/// An announcement and the name that goes with it.
#[derive(Debug)]
pub struct WorkerPlan {
    pub hello: Hello,
    pub model_name: String,
}

/// The announcement of a worker, with the name that goes with it.
pub fn worker_plan(
    meta: &SliceMeta,
    quant_bits: u32,
    listen_port: u32,
    model_name: &str,
    max_name: u32,
) -> (r: WorkerPlan)
    ensures
        r.model_name@ == announced_name(model_name@),
        r.hello == hello(*meta, quant_bits, listen_port, model_name@, max_name),
{
    proof {
        law_announced_name_is_not_empty(model_name@);
    }
    let name = String::from_str(worker_model_name(model_name));
    let hello = worker_hello(meta, quant_bits, listen_port, name.as_str(), max_name);
    WorkerPlan { hello, model_name: name }
}

/// A worker never announces an empty name, and announcing a name twice
/// changes nothing.
pub proof fn law_announced_name_is_not_empty(name: Seq<char>)
    ensures
        announced_name(name).len() > 0,
        announced_name(announced_name(name)) == announced_name(name),
{
    reveal_strlit("unknown");
}

/// A request to save the state of a session.
#[derive(Clone, Copy, Debug, PartialEq, Eq, Structural)]
pub struct SnapshotSave {
    pub session_id: u64,
    pub token_count: u32,
    pub token_hash: u64,
}

/// Whether a worker whose session holds `live_len` tokens, with the hash
/// `live_hash`, can answer the request. The count is compared as 32 bits.
pub fn check_save_tokens(live_len: usize, live_hash: u64, req: &SnapshotSave) -> (r: Result<
    (),
    String,
>)
    ensures
        match r {
            Ok(_) => live_len as int % 0x1_0000_0000 == req.token_count && live_hash == req.token_hash,
            Err(e) => if live_len as int % 0x1_0000_0000 != req.token_count {
                e@ == "worker snapshot token count mismatch"@
            } else {
                live_hash != req.token_hash && e@ == "worker snapshot token hash mismatch"@
            },
        },
{
    if live_len as u64 % 0x1_0000_0000 != req.token_count as u64 {
        return Err(String::from_str("worker snapshot token count mismatch"));
    }
    if live_hash != req.token_hash {
        return Err(String::from_str("worker snapshot token hash mismatch"));
    }
    Ok(())
}

/// The steps of saving and loading a worker's state.
#[derive(Clone, Copy, Debug, PartialEq, Eq, Structural)]
pub enum SnapshotStep {
    CreateSave,
    SavePayload,
    Rewind,
    Measure,
    Load,
}

/// What is answered where a step fails.
pub fn snapshot_failure(step: SnapshotStep) -> (r: &'static str)
    ensures
        r@ == match step {
            SnapshotStep::CreateSave => "failed to create worker snapshot temp file"@,
            SnapshotStep::SavePayload => "failed to save worker KV shard"@,
            SnapshotStep::Rewind => "failed to rewind worker KV shard"@,
            SnapshotStep::Measure => "failed to measure worker KV shard"@,
            SnapshotStep::Load => "failed to restore worker KV shard"@,
        },
{
    match step {
        SnapshotStep::CreateSave => "failed to create worker snapshot temp file",
        SnapshotStep::SavePayload => "failed to save worker KV shard",
        SnapshotStep::Rewind => "failed to rewind worker KV shard",
        SnapshotStep::Measure => "failed to measure worker KV shard",
        SnapshotStep::Load => "failed to restore worker KV shard",
    }
}

} // verus!
