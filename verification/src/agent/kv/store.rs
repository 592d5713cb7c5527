//! What a saved session holds.

use crate::agent::kv::catalog;
use crate::agent::kv::catalog::{session_title, KvError};
use crate::agent::kv::identity;
use crate::agent::kv::identity::encode_title_trailer;
use crate::text::str_eq;
use vstd::prelude::*;
use vstd::slice::*;
use vstd::string::*;
use vstd::utf8::*;

verus! {

/// Why a session was saved.
#[derive(Clone, Copy, Debug, PartialEq, Eq, Structural)]
pub enum Reason {
    AgentSession,
    Other,
}

/// What is known of a saved session beside its text and its state.
#[derive(Clone, Copy, Debug, PartialEq, Eq, Structural)]
pub struct Header {
    pub quant_bits: u8,
    pub reason: Reason,
    /// A title follows behind the state.
    pub titled: bool,
    pub model_id: u8,
    pub tokens: u32,
    pub hits: u32,
    pub ctx_size: u32,
    pub created_at: u64,
    pub last_used: u64,
    pub payload_bytes: u64,
    pub text_bytes: u32,
}

/// A saved session.
#[derive(Debug)]
pub struct Record {
    pub header: Header,
    pub text: Vec<u8>,
    /// The state of the model.
    pub payload: Vec<u8>,
    pub trailer: Vec<u8>,
}

/// What is to be saved.
#[derive(Clone, Copy, Debug)]
pub struct SaveSpec<'a> {
    pub title: &'a str,
    pub created_at: u64,
    pub last_used: u64,
    pub text: &'a [u8],
    pub payload: &'a [u8],
    pub tokens: u32,
    pub model_id: u8,
    pub quant_bits: u8,
    pub ctx_size: u32,
}

/// `record` is the session that `spec` saves.
pub open spec fn records(record: Record, spec: SaveSpec) -> bool {
    &&& record.header == (Header {
        quant_bits: spec.quant_bits,
        reason: Reason::AgentSession,
        titled: true,
        model_id: spec.model_id,
        tokens: spec.tokens,
        hits: 0,
        ctx_size: spec.ctx_size,
        created_at: spec.created_at,
        last_used: spec.last_used,
        payload_bytes: spec.payload@.len() as u64,
        text_bytes: (spec.text@.len() % 0x1_0000_0000) as u32,
    })
    &&& record.text@ == spec.text@
    &&& record.payload@ == spec.payload@
    &&& record.trailer@ == identity::title_trailer(spec.title@)
}

/// The session that is saved.
pub fn session_record(spec: &SaveSpec) -> (r: Result<Record, KvError>)
    ensures
        match r {
            Err(e) => {
                &&& spec.quant_bits != 2 && spec.quant_bits != 4
                &&& e matches KvError::Io(m)
                &&& m@ == "unsupported routed quantization for KV save"@
            },
            Ok(record) => {
                &&& spec.quant_bits == 2 || spec.quant_bits == 4
                &&& records(record, *spec)
            },
        },
{
    if spec.quant_bits != 2 && spec.quant_bits != 4 {
        return Err(KvError::Io(String::from_str("unsupported routed quantization for KV save")));
    }
    Ok(
        Record {
            header: Header {
                quant_bits: spec.quant_bits,
                reason: Reason::AgentSession,
                titled: true,
                model_id: spec.model_id,
                tokens: spec.tokens,
                hits: 0,
                ctx_size: spec.ctx_size,
                created_at: spec.created_at,
                last_used: spec.last_used,
                payload_bytes: spec.payload.len() as u64,
                text_bytes: (spec.text.len() as u64 % 0x1_0000_0000) as u32,
            },
            text: slice_to_vec(spec.text),
            payload: slice_to_vec(spec.payload),
            trailer: encode_title_trailer(spec.title),
        },
    )
}

/// The bytes whose hash the name of the session's file must be.
pub open spec fn record_identity(record: Record) -> Seq<u8> {
    identity::identifying_bytes(
        record.header.titled,
        identity::trailer_title(record.trailer@),
        record.header.created_at,
        record.text@,
    )
}

/// The bytes whose hash the name of the session's file must be.
pub fn identity_of(record: &Record) -> (r: Vec<u8>)
    ensures
        r@ == record_identity(*record),
{
    let title = identity::decode_title_trailer(record.trailer.as_slice());
    identity::file_identity_bytes(
        record.header.titled,
        match &title {
            Some(t) => Some(t.as_str()),
            None => None,
        },
        record.header.created_at,
        record.text.as_slice(),
    )
}

/// `b` is `a` without its state: it now has `tokens` tokens and was used at
/// `now`.
pub open spec fn is_stripped(a: Record, b: Record, tokens: u32, now: u64) -> bool {
    &&& b.header == (Header { payload_bytes: 0, tokens, last_used: now, ..a.header })
    &&& b.text@ == a.text@
    &&& b.payload@.len() == 0
    &&& b.trailer@ == a.trailer@
}

/// The session without its state. `sha` names its file, `actual` is the hash
/// that identifies it.
pub fn strip(record: Record, sha: &str, actual: &str, tokens: u32, now: u64) -> (r: Result<
    Record,
    KvError,
>)
    ensures
        match r {
            Ok(stripped) => sha@ == actual@ && is_stripped(record, stripped, tokens, now),
            Err(e) => sha@ != actual@ && e is IdentityMismatch,
        },
{
    if !str_eq(actual, sha) {
        return Err(KvError::IdentityMismatch);
    }
    let mut header = record.header;
    header.payload_bytes = 0;
    header.tokens = tokens;
    header.last_used = now;
    Ok(Record { header, text: record.text, payload: Vec::new(), trailer: record.trailer })
}

/// How a session is resumed.
#[derive(Debug)]
pub struct SwitchPlan {
    pub sha: String,
    /// Its state is gone, and is built again from its text.
    pub needs_prefill: bool,
    pub title: String,
    pub created_at: u64,
    pub text: Vec<u8>,
    pub payload_offset: u64,
    pub payload_bytes: u64,
    pub tokens: u32,
}

/// `plan` resumes `record`, whose state lies behind a head of `fixed_header`
/// bytes, the length of the text and the text.
pub open spec fn resumes(record: Record, sha: Seq<char>, fixed_header: u64, plan: SwitchPlan) -> bool {
    &&& plan.sha@ == sha
    &&& plan.needs_prefill == (record.header.payload_bytes == 0)
    &&& plan.title@ == catalog::title_of(record)
    &&& plan.created_at == record.header.created_at
    &&& plan.text@ == record.text@
    &&& plan.payload_offset == fixed_header + 4 + record.text@.len()
    &&& plan.payload_bytes == record.header.payload_bytes
    &&& plan.tokens == record.header.tokens
}

/// How a session is resumed. `sha` names its file, `actual` is the hash that
/// identifies it.
pub fn switch_plan(record: Record, sha: &str, actual: &str, fixed_header: u64) -> (r: Result<
    SwitchPlan,
    KvError,
>)
    requires
        fixed_header + 4 + record.text@.len() <= u64::MAX,
    ensures
        match r {
            Ok(plan) => sha@ == actual@ && resumes(record, sha@, fixed_header, plan),
            Err(e) => sha@ != actual@ && e is IdentityMismatch,
        },
{
    if !str_eq(actual, sha) {
        return Err(KvError::IdentityMismatch);
    }
    let title = session_title(&record);
    Ok(
        SwitchPlan {
            sha: String::from_str(sha),
            needs_prefill: record.header.payload_bytes == 0,
            title,
            created_at: record.header.created_at,
            payload_offset: fixed_header + 4 + record.text.len() as u64,
            payload_bytes: record.header.payload_bytes,
            tokens: record.header.tokens,
            text: record.text,
        },
    )
}

/// A saved session is resumed as it was saved: the same title, time, text and
/// tokens, its state where it had one. What identifies it is what it was saved
/// under.
pub proof fn law_saved_session_is_resumed(
    spec: SaveSpec,
    record: Record,
    sha: Seq<char>,
    fixed_header: u64,
    plan: SwitchPlan,
)
    requires
        records(record, spec),
        resumes(record, sha, fixed_header, plan),
        encode_utf8(spec.title@).len() < 0x1_0000_0000,
        spec.payload@.len() <= u64::MAX,
    ensures
        record_identity(record) == identity::title_identity(spec.title@, spec.created_at),
        plan.title@ == spec.title@,
        plan.created_at == spec.created_at,
        plan.text@ == spec.text@,
        plan.tokens == spec.tokens,
        plan.payload_bytes == spec.payload@.len(),
        plan.needs_prefill == (spec.payload@.len() == 0),
{
    identity::law_title_round_trip(spec.title@);
}

/// A stripped session is still the same session: it has the same identity,
/// title and text. Resuming it builds its state again, with the tokens that
/// stripping counted.
pub proof fn law_stripped_session_is_rebuilt(
    a: Record,
    b: Record,
    tokens: u32,
    now: u64,
    sha: Seq<char>,
    fixed_header: u64,
    plan: SwitchPlan,
)
    requires
        is_stripped(a, b, tokens, now),
        resumes(b, sha, fixed_header, plan),
    ensures
        record_identity(b) == record_identity(a),
        catalog::title_of(b) == catalog::title_of(a),
        plan.needs_prefill,
        plan.payload_bytes == 0,
        plan.tokens == tokens,
        plan.text@ == a.text@,
{
}

} // verus!
