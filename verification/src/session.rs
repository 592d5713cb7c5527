//! A session over an open model: token buffers, and the decisions that stand
//! around the engine's calls.

use crate::model;
use crate::model::{c_bytes, Backend, Error};
use crate::shape::ModelFamily;
use vstd::prelude::*;
use vstd::slice::{slice_subrange, slice_to_vec};
use vstd::string::*;
use vstd::utf8::*;

verus! {

/// A list of tokens.
#[derive(Debug)]
pub struct TokenBuffer {
    tokens: Vec<i32>,
}

impl View for TokenBuffer {
    type V = Seq<i32>;

    closed spec fn view(&self) -> Seq<i32> {
        self.tokens@
    }
}

impl TokenBuffer {
    /// The empty list.
    pub fn new() -> (r: TokenBuffer)
        ensures
            r@ == Seq::<i32>::empty(),
    {
        TokenBuffer { tokens: Vec::new() }
    }

    /// The list `tokens`.
    pub fn from_tokens(tokens: Vec<i32>) -> (r: TokenBuffer)
        ensures
            r@ == tokens@,
    {
        TokenBuffer { tokens }
    }

    /// The tokens, in order.
    pub fn as_slice(&self) -> (r: &[i32])
        ensures
            r@ == self@,
    {
        self.tokens.as_slice()
    }

    /// Appends `token`.
    pub fn push(&mut self, token: i32)
        ensures
            final(self)@ == old(self)@.push(token),
    {
        self.tokens.push(token);
    }

    /// The number of tokens.
    pub fn len(&self) -> (r: usize)
        ensures
            r == self@.len(),
    {
        self.tokens.len()
    }

    /// Whether there is no token.
    pub fn is_empty(&self) -> (r: bool)
        ensures
            r == (self@.len() == 0),
    {
        self.tokens.len() == 0
    }
}

impl Default for TokenBuffer {
    fn default() -> (r: TokenBuffer)
        ensures
            r@ == Seq::<i32>::empty(),
    {
        TokenBuffer::new()
    }
}

/// What evaluating a token gives.
#[derive(Clone, Copy, Debug, PartialEq, Eq, Structural)]
pub struct EvalResult {
    pub pos: i32,
}

/// What the session ledger plans for a sync.
#[derive(Clone, Copy, Debug, PartialEq, Eq, Structural)]
pub struct SyncPlan {
    /// The prompt does not fit the context.
    pub bounds: bool,
    /// The prompt may not be prefilled whole.
    pub fence: bool,
}

/// Why a sync of `len` tokens under `plan` is refused.
pub open spec fn sync_refusal(len: int, plan: SyncPlan) -> Option<Seq<char>> {
    if len > i32::MAX {
        Some("token buffer exceeds i32 length"@)
    } else if plan.bounds {
        Some("prompt exceeds context"@)
    } else if plan.fence {
        Some("whole-prompt prefill fenced"@)
    } else {
        None
    }
}

/// Whether a sync of `len` tokens under `plan` may go to the engine.
pub fn check_sync(len: usize, plan: &SyncPlan) -> (r: Result<(), Error>)
    ensures
        match (r, sync_refusal(len as int, *plan)) {
            (Ok(_), None) => true,
            (Err(e), Some(m)) => e.says(m),
            _ => false,
        },
{
    if len > i32::MAX as usize {
        return Err(Error::host("token buffer exceeds i32 length"));
    }
    if plan.bounds {
        return Err(Error::host("prompt exceeds context"));
    }
    if plan.fence {
        return Err(Error::host("whole-prompt prefill fenced"));
    }
    Ok(())
}

/// Where a session ledger keeps its state.
#[derive(Clone, Copy, Debug, PartialEq, Eq, Structural)]
pub enum SessionBackend {
    Cpu,
    Cuda,
}

/// The ledger's backend for the engine's `backend`.
pub fn host_backend(backend: Backend) -> (r: SessionBackend)
    ensures
        r == if backend == Backend::Cpu {
            SessionBackend::Cpu
        } else {
            SessionBackend::Cuda
        },
{
    match backend {
        Backend::Cpu => SessionBackend::Cpu,
        Backend::Cuda => SessionBackend::Cuda,
        Backend::Metal => SessionBackend::Cuda,
    }
}

/// The prefill capacity that the engine reported; a negative report is none.
pub fn prefill_cap(reported: i32) -> (r: u32)
    ensures
        r == if reported > 0 {
            reported as int
        } else {
            0
        },
{
    if reported > 0 {
        reported as u32
    } else {
        0
    }
}

/// What a snapshot must share with the session that loads it.
#[derive(Clone, Copy, Debug, PartialEq, Eq, Structural)]
pub struct SessionKind {
    pub family: ModelFamily,
    pub backend: SessionBackend,
    pub ctx: i32,
    pub prefill_cap: u32,
}

/// Whether the snapshot `saved` may be loaded into a session `live`.
pub fn check_snapshot(saved: Option<SessionKind>, live: &SessionKind) -> (r: Result<(), Error>)
    ensures
        match saved {
            None => r matches Err(e) && e.says("session snapshot is empty"@),
            Some(s) => if s == *live {
                r is Ok
            } else {
                r matches Err(e) && e.says(
                    "session snapshot belongs to an incompatible session"@,
                )
            },
        },
{
    match saved {
        None => Err(Error::host("session snapshot is empty")),
        Some(s) => if s == *live {
            Ok(())
        } else {
            Err(Error::host("session snapshot belongs to an incompatible session"))
        },
    }
}

/// What happens to the ledger after the engine loaded something.
#[derive(Clone, Copy, Debug, PartialEq, Eq, Structural)]
pub struct LedgerUpdate {
    /// The checkpoint is dropped.
    pub clear: bool,
    /// The generation that the ledger takes on.
    pub generation: u64,
}

/// The ledger after a snapshot load with code `rc`: a load that failed leaves
/// no checkpoint.
pub fn after_snapshot_load(rc: i32, generation: u64) -> (r: LedgerUpdate)
    ensures
        r.clear == (rc != 0),
        r.generation == generation,
{
    LedgerUpdate { clear: rc != 0, generation }
}

/// The ledger after a payload load with code `rc`, where the engine's
/// generation was `before` and is `after`: a load that failed leaves the
/// checkpoint alone unless the engine had begun to change.
pub fn after_payload_load(rc: i32, before: u64, after: u64) -> (r: LedgerUpdate)
    ensures
        r.clear == (rc != 0 && before != after),
        r.generation == after,
{
    LedgerUpdate { clear: rc != 0 && before != after, generation: after }
}

/// The tokens of the saved prefix are those of the ledger, bit for bit.
pub open spec fn tokens_agree(saved: Seq<u32>, live: Seq<i32>) -> bool {
    saved.len() == live.len() && forall|i: int| 0 <= i < saved.len() ==> saved[i] == live[i] as u32
}

/// Whether a payload may be saved, and whether what was saved is what the
/// ledger holds.
pub fn check_save_payload(valid: bool) -> (r: Result<(), Error>)
    ensures
        if valid {
            r is Ok
        } else {
            r matches Err(e) && e.says("session has no valid checkpoint to save"@)
        },
{
    if !valid {
        return Err(Error::host("session has no valid checkpoint to save"));
    }
    Ok(())
}

/// Whether the tokens read back from a payload are those of the ledger.
pub fn check_saved_prefix(saved: &[u32], live: &[i32]) -> (r: Result<(), Error>)
    ensures
        if tokens_agree(saved@, live@) {
            r is Ok
        } else {
            r matches Err(e) && e.says("host/native token mismatch"@)
        },
{
    if saved.len() != live.len() {
        return Err(Error::host("host/native token mismatch"));
    }
    let mut i: usize = 0;
    while i < saved.len()
        invariant
            saved@.len() == live@.len(),
            i <= saved@.len(),
            forall|k: int| 0 <= k < i ==> saved@[k] == live@[k] as u32,
        decreases saved@.len() - i,
    {
        if saved[i] != live[i] as u32 {
            assert(saved@[i as int] != live@[i as int] as u32);
            return Err(Error::host("host/native token mismatch"));
        }
        i += 1;
    }
    Ok(())
}

/// The most scores that are asked for.
pub const SCORE_CAP: usize = 128;

/// How many scores to ask the engine for: `k`, at most the cap.
pub fn score_count(k: usize) -> (r: usize)
    ensures
        r == if k <= SCORE_CAP {
            k
        } else {
            SCORE_CAP
        },
{
    if k <= SCORE_CAP {
        k
    } else {
        SCORE_CAP
    }
}

/// How many of `k` places the engine has filled when it reports `n`.
pub fn scores_kept(n: i32, k: usize) -> (r: usize)
    ensures
        r == if n <= 0 {
            0
        } else if n as int <= k as int {
            n as int
        } else {
            k as int
        },
{
    if n <= 0 {
        0
    } else if (n as u32) as usize <= k {
        (n as u32) as usize
    } else {
        k
    }
}

/// One entry of the head of a distribution. Fractions are held as the bits of
/// 32-bit floats.
#[derive(Clone, Copy, Debug, PartialEq, Eq, Structural)]
pub struct TokenScore {
    pub id: i32,
    pub logit_bits: u32,
    pub logprob_bits: u32,
}

/// How many entries come of asking for `k`, when the engine reports `n`.
pub open spec fn entries_kept(k: usize, n: i32) -> int {
    let asked: int = if k <= SCORE_CAP {
        k as int
    } else {
        SCORE_CAP as int
    };
    if n <= 0 {
        0
    } else if n <= asked {
        n as int
    } else {
        asked
    }
}

/// The head of the distribution, up to `k` entries. The engine was given
/// `score_count(k)` places, which `scores` holds, and reports that it has
/// filled `n` of them; it reports none when it keeps no scores.
pub fn top_logprobs(k: usize, n: i32, scores: &[TokenScore]) -> (r: Vec<TokenScore>)
    requires
        scores@.len() == if k <= SCORE_CAP {
            k
        } else {
            SCORE_CAP
        },
    ensures
        r@ == scores@.take(entries_kept(k, n)),
        r@.len() == entries_kept(k, n),
{
    slice_to_vec(slice_subrange(scores, 0, scores_kept(n, score_count(k))))
}

/// Asking for more entries never gives fewer of them, and never more than the
/// cap; there are at most as many as are asked for, so none where none are.
pub proof fn law_head_length(k: usize, more: usize, n: i32)
    requires
        k <= more,
    ensures
        0 <= entries_kept(k, n) <= entries_kept(more, n) <= SCORE_CAP,
        entries_kept(k, n) <= k,
        entries_kept(0, n) == 0,
        n <= 0 ==> entries_kept(more, n) == 0,
{
}

/// The most tokens that a prompt and a system text can encode to.
pub fn encode_capacity(prompt_len: usize, system_len: usize) -> (r: usize)
    requires
        prompt_len + system_len + 256 <= usize::MAX,
    ensures
        r == prompt_len + system_len + 256,
{
    prompt_len + system_len + 256
}

/// The texts of a chat prompt, as the engine takes them.
#[derive(Debug)]
pub struct ChatTexts {
    pub system: Option<Vec<u8>>,
    pub prompt: Vec<u8>,
    /// Room for all the tokens that they can encode to.
    pub capacity: usize,
}

/// The UTF-8 bytes of a text that may be absent.
pub open spec fn bytes_of(s: Option<&str>) -> Option<Seq<u8>> {
    match s {
        Some(t) => Some(encode_utf8(t@)),
        None => None,
    }
}

/// The number of bytes of a text that may be absent.
pub open spec fn bytes_len(s: Option<&str>) -> int {
    match bytes_of(s) {
        Some(b) => b.len() as int,
        None => 0,
    }
}

/// The texts `system` and `prompt` as the engine takes them: neither may hold
/// a NUL.
pub fn chat_texts(system: Option<&str>, prompt: &str) -> (r: Result<ChatTexts, Error>)
    requires
        encode_utf8(prompt@).len() + bytes_len(system) + 256 <= usize::MAX,
    ensures
        if bytes_of(system) matches Some(b) && model::has_nul(b) {
            r matches Err(e) && e.says("system contains NUL"@)
        } else if model::has_nul(encode_utf8(prompt@)) {
            r matches Err(e) && e.says("prompt contains NUL"@)
        } else {
            &&& r matches Ok(t)
            &&& t.prompt@ == encode_utf8(prompt@)
            &&& t.system is Some == system is Some
            &&& t.system matches Some(v) ==> bytes_of(system) == Some(v@)
            &&& t.capacity == encode_utf8(prompt@).len() + bytes_len(system) + 256
        },
{
    let (c_system, system_len): (Option<Vec<u8>>, usize) = match system {
        None => (None, 0),
        Some(s) => match c_bytes(s.as_bytes(), "system contains NUL") {
            Ok(v) => {
                let n: usize = v.len();
                (Some(v), n)
            },
            Err(e) => {
                return Err(e);
            },
        },
    };
    match c_bytes(prompt.as_bytes(), "prompt contains NUL") {
        Ok(v) => {
            let capacity: usize = encode_capacity(v.len(), system_len);
            Ok(ChatTexts { system: c_system, prompt: v, capacity })
        },
        Err(e) => Err(e),
    }
}

/// The tokens that the engine wrote into `out`: the first `n`, all of them
/// where it reports more, none where it reports fewer than one.
pub fn written_tokens(out: Vec<i32>, n: i32) -> (r: TokenBuffer)
    ensures
        r@ == if n <= 0 {
            Seq::<i32>::empty()
        } else if n as int <= out@.len() {
            out@.take(n as int)
        } else {
            out@
        },
{
    let mut out = out;
    let kept: usize = scores_kept(n, out.len());
    out.truncate(kept);
    TokenBuffer::from_tokens(out)
}

/// A prefill frontier that the engine reports as durable: the first `current`
/// of the prompt's tokens.
pub struct PrefillCheckpoint<'a> {
    tokens: &'a [i32],
    total: usize,
}

/// The report is of this prompt: `current` of all its `n` tokens.
pub open spec fn report_valid(current: i32, total: i32, n: int) -> bool {
    0 <= current <= total && total == n
}

impl<'a> PrefillCheckpoint<'a> {
    pub closed spec fn prefix(self) -> Seq<i32> {
        self.tokens@
    }

    pub closed spec fn spec_total(self) -> int {
        self.total as int
    }

    /// The checkpoint that the report `current` of `total` stands for; a report
    /// that is not of this prompt stands for none.
    pub fn from_report(prompt: &'a [i32], current: i32, total: i32) -> (r: Option<
        PrefillCheckpoint<'a>,
    >)
        requires
            prompt@.len() <= i32::MAX,
        ensures
            match r {
                None => !report_valid(current, total, prompt@.len() as int),
                Some(c) => {
                    &&& report_valid(current, total, prompt@.len() as int)
                    &&& c.prefix() == prompt@.take(current as int)
                    &&& c.spec_total() == prompt@.len()
                },
            },
    {
        if current < 0 || total != prompt.len() as i32 || current > total {
            return None;
        }
        let tokens = slice_subrange(prompt, 0, current as usize);
        assert(tokens@ =~= prompt@.take(current as int));
        Some(PrefillCheckpoint { tokens, total: prompt.len() })
    }

    /// The number of tokens that are durable.
    pub fn current(&self) -> (r: usize)
        ensures
            r == self.prefix().len(),
    {
        self.tokens.len()
    }

    /// The number of tokens of the prompt.
    pub fn total(&self) -> (r: usize)
        ensures
            r == self.spec_total(),
    {
        self.total
    }

    /// The tokens that are durable.
    pub fn tokens(&self) -> (r: &[i32])
        ensures
            r@ == self.prefix(),
    {
        self.tokens
    }
}

} // verus!
