//! A model's vocabulary, as the engine takes it.

use vstd::prelude::*;

verus! {

/// The tokens with a part of their own in the chat templates; below 0 where
/// the vocabulary has none.
#[derive(Clone, Copy, Debug, PartialEq, Eq, Structural)]
pub struct SpecialIds {
    pub bos_id: i32,
    pub eos_id: i32,
    pub system_id: i32,
    pub eot_id: i32,
    pub im_start_id: i32,
    pub im_content_id: i32,
    pub im_end_id: i32,
    pub user_id: i32,
    pub assistant_id: i32,
    pub start_of_turn_id: i32,
    pub end_of_turn_id: i32,
    pub tool_id: i32,
    pub reference_id: i32,
    pub plan_start_id: i32,
    pub plan_end_id: i32,
    pub observation_id: i32,
    pub sop_id: i32,
    pub think_start_id: i32,
    pub think_end_id: i32,
    pub tool_call_start_id: i32,
    pub tool_call_end_id: i32,
    pub tool_response_start_id: i32,
    pub tool_response_end_id: i32,
    pub arg_key_start_id: i32,
    pub arg_key_end_id: i32,
    pub arg_value_start_id: i32,
    pub latent_start_id: i32,
    pub latent_pad_id: i32,
    pub latent_end_id: i32,
    pub tool_schema_start_id: i32,
    pub tool_schema_end_id: i32,
    pub dsml_id: i32,
    pub dots3_endofsystem_id: i32,
    pub dots3_endofuser_id: i32,
    pub dots3_endoftext_id: i32,
}

/// A vocabulary: its tokens, its merges, the tokens that its author defined,
/// and the bytes with which such tokens begin.
#[derive(Debug)]
pub struct Vocab {
    pub tokens: Vec<Vec<u8>>,
    pub merges: Vec<Vec<u8>>,
    pub user_defined_ids: Vec<i32>,
    pub user_defined_max_len: u32,
    pub user_defined_first: [bool; 256],
    pub motif3_added_first: [bool; 256],
    pub ids: SpecialIds,
}

/// What the engine takes beside the lists themselves: their lengths, the first
/// bytes as 0 and 1, the special tokens.
#[derive(Debug)]
pub struct HostVocab {
    pub n_vocab: u32,
    pub n_merges: u32,
    pub n_user_defined: u32,
    pub user_defined_max_len: u32,
    pub user_defined_first: [u8; 256],
    pub motif3_added_first: [u8; 256],
    pub ids: SpecialIds,
}

/// `bytes` holds 1 where `flags` holds true, 0 elsewhere.
pub open spec fn flags_as_bytes(bytes: Seq<u8>, flags: Seq<bool>) -> bool {
    forall|i: int|
        0 <= i < 256 ==> #[trigger] bytes[i] == if flags[i] {
            1u8
        } else {
            0u8
        }
}

/// The bytes 1 and 0 for the flags of `src`.
pub fn bools_to_u8(src: &[bool; 256]) -> (out: [u8; 256])
    ensures
        flags_as_bytes(out@, src@),
{
    let mut out: [u8; 256] = [0u8;256];
    let mut i: usize = 0;
    while i < 256
        invariant
            i <= 256,
            forall|k: int|
                0 <= k < i ==> #[trigger] out@[k] == if src@[k] {
                    1u8
                } else {
                    0u8
                },
        decreases 256 - i,
    {
        out[i] = if src[i] {
            1
        } else {
            0
        };
        i += 1;
    }
    out
}

/// The vocabulary `v` as the engine takes it. The engine counts in 32 bits.
pub fn pack_host_vocab(v: &Vocab) -> (r: HostVocab)
    requires
        v.tokens@.len() <= u32::MAX,
        v.merges@.len() <= u32::MAX,
        v.user_defined_ids@.len() <= u32::MAX,
    ensures
        r.n_vocab == v.tokens@.len(),
        r.n_merges == v.merges@.len(),
        r.n_user_defined == v.user_defined_ids@.len(),
        r.user_defined_max_len == v.user_defined_max_len,
        flags_as_bytes(r.user_defined_first@, v.user_defined_first@),
        flags_as_bytes(r.motif3_added_first@, v.motif3_added_first@),
        r.ids == v.ids,
{
    HostVocab {
        n_vocab: v.tokens.len() as u32,
        n_merges: v.merges.len() as u32,
        n_user_defined: v.user_defined_ids.len() as u32,
        user_defined_max_len: v.user_defined_max_len,
        user_defined_first: bools_to_u8(&v.user_defined_first),
        motif3_added_first: bools_to_u8(&v.motif3_added_first),
        ids: v.ids,
    }
}

} // verus!
