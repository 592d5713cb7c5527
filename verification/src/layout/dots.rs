//! The layout table of the dots3 family.

use crate::layout::common;
use crate::layout::common::{is_nextn, q8_head};
use crate::layout::table;
use crate::layout::table::{block_name, product, put, put_top, span, LayoutSpec, Row, TypeClass, T_F32, T_IQ2_XXS, T_Q2_K, T_Q8_0};
use crate::shape::Shape;
use vstd::prelude::*;

verus! {

/// The attention heads of layer kind `full`.
pub open spec fn dots3_heads(s: Shape, full: bool) -> u32 {
    if full {
        s.n_head
    } else {
        s.n_swa_head
    }
}

pub open spec fn dots3_kv_lora(s: Shape, full: bool) -> u32 {
    if full {
        s.n_kv_lora
    } else {
        s.n_swa_kv_lora
    }
}

pub open spec fn dots3_key_dim(s: Shape, full: bool) -> u32 {
    if full {
        s.n_key_mla
    } else {
        s.n_swa_key_mla
    }
}

/// The attention widths of layer kind `full` are defined and fit a word.
pub open spec fn dots3_kind_fits(s: Shape, full: bool) -> bool {
    &&& s.n_rot <= dots3_key_dim(s, full)
    &&& dots3_heads(s, full) * ((dots3_key_dim(s, full) - s.n_rot) + s.n_value_mla) <= u64::MAX
}

/// The widths of every layer are defined and fit a word.
pub open spec fn dots3_fits(s: Shape) -> bool {
    &&& common::nextn_fits(s)
    &&& forall|il: int|
        0 <= il < s.n_layer ==> dots3_kind_fits(s, (#[trigger] s.layers@[il]).full_attention)
}

fn dots3_kind_defined(s: &Shape, full: bool) -> (r: bool)
    ensures
        r == dots3_kind_fits(*s, full),
{
    let (heads, key_dim): (u32, u32) = if full {
        (s.n_head, s.n_key_mla)
    } else {
        (s.n_swa_head, s.n_swa_key_mla)
    };
    if s.n_rot > key_dim {
        return false;
    }
    let w: u64 = (key_dim - s.n_rot) as u64 + s.n_value_mla as u64;
    (heads as u64).checked_mul(w).is_some()
}

/// Whether the widths of every layer are defined.
pub fn dots3_defined(s: &Shape) -> (r: bool)
    requires
        s.well_formed(),
    ensures
        r == dots3_fits(*s),
{
    if !common::nextn_defined(s) {
        return false;
    }
    let mut il: usize = 0;
    while il < s.layers.len()
        invariant
            il <= s.layers@.len() == s.n_layer,
            common::nextn_fits(*s),
            forall|k: int|
                0 <= k < il ==> dots3_kind_fits(*s, (#[trigger] s.layers@[k]).full_attention),
        decreases s.layers@.len() - il,
    {
        if !dots3_kind_defined(s, s.layers[il].full_attention) {
            assert(!dots3_kind_fits(*s, s.layers@[il as int].full_attention));
            return false;
        }
        il += 1;
    }
    true
}

/// The attention tensors at `p` of a layer of kind `full`.
pub open spec fn dots3_attn_rows(s: Shape, p: Seq<char>, full: bool) -> Seq<Row> {
    let e: int = s.n_embd as int;
    let heads: int = dots3_heads(s, full) as int;
    let kv_lora: int = dots3_kv_lora(s, full) as int;
    let qk_width: int = dots3_heads(s, full) * dots3_key_dim(s, full);
    let kv_a_width: int = kv_lora + s.n_rot;
    let kv_width: int = dots3_heads(s, full) * ((dots3_key_dim(s, full) - s.n_rot) + s.n_value_mla);
    let value_width: int = dots3_heads(s, full) * s.n_value_mla;
    seq![
        table::row(p + "attn_norm.weight"@, TypeClass::Exact(T_F32), 1, e, 0, 0, 0),
        table::row(p + "attn_q_a.weight"@, TypeClass::Exact(T_Q8_0), 2, e, s.n_lora_q as int, 0, 0),
        table::row(p + "attn_q_a_norm.weight"@, TypeClass::Exact(T_Q8_0), 1, s.n_lora_q as int, 0, 0, 0),
        table::row(p + "attn_q_b.weight"@, TypeClass::Exact(T_Q8_0), 2, s.n_lora_q as int, qk_width, 0, 0),
        table::row(p + "attn_kv_a_mqa.weight"@, TypeClass::Exact(T_Q8_0), 2, e, kv_a_width, 0, 0),
        table::row(p + "attn_kv_a_norm.weight"@, TypeClass::Exact(T_Q8_0), 1, kv_lora, 0, 0, 0),
        table::row(p + "attn_kv_b.weight"@, TypeClass::Exact(T_Q8_0), 2, kv_lora, kv_width, 0, 0),
        table::row(p + "attn_k_rope_norm.weight"@, TypeClass::Exact(T_Q8_0), 1, s.n_rot as int, 0, 0, 0),
        table::row(p + "attn_gate.weight"@, TypeClass::Exact(T_Q8_0), 2, e, heads, 0, 0),
        table::row(p + "attn_output.weight"@, TypeClass::Exact(T_Q8_0), 2, value_width, e, 0, 0),
    ]
}

fn dots3_attn(out: &mut Vec<LayoutSpec>, p: &str, s: &Shape, full: bool)
    requires
        dots3_kind_fits(*s, full),
    ensures
        table::sound(old(out)@) ==> table::sound(final(out)@),
        table::rows(final(out)@) == table::rows(old(out)@) + dots3_attn_rows(*s, p@, full),
{
    let e: u64 = s.n_embd as u64;
    let heads: u64 = if full { s.n_head as u64 } else { s.n_swa_head as u64 };
    let kv_lora: u64 = if full { s.n_kv_lora as u64 } else { s.n_swa_kv_lora as u64 };
    let qk_width: u64 = if full { product(s.n_head, s.n_key_mla) } else { product(s.n_swa_head, s.n_swa_key_mla) };
    let kv_a_width: u64 = kv_lora + s.n_rot as u64;
    let kv_width: u64 = if full { span(s.n_head, (s.n_key_mla - s.n_rot) as u64 + s.n_value_mla as u64) } else { span(s.n_swa_head, (s.n_swa_key_mla - s.n_rot) as u64 + s.n_value_mla as u64) };
    let value_width: u64 = if full { product(s.n_head, s.n_value_mla) } else { product(s.n_swa_head, s.n_value_mla) };
    put(out, p, "attn_norm.weight", TypeClass::Exact(T_F32), 1, [e, 0, 0, 0]);
    put(out, p, "attn_q_a.weight", TypeClass::Exact(T_Q8_0), 2, [e, s.n_lora_q as u64, 0, 0]);
    put(out, p, "attn_q_a_norm.weight", TypeClass::Exact(T_Q8_0), 1, [s.n_lora_q as u64, 0, 0, 0]);
    put(out, p, "attn_q_b.weight", TypeClass::Exact(T_Q8_0), 2, [s.n_lora_q as u64, qk_width, 0, 0]);
    put(out, p, "attn_kv_a_mqa.weight", TypeClass::Exact(T_Q8_0), 2, [e, kv_a_width, 0, 0]);
    put(out, p, "attn_kv_a_norm.weight", TypeClass::Exact(T_Q8_0), 1, [kv_lora, 0, 0, 0]);
    put(out, p, "attn_kv_b.weight", TypeClass::Exact(T_Q8_0), 2, [kv_lora, kv_width, 0, 0]);
    put(out, p, "attn_k_rope_norm.weight", TypeClass::Exact(T_Q8_0), 1, [s.n_rot as u64, 0, 0, 0]);
    put(out, p, "attn_gate.weight", TypeClass::Exact(T_Q8_0), 2, [e, heads, 0, 0]);
    put(out, p, "attn_output.weight", TypeClass::Exact(T_Q8_0), 2, [value_width, e, 0, 0]);
}

/// The indexer tensors at `p`.
pub open spec fn dots3_index_rows(s: Shape, p: Seq<char>) -> Seq<Row> {
    let e: int = s.n_embd as int;
    let index_q: int = s.n_indexer_head * s.n_indexer_head_dim;
    seq![
        table::row(p + "attn_idx_q_b.weight"@, TypeClass::Exact(T_Q8_0), 2, s.n_lora_q as int, index_q, 0, 0),
        table::row(p + "attn_idx_k.weight"@, TypeClass::Exact(T_Q8_0), 2, e, s.n_indexer_head_dim as int, 0, 0),
        table::row(p + "attn_idx_w.weight"@, TypeClass::Exact(T_Q8_0), 2, e, s.n_indexer_head as int, 0, 0),
        table::row(p + "attn_idx_k_norm.weight"@, TypeClass::Exact(T_F32), 1, s.n_indexer_head_dim as int, 0, 0, 0),
        table::row(p + "attn_idx_k_norm.bias"@, TypeClass::Exact(T_F32), 1, s.n_indexer_head_dim as int, 0, 0, 0),
    ]
}

fn dots3_index(out: &mut Vec<LayoutSpec>, p: &str, s: &Shape)
    ensures
        table::sound(old(out)@) ==> table::sound(final(out)@),
        table::rows(final(out)@) == table::rows(old(out)@) + dots3_index_rows(*s, p@),
{
    let e: u64 = s.n_embd as u64;
    let index_q: u64 = product(s.n_indexer_head, s.n_indexer_head_dim);
    put(out, p, "attn_idx_q_b.weight", TypeClass::Exact(T_Q8_0), 2, [s.n_lora_q as u64, index_q, 0, 0]);
    put(out, p, "attn_idx_k.weight", TypeClass::Exact(T_Q8_0), 2, [e, s.n_indexer_head_dim as u64, 0, 0]);
    put(out, p, "attn_idx_w.weight", TypeClass::Exact(T_Q8_0), 2, [e, s.n_indexer_head as u64, 0, 0]);
    put(out, p, "attn_idx_k_norm.weight", TypeClass::Exact(T_F32), 1, [s.n_indexer_head_dim as u64, 0, 0, 0]);
    put(out, p, "attn_idx_k_norm.bias", TypeClass::Exact(T_F32), 1, [s.n_indexer_head_dim as u64, 0, 0, 0]);
}

/// The dense feed-forward tensors at `p`.
pub open spec fn dots3_dense_ffn_rows(s: Shape, p: Seq<char>) -> Seq<Row> {
    let e: int = s.n_embd as int;
    seq![
        table::row(p + "ffn_gate.weight"@, TypeClass::Exact(T_Q8_0), 2, e, s.n_ff_dense as int, 0, 0),
        table::row(p + "ffn_up.weight"@, TypeClass::Exact(T_Q8_0), 2, e, s.n_ff_dense as int, 0, 0),
        table::row(p + "ffn_down.weight"@, TypeClass::Exact(T_Q8_0), 2, s.n_ff_dense as int, e, 0, 0),
    ]
}

fn dots3_dense_ffn(out: &mut Vec<LayoutSpec>, p: &str, s: &Shape)
    ensures
        table::sound(old(out)@) ==> table::sound(final(out)@),
        table::rows(final(out)@) == table::rows(old(out)@) + dots3_dense_ffn_rows(*s, p@),
{
    let e: u64 = s.n_embd as u64;
    put(out, p, "ffn_gate.weight", TypeClass::Exact(T_Q8_0), 2, [e, s.n_ff_dense as u64, 0, 0]);
    put(out, p, "ffn_up.weight", TypeClass::Exact(T_Q8_0), 2, [e, s.n_ff_dense as u64, 0, 0]);
    put(out, p, "ffn_down.weight", TypeClass::Exact(T_Q8_0), 2, [s.n_ff_dense as u64, e, 0, 0]);
}

/// The expert feed-forward tensors at `p`.
pub open spec fn dots3_expert_ffn_rows(s: Shape, p: Seq<char>) -> Seq<Row> {
    let e: int = s.n_embd as int;
    seq![
        table::row(p + "ffn_gate_inp.weight"@, TypeClass::Exact(T_F32), 2, e, s.n_expert as int, 0, 0),
        table::row(p + "exp_probs_b.bias"@, TypeClass::Exact(T_F32), 1, s.n_expert as int, 0, 0, 0),
        table::row(p + "ffn_gate_exps.weight"@, TypeClass::Exact(T_IQ2_XXS), 3, e, s.n_ff_exp as int, s.n_expert as int, 0),
        table::row(p + "ffn_up_exps.weight"@, TypeClass::Exact(T_IQ2_XXS), 3, e, s.n_ff_exp as int, s.n_expert as int, 0),
        table::row(p + "ffn_down_exps.weight"@, TypeClass::Exact(T_Q2_K), 3, s.n_ff_exp as int, e, s.n_expert as int, 0),
        table::row(p + "ffn_gate_shexp.weight"@, TypeClass::Exact(T_Q8_0), 2, e, s.n_ff_exp as int, 0, 0),
        table::row(p + "ffn_up_shexp.weight"@, TypeClass::Exact(T_Q8_0), 2, e, s.n_ff_exp as int, 0, 0),
        table::row(p + "ffn_down_shexp.weight"@, TypeClass::Exact(T_Q8_0), 2, s.n_ff_exp as int, e, 0, 0),
    ]
}

fn dots3_expert_ffn(out: &mut Vec<LayoutSpec>, p: &str, s: &Shape)
    ensures
        table::sound(old(out)@) ==> table::sound(final(out)@),
        table::rows(final(out)@) == table::rows(old(out)@) + dots3_expert_ffn_rows(*s, p@),
{
    let e: u64 = s.n_embd as u64;
    put(out, p, "ffn_gate_inp.weight", TypeClass::Exact(T_F32), 2, [e, s.n_expert as u64, 0, 0]);
    put(out, p, "exp_probs_b.bias", TypeClass::Exact(T_F32), 1, [s.n_expert as u64, 0, 0, 0]);
    put(out, p, "ffn_gate_exps.weight", TypeClass::Exact(T_IQ2_XXS), 3, [e, s.n_ff_exp as u64, s.n_expert as u64, 0]);
    put(out, p, "ffn_up_exps.weight", TypeClass::Exact(T_IQ2_XXS), 3, [e, s.n_ff_exp as u64, s.n_expert as u64, 0]);
    put(out, p, "ffn_down_exps.weight", TypeClass::Exact(T_Q2_K), 3, [s.n_ff_exp as u64, e, s.n_expert as u64, 0]);
    put(out, p, "ffn_gate_shexp.weight", TypeClass::Exact(T_Q8_0), 2, [e, s.n_ff_exp as u64, 0, 0]);
    put(out, p, "ffn_up_shexp.weight", TypeClass::Exact(T_Q8_0), 2, [e, s.n_ff_exp as u64, 0, 0]);
    put(out, p, "ffn_down_shexp.weight", TypeClass::Exact(T_Q8_0), 2, [s.n_ff_exp as u64, e, 0, 0]);
}

/// The tensors at `p` of a next-token-prediction layer.
pub open spec fn dots3_nextn_rows(s: Shape, p: Seq<char>) -> Seq<Row> {
    let e: int = s.n_embd as int;
    seq![
        table::row(p + "eh_proj.weight"@, TypeClass::Exact(T_Q8_0), 2, 2 * e, e, 0, 0),
        table::row(p + "enorm.weight"@, TypeClass::Exact(T_F32), 1, e, 0, 0, 0),
        table::row(p + "hnorm.weight"@, TypeClass::Exact(T_F32), 1, e, 0, 0, 0),
        table::row(p + "shared_head_norm.weight"@, TypeClass::Exact(T_F32), 1, e, 0, 0, 0),
    ]
}

fn dots3_nextn(out: &mut Vec<LayoutSpec>, p: &str, s: &Shape)
    ensures
        table::sound(old(out)@) ==> table::sound(final(out)@),
        table::rows(final(out)@) == table::rows(old(out)@) + dots3_nextn_rows(*s, p@),
{
    let e: u64 = s.n_embd as u64;
    put(out, p, "eh_proj.weight", TypeClass::Exact(T_Q8_0), 2, [2 * e, e, 0, 0]);
    put(out, p, "enorm.weight", TypeClass::Exact(T_F32), 1, [e, 0, 0, 0]);
    put(out, p, "hnorm.weight", TypeClass::Exact(T_F32), 1, [e, 0, 0, 0]);
    put(out, p, "shared_head_norm.weight", TypeClass::Exact(T_F32), 1, [e, 0, 0, 0]);
}

pub open spec fn dots3_ffn_norm_row(s: Shape, p: Seq<char>) -> Row {
    table::row(p + "ffn_norm.weight"@, TypeClass::Exact(T_F32), 1, s.n_embd as int, 0, 0, 0)
}

/// The rows of layer `il`.
pub open spec fn dots3_layer_rows(s: Shape, il: nat) -> Seq<Row> {
    let p = table::block_prefix("blk."@, il);
    let full = s.layers@[il as int].full_attention;
    let attn = dots3_attn_rows(s, p, full);
    let index = if full {
        dots3_index_rows(s, p)
    } else {
        seq![]
    };
    let ffn = if il < s.n_leading_dense || common::nextn_layer(s, il as int) {
        dots3_dense_ffn_rows(s, p)
    } else {
        dots3_expert_ffn_rows(s, p)
    };
    let nextn = if common::nextn_layer(s, il as int) {
        dots3_nextn_rows(s, p)
    } else {
        seq![]
    };
    attn + index + seq![dots3_ffn_norm_row(s, p)] + ffn + nextn
}

/// The rows of the first `n` layers.
pub open spec fn dots3_layers(s: Shape, n: nat) -> Seq<Row>
    decreases n,
{
    if n == 0 {
        seq![]
    } else {
        dots3_layers(s, (n - 1) as nat) + dots3_layer_rows(s, (n - 1) as nat)
    }
}

/// The table of the dots3 family: head, layers, the embedding of the
/// prediction layers.
pub open spec fn dots3_rows(s: Shape) -> Seq<Row> {
    common::q8_head_rows(s) + dots3_layers(s, s.n_layer as nat) + seq![
        table::row(
            "token_embd_mtp.weight"@,
            TypeClass::Exact(T_Q8_0),
            2,
            s.n_embd as int,
            s.n_vocab as int,
            0,
            0,
        ),
    ]
}

fn dots3_layer(out: &mut Vec<LayoutSpec>, s: &Shape, il: u32)
    requires
        s.well_formed(),
        dots3_fits(*s),
        il < s.n_layer,
    ensures
        table::sound(old(out)@) ==> table::sound(final(out)@),
        table::rows(final(out)@) == table::rows(old(out)@) + dots3_layer_rows(*s, il as nat),
{
    let p = block_name("blk.", il);
    let full: bool = s.layers[il as usize].full_attention;
    dots3_attn(out, p.as_str(), s, full);
    if full {
        dots3_index(out, p.as_str(), s);
    }
    put(out, p.as_str(), "ffn_norm.weight", TypeClass::Exact(T_F32), 1, [s.n_embd as u64, 0, 0, 0]);
    if il < s.n_leading_dense || is_nextn(s, il) {
        dots3_dense_ffn(out, p.as_str(), s);
    } else {
        dots3_expert_ffn(out, p.as_str(), s);
    }
    if is_nextn(s, il) {
        dots3_nextn(out, p.as_str(), s);
    }
}

/// The expected tensors of a dots3 model.
pub fn expected_dots3(s: &Shape) -> (out: Vec<LayoutSpec>)
    requires
        s.well_formed(),
        dots3_fits(*s),
    ensures
        table::sound(out@),
        table::rows(out@) == dots3_rows(*s),
{
    let mut out: Vec<LayoutSpec> = Vec::new();
    q8_head(&mut out, s);
    let mut il: u32 = 0;
    while il < s.n_layer
        invariant
            il <= s.n_layer,
            s.well_formed(),
            dots3_fits(*s),
            table::sound(out@),
            table::rows(out@) == common::q8_head_rows(*s) + dots3_layers(*s, il as nat),
        decreases s.n_layer - il,
    {
        dots3_layer(&mut out, s, il);
        il += 1;
    }
    put_top(
        &mut out,
        "token_embd_mtp.weight",
        TypeClass::Exact(T_Q8_0),
        2,
        [s.n_embd as u64, s.n_vocab as u64, 0, 0],
    );
    out
}

} // verus!
