//! The layout tables of the DeepSeek family and of its sibling models.

use crate::layout::table;
use crate::layout::table::{block_name, mix_width, product, put, put_top, LayoutSpec, Row, TypeClass, T_F16, T_F32, T_I32, T_Q8_0};
use crate::shape::Shape;
use vstd::prelude::*;

verus! {

/// The output projection is split into groups.
pub open spec fn deepseek_fits(s: Shape) -> bool {
    s.n_out_group != 0
}

/// Embedding, hyper-connection head and output.
pub open spec fn deepseek_head_rows(s: Shape) -> Seq<Row> {
    let e: int = s.n_embd as int;
    let hc: int = s.n_hc as int;
    let hc_dim: int = s.n_embd * s.n_hc;
    seq![
        table::row("token_embd.weight"@, TypeClass::Exact(T_F16), 2, e, s.n_vocab as int, 0, 0),
        table::row("output_hc_base.weight"@, TypeClass::Exact(T_F32), 1, hc, 0, 0, 0),
        table::row("output_hc_fn.weight"@, TypeClass::Exact(T_F16), 2, hc_dim, hc, 0, 0),
        table::row("output_hc_scale.weight"@, TypeClass::Exact(T_F32), 1, 1, 0, 0, 0),
        table::row("output_norm.weight"@, TypeClass::Exact(T_F32), 1, e, 0, 0, 0),
        table::row("output.weight"@, TypeClass::Exact(T_Q8_0), 2, e, s.n_vocab as int, 0, 0),
    ]
}

fn deepseek_head(out: &mut Vec<LayoutSpec>, s: &Shape)
    ensures
        table::sound(old(out)@) ==> table::sound(final(out)@),
        table::rows(final(out)@) == table::rows(old(out)@) + deepseek_head_rows(*s),
{
    let e: u64 = s.n_embd as u64;
    let hc: u64 = s.n_hc as u64;
    let hc_dim: u64 = product(s.n_embd, s.n_hc);
    put_top(out, "token_embd.weight", TypeClass::Exact(T_F16), 2, [e, s.n_vocab as u64, 0, 0]);
    put_top(out, "output_hc_base.weight", TypeClass::Exact(T_F32), 1, [hc, 0, 0, 0]);
    put_top(out, "output_hc_fn.weight", TypeClass::Exact(T_F16), 2, [hc_dim, hc, 0, 0]);
    put_top(out, "output_hc_scale.weight", TypeClass::Exact(T_F32), 1, [1, 0, 0, 0]);
    put_top(out, "output_norm.weight", TypeClass::Exact(T_F32), 1, [e, 0, 0, 0]);
    put_top(out, "output.weight", TypeClass::Exact(T_Q8_0), 2, [e, s.n_vocab as u64, 0, 0]);
}

/// The attention tensors at `p`.
pub open spec fn deepseek_attn_rows(s: Shape, p: Seq<char>) -> Seq<Row> {
    let e: int = s.n_embd as int;
    let hc_dim: int = s.n_embd * s.n_hc;
    let hc_mix: int = 2 * s.n_hc + s.n_hc * s.n_hc;
    let q_dim: int = s.n_head * s.n_head_dim;
    let out_low: int = s.n_out_group * s.n_lora_o;
    let group_dim: int = s.n_head_dim * (s.n_head / s.n_out_group);
    seq![
        table::row(p + "hc_attn_fn.weight"@, TypeClass::Exact(T_F16), 2, hc_dim, hc_mix, 0, 0),
        table::row(p + "hc_attn_scale.weight"@, TypeClass::Exact(T_F32), 1, 3, 0, 0, 0),
        table::row(p + "hc_attn_base.weight"@, TypeClass::Exact(T_F32), 1, hc_mix, 0, 0, 0),
        table::row(p + "attn_norm.weight"@, TypeClass::Exact(T_F32), 1, e, 0, 0, 0),
        table::row(p + "attn_q_a.weight"@, TypeClass::Exact(T_Q8_0), 2, e, s.n_lora_q as int, 0, 0),
        table::row(p + "attn_q_a_norm.weight"@, TypeClass::Exact(T_F32), 1, s.n_lora_q as int, 0, 0, 0),
        table::row(p + "attn_q_b.weight"@, TypeClass::Exact(T_Q8_0), 2, s.n_lora_q as int, q_dim, 0, 0),
        table::row(p + "attn_kv.weight"@, TypeClass::Exact(T_Q8_0), 2, e, s.n_head_dim as int, 0, 0),
        table::row(p + "attn_kv_a_norm.weight"@, TypeClass::Exact(T_F32), 1, s.n_head_dim as int, 0, 0, 0),
        table::row(p + "attn_sinks.weight"@, TypeClass::Exact(T_F32), 1, s.n_head as int, 0, 0, 0),
        table::row(p + "attn_output_a.weight"@, TypeClass::Exact(T_Q8_0), 2, group_dim, out_low, 0, 0),
        table::row(p + "attn_output_b.weight"@, TypeClass::Exact(T_Q8_0), 2, out_low, e, 0, 0),
    ]
}

fn deepseek_attn(out: &mut Vec<LayoutSpec>, p: &str, s: &Shape)
    requires
        deepseek_fits(*s),
    ensures
        table::sound(old(out)@) ==> table::sound(final(out)@),
        table::rows(final(out)@) == table::rows(old(out)@) + deepseek_attn_rows(*s, p@),
{
    let e: u64 = s.n_embd as u64;
    let hc_dim: u64 = product(s.n_embd, s.n_hc);
    let hc_mix: u64 = mix_width(s.n_hc);
    let q_dim: u64 = product(s.n_head, s.n_head_dim);
    let out_low: u64 = product(s.n_out_group, s.n_lora_o);
    let group_dim: u64 = product(s.n_head_dim, s.n_head / s.n_out_group);
    put(out, p, "hc_attn_fn.weight", TypeClass::Exact(T_F16), 2, [hc_dim, hc_mix, 0, 0]);
    put(out, p, "hc_attn_scale.weight", TypeClass::Exact(T_F32), 1, [3, 0, 0, 0]);
    put(out, p, "hc_attn_base.weight", TypeClass::Exact(T_F32), 1, [hc_mix, 0, 0, 0]);
    put(out, p, "attn_norm.weight", TypeClass::Exact(T_F32), 1, [e, 0, 0, 0]);
    put(out, p, "attn_q_a.weight", TypeClass::Exact(T_Q8_0), 2, [e, s.n_lora_q as u64, 0, 0]);
    put(out, p, "attn_q_a_norm.weight", TypeClass::Exact(T_F32), 1, [s.n_lora_q as u64, 0, 0, 0]);
    put(out, p, "attn_q_b.weight", TypeClass::Exact(T_Q8_0), 2, [s.n_lora_q as u64, q_dim, 0, 0]);
    put(out, p, "attn_kv.weight", TypeClass::Exact(T_Q8_0), 2, [e, s.n_head_dim as u64, 0, 0]);
    put(out, p, "attn_kv_a_norm.weight", TypeClass::Exact(T_F32), 1, [s.n_head_dim as u64, 0, 0, 0]);
    put(out, p, "attn_sinks.weight", TypeClass::Exact(T_F32), 1, [s.n_head as u64, 0, 0, 0]);
    put(out, p, "attn_output_a.weight", TypeClass::Exact(T_Q8_0), 2, [group_dim, out_low, 0, 0]);
    put(out, p, "attn_output_b.weight", TypeClass::Exact(T_Q8_0), 2, [out_low, e, 0, 0]);
}

/// The attention compressor at `p` of a layer with compression `ratio`.
pub open spec fn deepseek_compressor_rows(s: Shape, p: Seq<char>, ratio: u32) -> Seq<Row> {
    let e: int = s.n_embd as int;
    let comp_width: int = if ratio == 4 { 2 * s.n_head_dim } else { s.n_head_dim as int };
    seq![
        table::row(p + "attn_compressor_ape.weight"@, TypeClass::Exact(T_F16), 2, comp_width, ratio as int, 0, 0),
        table::row(p + "attn_compressor_kv.weight"@, TypeClass::Exact(T_F16), 2, e, comp_width, 0, 0),
        table::row(p + "attn_compressor_gate.weight"@, TypeClass::Exact(T_F16), 2, e, comp_width, 0, 0),
        table::row(p + "attn_compressor_norm.weight"@, TypeClass::Exact(T_F32), 1, s.n_head_dim as int, 0, 0, 0),
    ]
}

fn deepseek_compressor(out: &mut Vec<LayoutSpec>, p: &str, s: &Shape, ratio: u32)
    ensures
        table::sound(old(out)@) ==> table::sound(final(out)@),
        table::rows(final(out)@) == table::rows(old(out)@) + deepseek_compressor_rows(*s, p@, ratio),
{
    let e: u64 = s.n_embd as u64;
    let comp_width: u64 = if ratio == 4 { 2 * s.n_head_dim as u64 } else { s.n_head_dim as u64 };
    put(out, p, "attn_compressor_ape.weight", TypeClass::Exact(T_F16), 2, [comp_width, ratio as u64, 0, 0]);
    put(out, p, "attn_compressor_kv.weight", TypeClass::Exact(T_F16), 2, [e, comp_width, 0, 0]);
    put(out, p, "attn_compressor_gate.weight", TypeClass::Exact(T_F16), 2, [e, comp_width, 0, 0]);
    put(out, p, "attn_compressor_norm.weight", TypeClass::Exact(T_F32), 1, [s.n_head_dim as u64, 0, 0, 0]);
}

/// The indexer at `p`.
pub open spec fn deepseek_indexer_rows(s: Shape, p: Seq<char>) -> Seq<Row> {
    let e: int = s.n_embd as int;
    let index_q: int = s.n_indexer_head * s.n_indexer_head_dim;
    let index_width: int = 2 * s.n_indexer_head_dim;
    seq![
        table::row(p + "indexer.attn_q_b.weight"@, TypeClass::Exact(T_F16), 2, s.n_lora_q as int, index_q, 0, 0),
        table::row(p + "indexer.proj.weight"@, TypeClass::Exact(T_F16), 2, e, s.n_indexer_head as int, 0, 0),
        table::row(p + "indexer_compressor_ape.weight"@, TypeClass::Exact(T_F16), 2, index_width, 4, 0, 0),
        table::row(p + "indexer_compressor_kv.weight"@, TypeClass::Exact(T_F16), 2, e, index_width, 0, 0),
        table::row(p + "indexer_compressor_gate.weight"@, TypeClass::Exact(T_F16), 2, e, index_width, 0, 0),
        table::row(p + "indexer_compressor_norm.weight"@, TypeClass::Exact(T_F32), 1, s.n_indexer_head_dim as int, 0, 0, 0),
    ]
}

fn deepseek_indexer(out: &mut Vec<LayoutSpec>, p: &str, s: &Shape)
    ensures
        table::sound(old(out)@) ==> table::sound(final(out)@),
        table::rows(final(out)@) == table::rows(old(out)@) + deepseek_indexer_rows(*s, p@),
{
    let e: u64 = s.n_embd as u64;
    let index_q: u64 = product(s.n_indexer_head, s.n_indexer_head_dim);
    let index_width: u64 = 2 * s.n_indexer_head_dim as u64;
    put(out, p, "indexer.attn_q_b.weight", TypeClass::Exact(T_F16), 2, [s.n_lora_q as u64, index_q, 0, 0]);
    put(out, p, "indexer.proj.weight", TypeClass::Exact(T_F16), 2, [e, s.n_indexer_head as u64, 0, 0]);
    put(out, p, "indexer_compressor_ape.weight", TypeClass::Exact(T_F16), 2, [index_width, 4, 0, 0]);
    put(out, p, "indexer_compressor_kv.weight", TypeClass::Exact(T_F16), 2, [e, index_width, 0, 0]);
    put(out, p, "indexer_compressor_gate.weight", TypeClass::Exact(T_F16), 2, [e, index_width, 0, 0]);
    put(out, p, "indexer_compressor_norm.weight", TypeClass::Exact(T_F32), 1, [s.n_indexer_head_dim as u64, 0, 0, 0]);
}

/// The feed-forward tensors at `p`.
pub open spec fn deepseek_ffn_rows(s: Shape, p: Seq<char>) -> Seq<Row> {
    let e: int = s.n_embd as int;
    let hc_dim: int = s.n_embd * s.n_hc;
    let hc_mix: int = 2 * s.n_hc + s.n_hc * s.n_hc;
    seq![
        table::row(p + "hc_ffn_fn.weight"@, TypeClass::Exact(T_F16), 2, hc_dim, hc_mix, 0, 0),
        table::row(p + "hc_ffn_scale.weight"@, TypeClass::Exact(T_F32), 1, 3, 0, 0, 0),
        table::row(p + "hc_ffn_base.weight"@, TypeClass::Exact(T_F32), 1, hc_mix, 0, 0, 0),
        table::row(p + "ffn_norm.weight"@, TypeClass::Exact(T_F32), 1, e, 0, 0, 0),
        table::row(p + "ffn_gate_inp.weight"@, TypeClass::Exact(T_F16), 2, e, s.n_expert as int, 0, 0),
        table::row(p + "exp_probs_b.bias"@, TypeClass::OptionalExact(T_F32), 1, s.n_expert as int, 0, 0, 0),
        table::row(p + "ffn_gate_exps.weight"@, TypeClass::Routed, 3, e, s.n_ff_exp as int, s.n_expert as int, 0),
        table::row(p + "ffn_up_exps.weight"@, TypeClass::Routed, 3, e, s.n_ff_exp as int, s.n_expert as int, 0),
        table::row(p + "ffn_down_exps.weight"@, TypeClass::Routed, 3, s.n_ff_exp as int, e, s.n_expert as int, 0),
        table::row(p + "ffn_gate_shexp.weight"@, TypeClass::Exact(T_Q8_0), 2, e, s.n_ff_exp as int, 0, 0),
        table::row(p + "ffn_up_shexp.weight"@, TypeClass::Exact(T_Q8_0), 2, e, s.n_ff_exp as int, 0, 0),
        table::row(p + "ffn_down_shexp.weight"@, TypeClass::Exact(T_Q8_0), 2, s.n_ff_exp as int, e, 0, 0),
    ]
}

fn deepseek_ffn(out: &mut Vec<LayoutSpec>, p: &str, s: &Shape)
    ensures
        table::sound(old(out)@) ==> table::sound(final(out)@),
        table::rows(final(out)@) == table::rows(old(out)@) + deepseek_ffn_rows(*s, p@),
{
    let e: u64 = s.n_embd as u64;
    let hc_dim: u64 = product(s.n_embd, s.n_hc);
    let hc_mix: u64 = mix_width(s.n_hc);
    put(out, p, "hc_ffn_fn.weight", TypeClass::Exact(T_F16), 2, [hc_dim, hc_mix, 0, 0]);
    put(out, p, "hc_ffn_scale.weight", TypeClass::Exact(T_F32), 1, [3, 0, 0, 0]);
    put(out, p, "hc_ffn_base.weight", TypeClass::Exact(T_F32), 1, [hc_mix, 0, 0, 0]);
    put(out, p, "ffn_norm.weight", TypeClass::Exact(T_F32), 1, [e, 0, 0, 0]);
    put(out, p, "ffn_gate_inp.weight", TypeClass::Exact(T_F16), 2, [e, s.n_expert as u64, 0, 0]);
    put(out, p, "exp_probs_b.bias", TypeClass::OptionalExact(T_F32), 1, [s.n_expert as u64, 0, 0, 0]);
    put(out, p, "ffn_gate_exps.weight", TypeClass::Routed, 3, [e, s.n_ff_exp as u64, s.n_expert as u64, 0]);
    put(out, p, "ffn_up_exps.weight", TypeClass::Routed, 3, [e, s.n_ff_exp as u64, s.n_expert as u64, 0]);
    put(out, p, "ffn_down_exps.weight", TypeClass::Routed, 3, [s.n_ff_exp as u64, e, s.n_expert as u64, 0]);
    put(out, p, "ffn_gate_shexp.weight", TypeClass::Exact(T_Q8_0), 2, [e, s.n_ff_exp as u64, 0, 0]);
    put(out, p, "ffn_up_shexp.weight", TypeClass::Exact(T_Q8_0), 2, [e, s.n_ff_exp as u64, 0, 0]);
    put(out, p, "ffn_down_shexp.weight", TypeClass::Exact(T_Q8_0), 2, [s.n_ff_exp as u64, e, 0, 0]);
}

/// The routing table at `p` of a hash layer.
pub open spec fn deepseek_hash_rows(s: Shape, p: Seq<char>) -> Seq<Row> {
    seq![
        table::row(p + "ffn_gate_tid2eid.weight"@, TypeClass::Exact(T_I32), 2, s.n_expert_used as int, s.n_vocab as int, 0, 0),
    ]
}

fn deepseek_hash(out: &mut Vec<LayoutSpec>, p: &str, s: &Shape)
    ensures
        table::sound(old(out)@) ==> table::sound(final(out)@),
        table::rows(final(out)@) == table::rows(old(out)@) + deepseek_hash_rows(*s, p@),
{
    put(out, p, "ffn_gate_tid2eid.weight", TypeClass::Exact(T_I32), 2, [s.n_expert_used as u64, s.n_vocab as u64, 0, 0]);
}

/// The rows of layer `il`.
pub open spec fn deepseek_layer_rows(s: Shape, il: nat) -> Seq<Row> {
    let p = table::block_prefix("blk."@, il);
    let ratio = s.layers@[il as int].compress_ratio;
    let compressor = if ratio != 0 {
        deepseek_compressor_rows(s, p, ratio)
    } else {
        seq![]
    };
    let indexer = if ratio == 4 {
        deepseek_indexer_rows(s, p)
    } else {
        seq![]
    };
    let hash = if il < s.n_hash_layer {
        deepseek_hash_rows(s, p)
    } else {
        seq![]
    };
    deepseek_attn_rows(s, p) + compressor + indexer + deepseek_ffn_rows(s, p) + hash
}

/// The rows of the first `n` layers.
pub open spec fn deepseek_layers(s: Shape, n: nat) -> Seq<Row>
    decreases n,
{
    if n == 0 {
        seq![]
    } else {
        deepseek_layers(s, (n - 1) as nat) + deepseek_layer_rows(s, (n - 1) as nat)
    }
}

/// The table of the DeepSeek family: head and layers.
pub open spec fn deepseek_rows(s: Shape) -> Seq<Row> {
    deepseek_head_rows(s) + deepseek_layers(s, s.n_layer as nat)
}

fn deepseek_layer(out: &mut Vec<LayoutSpec>, s: &Shape, il: u32)
    requires
        s.well_formed(),
        deepseek_fits(*s),
        il < s.n_layer,
    ensures
        table::sound(old(out)@) ==> table::sound(final(out)@),
        table::rows(final(out)@) == table::rows(old(out)@) + deepseek_layer_rows(*s, il as nat),
{
    let p = block_name("blk.", il);
    let ratio: u32 = s.layers[il as usize].compress_ratio;
    deepseek_attn(out, p.as_str(), s);
    if ratio != 0 {
        deepseek_compressor(out, p.as_str(), s, ratio);
    }
    if ratio == 4 {
        deepseek_indexer(out, p.as_str(), s);
    }
    deepseek_ffn(out, p.as_str(), s);
    if il < s.n_hash_layer {
        deepseek_hash(out, p.as_str(), s);
    }
}

/// The expected tensors of a DeepSeek model.
pub fn expected_deepseek(s: &Shape) -> (out: Vec<LayoutSpec>)
    requires
        s.well_formed(),
        s.n_layer > 0 ==> deepseek_fits(*s),
    ensures
        table::sound(out@),
        table::rows(out@) == deepseek_rows(*s),
{
    let mut out: Vec<LayoutSpec> = Vec::new();
    deepseek_head(&mut out, s);
    let mut il: u32 = 0;
    while il < s.n_layer
        invariant
            il <= s.n_layer,
            s.well_formed(),
            s.n_layer > 0 ==> deepseek_fits(*s),
            table::sound(out@),
            table::rows(out@) == deepseek_head_rows(*s) + deepseek_layers(*s, il as nat),
        decreases s.n_layer - il,
    {
        deepseek_layer(&mut out, s, il);
        il += 1;
    }
    out
}

/// The attention tensors at `p` of a sibling block.
pub open spec fn sibling_attn_rows(s: Shape, p: Seq<char>) -> Seq<Row> {
    let e: int = s.n_embd as int;
    let hc_dim: int = s.n_embd * s.n_hc;
    let hc_mix: int = 2 * s.n_hc + s.n_hc * s.n_hc;
    let q_dim: int = s.n_head * s.n_head_dim;
    let out_low: int = s.n_out_group * s.n_lora_o;
    let group_dim: int = s.n_head_dim * (s.n_head / s.n_out_group);
    seq![
        table::row(p + "hc_attn_fn.weight"@, TypeClass::Plain, 2, hc_dim, hc_mix, 0, 0),
        table::row(p + "hc_attn_scale.weight"@, TypeClass::Exact(T_F32), 1, 3, 0, 0, 0),
        table::row(p + "hc_attn_base.weight"@, TypeClass::Exact(T_F32), 1, hc_mix, 0, 0, 0),
        table::row(p + "attn_norm.weight"@, TypeClass::Exact(T_F32), 1, e, 0, 0, 0),
        table::row(p + "attn_q_a.weight"@, TypeClass::Exact(T_Q8_0), 2, e, s.n_lora_q as int, 0, 0),
        table::row(p + "attn_q_a_norm.weight"@, TypeClass::Exact(T_F32), 1, s.n_lora_q as int, 0, 0, 0),
        table::row(p + "attn_q_b.weight"@, TypeClass::Exact(T_Q8_0), 2, s.n_lora_q as int, q_dim, 0, 0),
        table::row(p + "attn_kv.weight"@, TypeClass::Exact(T_Q8_0), 2, e, s.n_head_dim as int, 0, 0),
        table::row(p + "attn_kv_a_norm.weight"@, TypeClass::Exact(T_F32), 1, s.n_head_dim as int, 0, 0, 0),
        table::row(p + "attn_sinks.weight"@, TypeClass::Exact(T_F32), 1, s.n_head as int, 0, 0, 0),
        table::row(p + "attn_output_a.weight"@, TypeClass::Exact(T_Q8_0), 2, group_dim, out_low, 0, 0),
        table::row(p + "attn_output_b.weight"@, TypeClass::Exact(T_Q8_0), 2, out_low, e, 0, 0),
    ]
}

fn sibling_attn(out: &mut Vec<LayoutSpec>, p: &str, s: &Shape)
    requires
        deepseek_fits(*s),
    ensures
        table::sound(old(out)@) ==> table::sound(final(out)@),
        table::rows(final(out)@) == table::rows(old(out)@) + sibling_attn_rows(*s, p@),
{
    let e: u64 = s.n_embd as u64;
    let hc_dim: u64 = product(s.n_embd, s.n_hc);
    let hc_mix: u64 = mix_width(s.n_hc);
    let q_dim: u64 = product(s.n_head, s.n_head_dim);
    let out_low: u64 = product(s.n_out_group, s.n_lora_o);
    let group_dim: u64 = product(s.n_head_dim, s.n_head / s.n_out_group);
    put(out, p, "hc_attn_fn.weight", TypeClass::Plain, 2, [hc_dim, hc_mix, 0, 0]);
    put(out, p, "hc_attn_scale.weight", TypeClass::Exact(T_F32), 1, [3, 0, 0, 0]);
    put(out, p, "hc_attn_base.weight", TypeClass::Exact(T_F32), 1, [hc_mix, 0, 0, 0]);
    put(out, p, "attn_norm.weight", TypeClass::Exact(T_F32), 1, [e, 0, 0, 0]);
    put(out, p, "attn_q_a.weight", TypeClass::Exact(T_Q8_0), 2, [e, s.n_lora_q as u64, 0, 0]);
    put(out, p, "attn_q_a_norm.weight", TypeClass::Exact(T_F32), 1, [s.n_lora_q as u64, 0, 0, 0]);
    put(out, p, "attn_q_b.weight", TypeClass::Exact(T_Q8_0), 2, [s.n_lora_q as u64, q_dim, 0, 0]);
    put(out, p, "attn_kv.weight", TypeClass::Exact(T_Q8_0), 2, [e, s.n_head_dim as u64, 0, 0]);
    put(out, p, "attn_kv_a_norm.weight", TypeClass::Exact(T_F32), 1, [s.n_head_dim as u64, 0, 0, 0]);
    put(out, p, "attn_sinks.weight", TypeClass::Exact(T_F32), 1, [s.n_head as u64, 0, 0, 0]);
    put(out, p, "attn_output_a.weight", TypeClass::Exact(T_Q8_0), 2, [group_dim, out_low, 0, 0]);
    put(out, p, "attn_output_b.weight", TypeClass::Exact(T_Q8_0), 2, [out_low, e, 0, 0]);
}

/// The feed-forward tensors at `p` of a sibling block.
pub open spec fn sibling_ffn_rows(s: Shape, p: Seq<char>) -> Seq<Row> {
    let e: int = s.n_embd as int;
    let hc_dim: int = s.n_embd * s.n_hc;
    let hc_mix: int = 2 * s.n_hc + s.n_hc * s.n_hc;
    seq![
        table::row(p + "hc_ffn_fn.weight"@, TypeClass::Plain, 2, hc_dim, hc_mix, 0, 0),
        table::row(p + "hc_ffn_scale.weight"@, TypeClass::Exact(T_F32), 1, 3, 0, 0, 0),
        table::row(p + "hc_ffn_base.weight"@, TypeClass::Exact(T_F32), 1, hc_mix, 0, 0, 0),
        table::row(p + "ffn_norm.weight"@, TypeClass::Exact(T_F32), 1, e, 0, 0, 0),
        table::row(p + "ffn_gate_inp.weight"@, TypeClass::Plain, 2, e, s.n_expert as int, 0, 0),
        table::row(p + "exp_probs_b.bias"@, TypeClass::Exact(T_F32), 1, s.n_expert as int, 0, 0, 0),
        table::row(p + "ffn_gate_exps.weight"@, TypeClass::Routed, 3, e, s.n_ff_exp as int, s.n_expert as int, 0),
        table::row(p + "ffn_up_exps.weight"@, TypeClass::Routed, 3, e, s.n_ff_exp as int, s.n_expert as int, 0),
        table::row(p + "ffn_down_exps.weight"@, TypeClass::Routed, 3, s.n_ff_exp as int, e, s.n_expert as int, 0),
        table::row(p + "ffn_gate_shexp.weight"@, TypeClass::Exact(T_Q8_0), 2, e, s.n_ff_exp as int, 0, 0),
        table::row(p + "ffn_up_shexp.weight"@, TypeClass::Exact(T_Q8_0), 2, e, s.n_ff_exp as int, 0, 0),
        table::row(p + "ffn_down_shexp.weight"@, TypeClass::Exact(T_Q8_0), 2, s.n_ff_exp as int, e, 0, 0),
    ]
}

fn sibling_ffn(out: &mut Vec<LayoutSpec>, p: &str, s: &Shape)
    ensures
        table::sound(old(out)@) ==> table::sound(final(out)@),
        table::rows(final(out)@) == table::rows(old(out)@) + sibling_ffn_rows(*s, p@),
{
    let e: u64 = s.n_embd as u64;
    let hc_dim: u64 = product(s.n_embd, s.n_hc);
    let hc_mix: u64 = mix_width(s.n_hc);
    put(out, p, "hc_ffn_fn.weight", TypeClass::Plain, 2, [hc_dim, hc_mix, 0, 0]);
    put(out, p, "hc_ffn_scale.weight", TypeClass::Exact(T_F32), 1, [3, 0, 0, 0]);
    put(out, p, "hc_ffn_base.weight", TypeClass::Exact(T_F32), 1, [hc_mix, 0, 0, 0]);
    put(out, p, "ffn_norm.weight", TypeClass::Exact(T_F32), 1, [e, 0, 0, 0]);
    put(out, p, "ffn_gate_inp.weight", TypeClass::Plain, 2, [e, s.n_expert as u64, 0, 0]);
    put(out, p, "exp_probs_b.bias", TypeClass::Exact(T_F32), 1, [s.n_expert as u64, 0, 0, 0]);
    put(out, p, "ffn_gate_exps.weight", TypeClass::Routed, 3, [e, s.n_ff_exp as u64, s.n_expert as u64, 0]);
    put(out, p, "ffn_up_exps.weight", TypeClass::Routed, 3, [e, s.n_ff_exp as u64, s.n_expert as u64, 0]);
    put(out, p, "ffn_down_exps.weight", TypeClass::Routed, 3, [s.n_ff_exp as u64, e, s.n_expert as u64, 0]);
    put(out, p, "ffn_gate_shexp.weight", TypeClass::Exact(T_Q8_0), 2, [e, s.n_ff_exp as u64, 0, 0]);
    put(out, p, "ffn_up_shexp.weight", TypeClass::Exact(T_Q8_0), 2, [e, s.n_ff_exp as u64, 0, 0]);
    put(out, p, "ffn_down_shexp.weight", TypeClass::Exact(T_Q8_0), 2, [s.n_ff_exp as u64, e, 0, 0]);
}

/// The tensors of a sibling block at `p`.
pub open spec fn deepseek_block_rows(s: Shape, p: Seq<char>) -> Seq<Row> {
    sibling_attn_rows(s, p) + sibling_ffn_rows(s, p)
}

fn deepseek_block(out: &mut Vec<LayoutSpec>, p: &str, s: &Shape)
    requires
        deepseek_fits(*s),
    ensures
        table::sound(old(out)@) ==> table::sound(final(out)@),
        table::rows(final(out)@) == table::rows(old(out)@) + deepseek_block_rows(*s, p@),
{
    sibling_attn(out, p, s);
    sibling_ffn(out, p, s);
}

/// The head of the multi-token-prediction sibling.
pub open spec fn mtp_head_rows(s: Shape) -> Seq<Row> {
    let e: int = s.n_embd as int;
    let hc: int = s.n_hc as int;
    let hc_dim: int = s.n_embd * s.n_hc;
    seq![
        table::row("mtp.0.hc_head_base.weight"@, TypeClass::Exact(T_F32), 1, hc, 0, 0, 0),
        table::row("mtp.0.hc_head_fn.weight"@, TypeClass::Plain, 2, hc_dim, hc, 0, 0),
        table::row("mtp.0.hc_head_scale.weight"@, TypeClass::Exact(T_F32), 1, 1, 0, 0, 0),
        table::row("mtp.0.e_proj.weight"@, TypeClass::Exact(T_Q8_0), 2, e, e, 0, 0),
        table::row("mtp.0.h_proj.weight"@, TypeClass::Exact(T_Q8_0), 2, e, e, 0, 0),
        table::row("mtp.0.enorm.weight"@, TypeClass::Exact(T_F32), 1, e, 0, 0, 0),
        table::row("mtp.0.hnorm.weight"@, TypeClass::Exact(T_F32), 1, e, 0, 0, 0),
        table::row("mtp.0.norm.weight"@, TypeClass::Exact(T_F32), 1, e, 0, 0, 0),
    ]
}

fn mtp_head(out: &mut Vec<LayoutSpec>, s: &Shape)
    ensures
        table::sound(old(out)@) ==> table::sound(final(out)@),
        table::rows(final(out)@) == table::rows(old(out)@) + mtp_head_rows(*s),
{
    let e: u64 = s.n_embd as u64;
    let hc: u64 = s.n_hc as u64;
    let hc_dim: u64 = product(s.n_embd, s.n_hc);
    put_top(out, "mtp.0.hc_head_base.weight", TypeClass::Exact(T_F32), 1, [hc, 0, 0, 0]);
    put_top(out, "mtp.0.hc_head_fn.weight", TypeClass::Plain, 2, [hc_dim, hc, 0, 0]);
    put_top(out, "mtp.0.hc_head_scale.weight", TypeClass::Exact(T_F32), 1, [1, 0, 0, 0]);
    put_top(out, "mtp.0.e_proj.weight", TypeClass::Exact(T_Q8_0), 2, [e, e, 0, 0]);
    put_top(out, "mtp.0.h_proj.weight", TypeClass::Exact(T_Q8_0), 2, [e, e, 0, 0]);
    put_top(out, "mtp.0.enorm.weight", TypeClass::Exact(T_F32), 1, [e, 0, 0, 0]);
    put_top(out, "mtp.0.hnorm.weight", TypeClass::Exact(T_F32), 1, [e, 0, 0, 0]);
    put_top(out, "mtp.0.norm.weight", TypeClass::Exact(T_F32), 1, [e, 0, 0, 0]);
}

/// The table of the multi-token-prediction sibling.
pub open spec fn mtp_rows(s: Shape) -> Seq<Row> {
    mtp_head_rows(s) + deepseek_block_rows(s, "mtp.0."@)
}

/// The expected tensors of the multi-token-prediction sibling.
pub fn expected_mtp_layouts(s: &Shape) -> (out: Vec<LayoutSpec>)
    requires
        deepseek_fits(*s),
    ensures
        table::sound(out@),
        table::rows(out@) == mtp_rows(*s),
{
    let mut out: Vec<LayoutSpec> = Vec::new();
    mtp_head(&mut out, s);
    deepseek_block(&mut out, "mtp.0.", s);
    out
}

/// The head of the DSpark drafter.
pub open spec fn dspark_head_rows(s: Shape, markov_rank: u32) -> Seq<Row> {
    let e: int = s.n_embd as int;
    let hc: int = s.n_hc as int;
    let hc_dim: int = s.n_embd * s.n_hc;
    let rank: int = markov_rank as int;
    seq![
        table::row("dspark.main_proj.weight"@, TypeClass::Exact(T_Q8_0), 2, 3 * e, e, 0, 0),
        table::row("dspark.main_norm.weight"@, TypeClass::Exact(T_F32), 1, e, 0, 0, 0),
        table::row("dspark.markov_w1.weight"@, TypeClass::Exact(T_F16), 2, rank, s.n_vocab as int, 0, 0),
        table::row("dspark.markov_w2.weight"@, TypeClass::Exact(T_F16), 2, rank, s.n_vocab as int, 0, 0),
        table::row("dspark.conf_proj.weight"@, TypeClass::Exact(T_F32), 2, e + rank, 1, 0, 0),
        table::row("dspark.hc_head_fn.weight"@, TypeClass::Plain, 2, hc_dim, hc, 0, 0),
        table::row("dspark.hc_head_base.weight"@, TypeClass::Exact(T_F32), 1, hc, 0, 0, 0),
        table::row("dspark.hc_head_scale.weight"@, TypeClass::Exact(T_F32), 1, 1, 0, 0, 0),
        table::row("dspark.norm.weight"@, TypeClass::Exact(T_F32), 1, e, 0, 0, 0),
    ]
}

fn dspark_head(out: &mut Vec<LayoutSpec>, s: &Shape, markov_rank: u32)
    ensures
        table::sound(old(out)@) ==> table::sound(final(out)@),
        table::rows(final(out)@) == table::rows(old(out)@) + dspark_head_rows(*s, markov_rank),
{
    let e: u64 = s.n_embd as u64;
    let hc: u64 = s.n_hc as u64;
    let hc_dim: u64 = product(s.n_embd, s.n_hc);
    let rank: u64 = markov_rank as u64;
    put_top(out, "dspark.main_proj.weight", TypeClass::Exact(T_Q8_0), 2, [3 * e, e, 0, 0]);
    put_top(out, "dspark.main_norm.weight", TypeClass::Exact(T_F32), 1, [e, 0, 0, 0]);
    put_top(out, "dspark.markov_w1.weight", TypeClass::Exact(T_F16), 2, [rank, s.n_vocab as u64, 0, 0]);
    put_top(out, "dspark.markov_w2.weight", TypeClass::Exact(T_F16), 2, [rank, s.n_vocab as u64, 0, 0]);
    put_top(out, "dspark.conf_proj.weight", TypeClass::Exact(T_F32), 2, [e + rank, 1, 0, 0]);
    put_top(out, "dspark.hc_head_fn.weight", TypeClass::Plain, 2, [hc_dim, hc, 0, 0]);
    put_top(out, "dspark.hc_head_base.weight", TypeClass::Exact(T_F32), 1, [hc, 0, 0, 0]);
    put_top(out, "dspark.hc_head_scale.weight", TypeClass::Exact(T_F32), 1, [1, 0, 0, 0]);
    put_top(out, "dspark.norm.weight", TypeClass::Exact(T_F32), 1, [e, 0, 0, 0]);
}

/// The rows of the first `n` drafter blocks.
pub open spec fn dspark_blocks(s: Shape, n: nat) -> Seq<Row>
    decreases n,
{
    if n == 0 {
        seq![]
    } else {
        dspark_blocks(s, (n - 1) as nat) + deepseek_block_rows(
            s,
            table::block_prefix("dspark."@, (n - 1) as nat),
        )
    }
}

/// The table of a DSpark drafter of `n_blocks` blocks.
pub open spec fn dspark_rows(s: Shape, markov_rank: u32, n_blocks: u32) -> Seq<Row> {
    dspark_head_rows(s, markov_rank) + dspark_blocks(s, n_blocks as nat)
}

/// The expected tensors of a DSpark drafter of `n_blocks` blocks.
pub fn expected_dspark_layouts(s: &Shape, markov_rank: u32, n_blocks: u32) -> (out: Vec<LayoutSpec>)
    requires
        n_blocks > 0 ==> deepseek_fits(*s),
    ensures
        table::sound(out@),
        table::rows(out@) == dspark_rows(*s, markov_rank, n_blocks),
{
    let mut out: Vec<LayoutSpec> = Vec::new();
    dspark_head(&mut out, s, markov_rank);
    let mut il: u32 = 0;
    while il < n_blocks
        invariant
            il <= n_blocks,
            n_blocks > 0 ==> deepseek_fits(*s),
            table::sound(out@),
            table::rows(out@) == dspark_head_rows(*s, markov_rank) + dspark_blocks(*s, il as nat),
        decreases n_blocks - il,
    {
        let p = block_name("dspark.", il);
        deepseek_block(&mut out, p.as_str(), s);
        il += 1;
    }
    out
}

} // verus!
