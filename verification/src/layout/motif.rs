//! The layout table of the motif family.

use crate::layout::common;
use crate::layout::common::q8_head;
use crate::layout::table;
use crate::layout::table::{block_name, joined, product, put, put_top, span, LayoutSpec, Row, TypeClass, T_F32, T_IQ2_XXS, T_Q2_K, T_Q8_0};
use crate::shape::Shape;
use vstd::prelude::*;

verus! {

/// The multi-head hyper-connection at `p`.
pub open spec fn motif_mhc_rows(s: Shape, p: Seq<char>) -> Seq<Row> {
    let hc: int = s.n_hc as int;
    let hc_dim: int = s.n_embd * s.n_hc;
    let hc_sq: int = s.n_hc * s.n_hc;
    seq![
        table::row(p + ".rms_norm.weight"@, TypeClass::Exact(T_F32), 1, hc_dim, 0, 0, 0),
        table::row(p + ".proj_pre.weight"@, TypeClass::MotifProj, 2, hc_dim, hc, 0, 0),
        table::row(p + ".proj_post.weight"@, TypeClass::MotifProj, 2, hc_dim, hc, 0, 0),
        table::row(p + ".proj_res.weight"@, TypeClass::MotifProj, 2, hc_dim, hc_sq, 0, 0),
        table::row(p + ".alpha_pre"@, TypeClass::Exact(T_F32), 1, 1, 0, 0, 0),
        table::row(p + ".alpha_post"@, TypeClass::Exact(T_F32), 1, 1, 0, 0, 0),
        table::row(p + ".alpha_res"@, TypeClass::Exact(T_F32), 1, 1, 0, 0, 0),
        table::row(p + ".bias_pre"@, TypeClass::Exact(T_F32), 1, hc, 0, 0, 0),
        table::row(p + ".bias_post"@, TypeClass::Exact(T_F32), 1, hc, 0, 0, 0),
        table::row(p + ".bias_res"@, TypeClass::Exact(T_F32), 2, hc, hc, 0, 0),
    ]
}

fn motif_mhc(out: &mut Vec<LayoutSpec>, p: &str, s: &Shape)
    ensures
        table::sound(old(out)@) ==> table::sound(final(out)@),
        table::rows(final(out)@) == table::rows(old(out)@) + motif_mhc_rows(*s, p@),
{
    let hc: u64 = s.n_hc as u64;
    let hc_dim: u64 = product(s.n_embd, s.n_hc);
    let hc_sq: u64 = product(s.n_hc, s.n_hc);
    put(out, p, ".rms_norm.weight", TypeClass::Exact(T_F32), 1, [hc_dim, 0, 0, 0]);
    put(out, p, ".proj_pre.weight", TypeClass::MotifProj, 2, [hc_dim, hc, 0, 0]);
    put(out, p, ".proj_post.weight", TypeClass::MotifProj, 2, [hc_dim, hc, 0, 0]);
    put(out, p, ".proj_res.weight", TypeClass::MotifProj, 2, [hc_dim, hc_sq, 0, 0]);
    put(out, p, ".alpha_pre", TypeClass::Exact(T_F32), 1, [1, 0, 0, 0]);
    put(out, p, ".alpha_post", TypeClass::Exact(T_F32), 1, [1, 0, 0, 0]);
    put(out, p, ".alpha_res", TypeClass::Exact(T_F32), 1, [1, 0, 0, 0]);
    put(out, p, ".bias_pre", TypeClass::Exact(T_F32), 1, [hc, 0, 0, 0]);
    put(out, p, ".bias_post", TypeClass::Exact(T_F32), 1, [hc, 0, 0, 0]);
    put(out, p, ".bias_res", TypeClass::Exact(T_F32), 2, [hc, hc, 0, 0]);
}

/// The attention widths of the motif family are defined and fit a word.
pub open spec fn motif_fits(s: Shape) -> bool {
    &&& s.n_noise_head <= s.n_head
    &&& s.n_rot <= s.n_head_dim
    &&& s.n_head_kv * ((s.n_head_dim - s.n_rot) + s.n_value_dim) <= u64::MAX
}

/// Whether the attention widths of the motif family are defined.
pub fn motif_defined(s: &Shape) -> (r: bool)
    ensures
        r == motif_fits(*s),
{
    if s.n_noise_head > s.n_head || s.n_rot > s.n_head_dim {
        return false;
    }
    let w: u64 = (s.n_head_dim - s.n_rot) as u64 + s.n_value_dim as u64;
    (s.n_head_kv as u64).checked_mul(w).is_some()
}

/// The attention tensors at `p`, without the norm in front.
pub open spec fn motif_attn_rows(s: Shape, p: Seq<char>) -> Seq<Row> {
    let e: int = s.n_embd as int;
    let q_dim: int = s.n_head * s.n_head_dim;
    let signal_heads: int = s.n_head - s.n_noise_head;
    let signal_value_dim: int = (s.n_head - s.n_noise_head) * s.n_value_dim;
    let kv_b_dim: int = s.n_head_kv * ((s.n_head_dim - s.n_rot) + s.n_value_dim);
    seq![
        table::row(p + "attn_q_a.weight"@, TypeClass::Exact(T_Q8_0), 2, e, s.n_lora_q as int, 0, 0),
        table::row(p + "attn_q_a_norm.weight"@, TypeClass::Exact(T_F32), 1, s.n_lora_q as int, 0, 0, 0),
        table::row(p + "attn_q_b.weight"@, TypeClass::Exact(T_Q8_0), 2, s.n_lora_q as int, q_dim, 0, 0),
        table::row(p + "attn_q_gate.weight"@, TypeClass::Exact(T_Q8_0), 2, s.n_lora_q as int, signal_value_dim, 0, 0),
        table::row(p + "attn_kv_a.weight"@, TypeClass::Exact(T_Q8_0), 2, e, s.n_kv_lora + s.n_rot, 0, 0),
        table::row(p + "attn_kv_a_norm.weight"@, TypeClass::Exact(T_F32), 1, s.n_kv_lora as int, 0, 0, 0),
        table::row(p + "attn_kv_b.weight"@, TypeClass::Exact(T_Q8_0), 2, s.n_kv_lora as int, kv_b_dim, 0, 0),
        table::row(p + "attn_lambda.weight"@, TypeClass::Exact(T_Q8_0), 2, e, signal_heads, 0, 0),
        table::row(p + "attn_output.weight"@, TypeClass::Exact(T_Q8_0), 2, signal_value_dim, e, 0, 0),
    ]
}

fn motif_attn(out: &mut Vec<LayoutSpec>, p: &str, s: &Shape)
    requires
        motif_fits(*s),
    ensures
        table::sound(old(out)@) ==> table::sound(final(out)@),
        table::rows(final(out)@) == table::rows(old(out)@) + motif_attn_rows(*s, p@),
{
    let e: u64 = s.n_embd as u64;
    let q_dim: u64 = product(s.n_head, s.n_head_dim);
    let signal_heads: u64 = (s.n_head - s.n_noise_head) as u64;
    let signal_value_dim: u64 = product(s.n_head - s.n_noise_head, s.n_value_dim);
    let kv_b_dim: u64 = span(s.n_head_kv, (s.n_head_dim - s.n_rot) as u64 + s.n_value_dim as u64);
    put(out, p, "attn_q_a.weight", TypeClass::Exact(T_Q8_0), 2, [e, s.n_lora_q as u64, 0, 0]);
    put(out, p, "attn_q_a_norm.weight", TypeClass::Exact(T_F32), 1, [s.n_lora_q as u64, 0, 0, 0]);
    put(out, p, "attn_q_b.weight", TypeClass::Exact(T_Q8_0), 2, [s.n_lora_q as u64, q_dim, 0, 0]);
    put(out, p, "attn_q_gate.weight", TypeClass::Exact(T_Q8_0), 2, [s.n_lora_q as u64, signal_value_dim, 0, 0]);
    put(out, p, "attn_kv_a.weight", TypeClass::Exact(T_Q8_0), 2, [e, s.n_kv_lora as u64 + s.n_rot as u64, 0, 0]);
    put(out, p, "attn_kv_a_norm.weight", TypeClass::Exact(T_F32), 1, [s.n_kv_lora as u64, 0, 0, 0]);
    put(out, p, "attn_kv_b.weight", TypeClass::Exact(T_Q8_0), 2, [s.n_kv_lora as u64, kv_b_dim, 0, 0]);
    put(out, p, "attn_lambda.weight", TypeClass::Exact(T_Q8_0), 2, [e, signal_heads, 0, 0]);
    put(out, p, "attn_output.weight", TypeClass::Exact(T_Q8_0), 2, [signal_value_dim, e, 0, 0]);
}

pub open spec fn motif_norm_row(s: Shape, p: Seq<char>) -> Row {
    table::row(p + "attn_norm.weight"@, TypeClass::Exact(T_F32), 1, s.n_embd as int, 0, 0, 0)
}

/// The attention tensors at `p`, with the norm in front where `include_norm`.
pub open spec fn motif_attention_rows(s: Shape, p: Seq<char>, include_norm: bool) -> Seq<Row> {
    if include_norm {
        seq![motif_norm_row(s, p)] + motif_attn_rows(s, p)
    } else {
        motif_attn_rows(s, p)
    }
}

fn motif_attention(out: &mut Vec<LayoutSpec>, p: &str, s: &Shape, include_norm: bool)
    requires
        motif_fits(*s),
    ensures
        table::sound(old(out)@) ==> table::sound(final(out)@),
        table::rows(final(out)@) == table::rows(old(out)@) + motif_attention_rows(*s, p@, include_norm),
{
    if include_norm {
        put(out, p, "attn_norm.weight", TypeClass::Exact(T_F32), 1, [s.n_embd as u64, 0, 0, 0]);
    }
    motif_attn(out, p, s);
}

/// The dense feed-forward tensors at `p`.
pub open spec fn motif_dense_ffn_rows(s: Shape, p: Seq<char>) -> Seq<Row> {
    let e: int = s.n_embd as int;
    let ff: int = s.n_ff_dense as int;
    seq![
        table::row(p + "ffn_gate.weight"@, TypeClass::Exact(T_Q8_0), 2, e, ff, 0, 0),
        table::row(p + "ffn_up.weight"@, TypeClass::Exact(T_Q8_0), 2, e, ff, 0, 0),
        table::row(p + "ffn_down.weight"@, TypeClass::Exact(T_Q8_0), 2, ff, e, 0, 0),
        table::row(p + "ffn_polynorm.weight"@, TypeClass::Exact(T_F32), 1, 3, 0, 0, 0),
        table::row(p + "ffn_polynorm.bias"@, TypeClass::Exact(T_F32), 1, 1, 0, 0, 0),
    ]
}

fn motif_dense_ffn(out: &mut Vec<LayoutSpec>, p: &str, s: &Shape)
    ensures
        table::sound(old(out)@) ==> table::sound(final(out)@),
        table::rows(final(out)@) == table::rows(old(out)@) + motif_dense_ffn_rows(*s, p@),
{
    let e: u64 = s.n_embd as u64;
    let ff: u64 = s.n_ff_dense as u64;
    put(out, p, "ffn_gate.weight", TypeClass::Exact(T_Q8_0), 2, [e, ff, 0, 0]);
    put(out, p, "ffn_up.weight", TypeClass::Exact(T_Q8_0), 2, [e, ff, 0, 0]);
    put(out, p, "ffn_down.weight", TypeClass::Exact(T_Q8_0), 2, [ff, e, 0, 0]);
    put(out, p, "ffn_polynorm.weight", TypeClass::Exact(T_F32), 1, [3, 0, 0, 0]);
    put(out, p, "ffn_polynorm.bias", TypeClass::Exact(T_F32), 1, [1, 0, 0, 0]);
}

/// The expert feed-forward tensors at `p`.
pub open spec fn motif_expert_ffn_rows(s: Shape, p: Seq<char>) -> Seq<Row> {
    let e: int = s.n_embd as int;
    seq![
        table::row(p + "ffn_gate_inp.weight"@, TypeClass::Exact(T_F32), 2, e, s.n_expert as int, 0, 0),
        table::row(p + "exp_probs_b.bias"@, TypeClass::Exact(T_F32), 1, s.n_expert as int, 0, 0, 0),
        table::row(p + "ffn_gate_exps.weight"@, TypeClass::Exact(T_IQ2_XXS), 3, e, s.n_ff_exp as int, s.n_expert as int, 0),
        table::row(p + "ffn_up_exps.weight"@, TypeClass::Exact(T_IQ2_XXS), 3, e, s.n_ff_exp as int, s.n_expert as int, 0),
        table::row(p + "ffn_down_exps.weight"@, TypeClass::Exact(T_Q2_K), 3, s.n_ff_exp as int, e, s.n_expert as int, 0),
        table::row(p + "ffn_polynorm_exps.weight"@, TypeClass::Exact(T_F32), 2, 3, s.n_expert as int, 0, 0),
        table::row(p + "ffn_polynorm_exps.bias"@, TypeClass::Exact(T_F32), 2, 1, s.n_expert as int, 0, 0),
        table::row(p + "ffn_gate_shexp.weight"@, TypeClass::Exact(T_Q8_0), 2, e, s.n_ff_exp as int, 0, 0),
        table::row(p + "ffn_up_shexp.weight"@, TypeClass::Exact(T_Q8_0), 2, e, s.n_ff_exp as int, 0, 0),
        table::row(p + "ffn_down_shexp.weight"@, TypeClass::Exact(T_Q8_0), 2, s.n_ff_exp as int, e, 0, 0),
        table::row(p + "ffn_polynorm_shexp.weight"@, TypeClass::Exact(T_F32), 1, 3, 0, 0, 0),
        table::row(p + "ffn_polynorm_shexp.bias"@, TypeClass::Exact(T_F32), 1, 1, 0, 0, 0),
    ]
}

fn motif_expert_ffn(out: &mut Vec<LayoutSpec>, p: &str, s: &Shape)
    ensures
        table::sound(old(out)@) ==> table::sound(final(out)@),
        table::rows(final(out)@) == table::rows(old(out)@) + motif_expert_ffn_rows(*s, p@),
{
    let e: u64 = s.n_embd as u64;
    put(out, p, "ffn_gate_inp.weight", TypeClass::Exact(T_F32), 2, [e, s.n_expert as u64, 0, 0]);
    put(out, p, "exp_probs_b.bias", TypeClass::Exact(T_F32), 1, [s.n_expert as u64, 0, 0, 0]);
    put(out, p, "ffn_gate_exps.weight", TypeClass::Exact(T_IQ2_XXS), 3, [e, s.n_ff_exp as u64, s.n_expert as u64, 0]);
    put(out, p, "ffn_up_exps.weight", TypeClass::Exact(T_IQ2_XXS), 3, [e, s.n_ff_exp as u64, s.n_expert as u64, 0]);
    put(out, p, "ffn_down_exps.weight", TypeClass::Exact(T_Q2_K), 3, [s.n_ff_exp as u64, e, s.n_expert as u64, 0]);
    put(out, p, "ffn_polynorm_exps.weight", TypeClass::Exact(T_F32), 2, [3, s.n_expert as u64, 0, 0]);
    put(out, p, "ffn_polynorm_exps.bias", TypeClass::Exact(T_F32), 2, [1, s.n_expert as u64, 0, 0]);
    put(out, p, "ffn_gate_shexp.weight", TypeClass::Exact(T_Q8_0), 2, [e, s.n_ff_exp as u64, 0, 0]);
    put(out, p, "ffn_up_shexp.weight", TypeClass::Exact(T_Q8_0), 2, [e, s.n_ff_exp as u64, 0, 0]);
    put(out, p, "ffn_down_shexp.weight", TypeClass::Exact(T_Q8_0), 2, [s.n_ff_exp as u64, e, 0, 0]);
    put(out, p, "ffn_polynorm_shexp.weight", TypeClass::Exact(T_F32), 1, [3, 0, 0, 0]);
    put(out, p, "ffn_polynorm_shexp.bias", TypeClass::Exact(T_F32), 1, [1, 0, 0, 0]);
}

/// The head of the prediction block.
pub open spec fn motif_mtp_head_rows(s: Shape) -> Seq<Row> {
    let e: int = s.n_embd as int;
    seq![
        table::row("mtp.0.embed_norm.weight"@, TypeClass::Exact(T_F32), 1, e, 0, 0, 0),
        table::row("mtp.0.input_layernorm.weight"@, TypeClass::Exact(T_F32), 1, e, 0, 0, 0),
        table::row("mtp.0.input_proj.weight"@, TypeClass::Exact(T_Q8_0), 2, 2 * e, e, 0, 0),
        table::row("mtp.0.final_layernorm.weight"@, TypeClass::Exact(T_F32), 1, e, 0, 0, 0),
    ]
}

fn motif_mtp_head(out: &mut Vec<LayoutSpec>, s: &Shape)
    ensures
        table::sound(old(out)@) ==> table::sound(final(out)@),
        table::rows(final(out)@) == table::rows(old(out)@) + motif_mtp_head_rows(*s),
{
    let e: u64 = s.n_embd as u64;
    put_top(out, "mtp.0.embed_norm.weight", TypeClass::Exact(T_F32), 1, [e, 0, 0, 0]);
    put_top(out, "mtp.0.input_layernorm.weight", TypeClass::Exact(T_F32), 1, [e, 0, 0, 0]);
    put_top(out, "mtp.0.input_proj.weight", TypeClass::Exact(T_Q8_0), 2, [2 * e, e, 0, 0]);
    put_top(out, "mtp.0.final_layernorm.weight", TypeClass::Exact(T_F32), 1, [e, 0, 0, 0]);
}

/// The rows of layer `il`.
pub open spec fn motif3_layer_rows(s: Shape, il: nat) -> Seq<Row> {
    let p = table::block_prefix("blk."@, il);
    motif_mhc_rows(s, p + "mhc_attn"@) + motif_attention_rows(s, p, true)
        + motif_mhc_rows(s, p + "mhc_ffn"@)
        + seq![table::row(p + "ffn_norm.weight"@, TypeClass::Exact(T_F32), 1, s.n_embd as int, 0, 0, 0)]
        + if il < s.n_leading_dense {
        motif_dense_ffn_rows(s, p)
    } else {
        motif_expert_ffn_rows(s, p)
    }
}

/// The rows of the first `n` layers.
pub open spec fn motif3_layers(s: Shape, n: nat) -> Seq<Row>
    decreases n,
{
    if n == 0 {
        seq![]
    } else {
        motif3_layers(s, (n - 1) as nat) + motif3_layer_rows(s, (n - 1) as nat)
    }
}

/// The table of the motif family: head, layers, prediction block.
pub open spec fn motif3_rows(s: Shape) -> Seq<Row> {
    common::q8_head_rows(s) + motif3_layers(s, s.n_layer as nat) + motif_mtp_head_rows(s)
        + motif_attention_rows(s, "mtp.0."@, false) + seq![
        table::row(
            "mtp.0.post_attention_layernorm.weight"@,
            TypeClass::Exact(T_F32),
            1,
            s.n_embd as int,
            0,
            0,
            0,
        ),
    ] + motif_dense_ffn_rows(s, "mtp.0."@)
}

fn motif3_layer(out: &mut Vec<LayoutSpec>, s: &Shape, il: u32)
    requires
        motif_fits(*s),
    ensures
        table::sound(old(out)@) ==> table::sound(final(out)@),
        table::rows(final(out)@) == table::rows(old(out)@) + motif3_layer_rows(*s, il as nat),
{
    let p = block_name("blk.", il);
    let attn = joined(p.as_str(), "mhc_attn");
    let ffn = joined(p.as_str(), "mhc_ffn");
    motif_mhc(out, attn.as_str(), s);
    motif_attention(out, p.as_str(), s, true);
    motif_mhc(out, ffn.as_str(), s);
    put(out, p.as_str(), "ffn_norm.weight", TypeClass::Exact(T_F32), 1, [s.n_embd as u64, 0, 0, 0]);
    if il < s.n_leading_dense {
        motif_dense_ffn(out, p.as_str(), s);
    } else {
        motif_expert_ffn(out, p.as_str(), s);
    }
}

/// The expected tensors of a motif model.
pub fn expected_motif3(s: &Shape) -> (out: Vec<LayoutSpec>)
    requires
        motif_fits(*s),
    ensures
        table::sound(out@),
        table::rows(out@) == motif3_rows(*s),
{
    let mut out: Vec<LayoutSpec> = Vec::new();
    q8_head(&mut out, s);
    let mut il: u32 = 0;
    while il < s.n_layer
        invariant
            il <= s.n_layer,
            motif_fits(*s),
            table::sound(out@),
            table::rows(out@) == common::q8_head_rows(*s) + motif3_layers(*s, il as nat),
        decreases s.n_layer - il,
    {
        motif3_layer(&mut out, s, il);
        il += 1;
    }
    motif_mtp_head(&mut out, s);
    motif_attention(&mut out, "mtp.0.", s, false);
    put_top(
        &mut out,
        "mtp.0.post_attention_layernorm.weight",
        TypeClass::Exact(T_F32),
        1,
        [s.n_embd as u64, 0, 0, 0],
    );
    motif_dense_ffn(&mut out, "mtp.0.", s);
    out
}

} // verus!
