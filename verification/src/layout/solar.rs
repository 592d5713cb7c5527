//! The layout table of the Solar family.

use crate::layout::common;
use crate::layout::common::q8_head;
use crate::layout::table;
use crate::layout::table::{block_name, product, put, LayoutSpec, Row, TypeClass, T_F32, T_Q8_0};
use crate::shape::Shape;
use vstd::prelude::*;

verus! {

/// The norms at `p`.
pub open spec fn solar_norms_rows(s: Shape, p: Seq<char>) -> Seq<Row> {
    let e: int = s.n_embd as int;
    seq![
        table::row(p + "attn_norm.weight"@, TypeClass::Exact(T_F32), 1, e, 0, 0, 0),
        table::row(p + "ffn_norm.weight"@, TypeClass::Exact(T_F32), 1, e, 0, 0, 0),
    ]
}

fn solar_norms(out: &mut Vec<LayoutSpec>, p: &str, s: &Shape)
    ensures
        table::sound(old(out)@) ==> table::sound(final(out)@),
        table::rows(final(out)@) == table::rows(old(out)@) + solar_norms_rows(*s, p@),
{
    let e: u64 = s.n_embd as u64;
    put(out, p, "attn_norm.weight", TypeClass::Exact(T_F32), 1, [e, 0, 0, 0]);
    put(out, p, "ffn_norm.weight", TypeClass::Exact(T_F32), 1, [e, 0, 0, 0]);
}

/// The tensors at `p` of a grouped-query attention layer.
pub open spec fn solar_gqa_rows(s: Shape, p: Seq<char>) -> Seq<Row> {
    let e: int = s.n_embd as int;
    let q_dim: int = s.n_head * s.n_head_dim;
    let kv_dim: int = s.n_head_kv * s.n_head_dim;
    seq![
        table::row(p + "attn_q.weight"@, TypeClass::Exact(T_Q8_0), 2, e, q_dim, 0, 0),
        table::row(p + "attn_k.weight"@, TypeClass::Exact(T_Q8_0), 2, e, kv_dim, 0, 0),
        table::row(p + "attn_v.weight"@, TypeClass::Exact(T_Q8_0), 2, e, kv_dim, 0, 0),
        table::row(p + "attn_gate.weight"@, TypeClass::Exact(T_Q8_0), 2, e, q_dim, 0, 0),
        table::row(p + "attn_output.weight"@, TypeClass::Exact(T_Q8_0), 2, q_dim, e, 0, 0),
    ]
}

fn solar_gqa(out: &mut Vec<LayoutSpec>, p: &str, s: &Shape)
    ensures
        table::sound(old(out)@) ==> table::sound(final(out)@),
        table::rows(final(out)@) == table::rows(old(out)@) + solar_gqa_rows(*s, p@),
{
    let e: u64 = s.n_embd as u64;
    let q_dim: u64 = product(s.n_head, s.n_head_dim);
    let kv_dim: u64 = product(s.n_head_kv, s.n_head_dim);
    put(out, p, "attn_q.weight", TypeClass::Exact(T_Q8_0), 2, [e, q_dim, 0, 0]);
    put(out, p, "attn_k.weight", TypeClass::Exact(T_Q8_0), 2, [e, kv_dim, 0, 0]);
    put(out, p, "attn_v.weight", TypeClass::Exact(T_Q8_0), 2, [e, kv_dim, 0, 0]);
    put(out, p, "attn_gate.weight", TypeClass::Exact(T_Q8_0), 2, [e, q_dim, 0, 0]);
    put(out, p, "attn_output.weight", TypeClass::Exact(T_Q8_0), 2, [q_dim, e, 0, 0]);
}

/// The tensors at `p` of a linear attention layer.
pub open spec fn solar_kda_rows(s: Shape, p: Seq<char>) -> Seq<Row> {
    let e: int = s.n_embd as int;
    let kda_dim: int = s.n_head * s.n_kda_head_dim;
    seq![
        table::row(p + "attn_q.weight"@, TypeClass::Exact(T_Q8_0), 2, e, kda_dim, 0, 0),
        table::row(p + "attn_k.weight"@, TypeClass::Exact(T_Q8_0), 2, e, kda_dim, 0, 0),
        table::row(p + "attn_v.weight"@, TypeClass::Exact(T_Q8_0), 2, e, kda_dim, 0, 0),
        table::row(p + "ssm_conv1d_q.weight"@, TypeClass::SolarConv, 3, s.n_ssm_conv as int, 1, kda_dim, 0),
        table::row(p + "ssm_conv1d_k.weight"@, TypeClass::SolarConv, 3, s.n_ssm_conv as int, 1, kda_dim, 0),
        table::row(p + "ssm_conv1d_v.weight"@, TypeClass::SolarConv, 3, s.n_ssm_conv as int, 1, kda_dim, 0),
        table::row(p + "ssm_f_a.weight"@, TypeClass::Exact(T_Q8_0), 2, e, s.n_kda_head_dim as int, 0, 0),
        table::row(p + "ssm_f_b.weight"@, TypeClass::Exact(T_Q8_0), 2, s.n_kda_head_dim as int, kda_dim, 0, 0),
        table::row(p + "ssm_beta.weight"@, TypeClass::Exact(T_Q8_0), 2, e, s.n_head as int, 0, 0),
        table::row(p + "ssm_a"@, TypeClass::SolarDecay, 2, 1, s.n_head as int, 0, 0),
        table::row(p + "ssm_dt.bias"@, TypeClass::Exact(T_F32), 1, kda_dim, 0, 0, 0),
        table::row(p + "ssm_g_a.weight"@, TypeClass::Exact(T_Q8_0), 2, e, s.n_kda_head_dim as int, 0, 0),
        table::row(p + "ssm_g_b.weight"@, TypeClass::Exact(T_Q8_0), 2, s.n_kda_head_dim as int, kda_dim, 0, 0),
        table::row(p + "ssm_norm.weight"@, TypeClass::Exact(T_F32), 1, s.n_kda_head_dim as int, 0, 0, 0),
        table::row(p + "attn_output.weight"@, TypeClass::Exact(T_Q8_0), 2, kda_dim, e, 0, 0),
    ]
}

fn solar_kda(out: &mut Vec<LayoutSpec>, p: &str, s: &Shape)
    ensures
        table::sound(old(out)@) ==> table::sound(final(out)@),
        table::rows(final(out)@) == table::rows(old(out)@) + solar_kda_rows(*s, p@),
{
    let e: u64 = s.n_embd as u64;
    let kda_dim: u64 = product(s.n_head, s.n_kda_head_dim);
    put(out, p, "attn_q.weight", TypeClass::Exact(T_Q8_0), 2, [e, kda_dim, 0, 0]);
    put(out, p, "attn_k.weight", TypeClass::Exact(T_Q8_0), 2, [e, kda_dim, 0, 0]);
    put(out, p, "attn_v.weight", TypeClass::Exact(T_Q8_0), 2, [e, kda_dim, 0, 0]);
    put(out, p, "ssm_conv1d_q.weight", TypeClass::SolarConv, 3, [s.n_ssm_conv as u64, 1, kda_dim, 0]);
    put(out, p, "ssm_conv1d_k.weight", TypeClass::SolarConv, 3, [s.n_ssm_conv as u64, 1, kda_dim, 0]);
    put(out, p, "ssm_conv1d_v.weight", TypeClass::SolarConv, 3, [s.n_ssm_conv as u64, 1, kda_dim, 0]);
    put(out, p, "ssm_f_a.weight", TypeClass::Exact(T_Q8_0), 2, [e, s.n_kda_head_dim as u64, 0, 0]);
    put(out, p, "ssm_f_b.weight", TypeClass::Exact(T_Q8_0), 2, [s.n_kda_head_dim as u64, kda_dim, 0, 0]);
    put(out, p, "ssm_beta.weight", TypeClass::Exact(T_Q8_0), 2, [e, s.n_head as u64, 0, 0]);
    put(out, p, "ssm_a", TypeClass::SolarDecay, 2, [1, s.n_head as u64, 0, 0]);
    put(out, p, "ssm_dt.bias", TypeClass::Exact(T_F32), 1, [kda_dim, 0, 0, 0]);
    put(out, p, "ssm_g_a.weight", TypeClass::Exact(T_Q8_0), 2, [e, s.n_kda_head_dim as u64, 0, 0]);
    put(out, p, "ssm_g_b.weight", TypeClass::Exact(T_Q8_0), 2, [s.n_kda_head_dim as u64, kda_dim, 0, 0]);
    put(out, p, "ssm_norm.weight", TypeClass::Exact(T_F32), 1, [s.n_kda_head_dim as u64, 0, 0, 0]);
    put(out, p, "attn_output.weight", TypeClass::Exact(T_Q8_0), 2, [kda_dim, e, 0, 0]);
}

/// The feed-forward tensors at `p`.
pub open spec fn solar_ffn_rows(s: Shape, p: Seq<char>) -> Seq<Row> {
    let e: int = s.n_embd as int;
    seq![
        table::row(p + "ffn_gate_inp.weight"@, TypeClass::Exact(T_F32), 2, e, s.n_expert as int, 0, 0),
        table::row(p + "exp_probs_b.bias"@, TypeClass::Exact(T_F32), 1, s.n_expert as int, 0, 0, 0),
        table::row(p + "ffn_gate_exps.weight"@, TypeClass::SolarGateUp, 3, e, s.n_ff_exp as int, s.n_expert as int, 0),
        table::row(p + "ffn_up_exps.weight"@, TypeClass::SolarGateUp, 3, e, s.n_ff_exp as int, s.n_expert as int, 0),
        table::row(p + "ffn_down_exps.weight"@, TypeClass::SolarDown, 3, s.n_ff_exp as int, e, s.n_expert as int, 0),
        table::row(p + "ffn_gate_shexp.weight"@, TypeClass::Exact(T_Q8_0), 2, e, s.n_ff_shexp as int, 0, 0),
        table::row(p + "ffn_up_shexp.weight"@, TypeClass::Exact(T_Q8_0), 2, e, s.n_ff_shexp as int, 0, 0),
        table::row(p + "ffn_down_shexp.weight"@, TypeClass::Exact(T_Q8_0), 2, s.n_ff_shexp as int, e, 0, 0),
    ]
}

fn solar_ffn(out: &mut Vec<LayoutSpec>, p: &str, s: &Shape)
    ensures
        table::sound(old(out)@) ==> table::sound(final(out)@),
        table::rows(final(out)@) == table::rows(old(out)@) + solar_ffn_rows(*s, p@),
{
    let e: u64 = s.n_embd as u64;
    put(out, p, "ffn_gate_inp.weight", TypeClass::Exact(T_F32), 2, [e, s.n_expert as u64, 0, 0]);
    put(out, p, "exp_probs_b.bias", TypeClass::Exact(T_F32), 1, [s.n_expert as u64, 0, 0, 0]);
    put(out, p, "ffn_gate_exps.weight", TypeClass::SolarGateUp, 3, [e, s.n_ff_exp as u64, s.n_expert as u64, 0]);
    put(out, p, "ffn_up_exps.weight", TypeClass::SolarGateUp, 3, [e, s.n_ff_exp as u64, s.n_expert as u64, 0]);
    put(out, p, "ffn_down_exps.weight", TypeClass::SolarDown, 3, [s.n_ff_exp as u64, e, s.n_expert as u64, 0]);
    put(out, p, "ffn_gate_shexp.weight", TypeClass::Exact(T_Q8_0), 2, [e, s.n_ff_shexp as u64, 0, 0]);
    put(out, p, "ffn_up_shexp.weight", TypeClass::Exact(T_Q8_0), 2, [e, s.n_ff_shexp as u64, 0, 0]);
    put(out, p, "ffn_down_shexp.weight", TypeClass::Exact(T_Q8_0), 2, [s.n_ff_shexp as u64, e, 0, 0]);
}

/// The rows of layer `il`.
pub open spec fn solar_layer_rows(s: Shape, il: nat) -> Seq<Row> {
    let p = table::block_prefix("blk."@, il);
    let attn = if s.layers@[il as int].gqa {
        solar_gqa_rows(s, p)
    } else {
        solar_kda_rows(s, p)
    };
    solar_norms_rows(s, p) + attn + solar_ffn_rows(s, p)
}

/// The rows of the first `n` layers.
pub open spec fn solar_layers(s: Shape, n: nat) -> Seq<Row>
    decreases n,
{
    if n == 0 {
        seq![]
    } else {
        solar_layers(s, (n - 1) as nat) + solar_layer_rows(s, (n - 1) as nat)
    }
}

/// The table of the Solar family: head and layers.
pub open spec fn solar_rows(s: Shape) -> Seq<Row> {
    common::q8_head_rows(s) + solar_layers(s, s.n_layer as nat)
}

fn solar_layer(out: &mut Vec<LayoutSpec>, s: &Shape, il: u32)
    requires
        s.well_formed(),
        il < s.n_layer,
    ensures
        table::sound(old(out)@) ==> table::sound(final(out)@),
        table::rows(final(out)@) == table::rows(old(out)@) + solar_layer_rows(*s, il as nat),
{
    let p = block_name("blk.", il);
    solar_norms(out, p.as_str(), s);
    if s.layers[il as usize].gqa {
        solar_gqa(out, p.as_str(), s);
    } else {
        solar_kda(out, p.as_str(), s);
    }
    solar_ffn(out, p.as_str(), s);
}

/// The expected tensors of a Solar model.
pub fn expected_solar(s: &Shape) -> (out: Vec<LayoutSpec>)
    requires
        s.well_formed(),
    ensures
        table::sound(out@),
        table::rows(out@) == solar_rows(*s),
{
    let mut out: Vec<LayoutSpec> = Vec::new();
    q8_head(&mut out, s);
    let mut il: u32 = 0;
    while il < s.n_layer
        invariant
            il <= s.n_layer,
            s.well_formed(),
            table::sound(out@),
            table::rows(out@) == common::q8_head_rows(*s) + solar_layers(*s, il as nat),
        decreases s.n_layer - il,
    {
        solar_layer(&mut out, s, il);
        il += 1;
    }
    out
}

} // verus!
