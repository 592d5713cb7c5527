//! What the layout tables say of a model: which tensors there are, and from
//! which width to which each of them leads. A matrix takes as many numbers as
//! its first dimension says and gives as many as its second, so that where one
//! projection follows another, the second dimension of the first is the first
//! dimension of the next.

use crate::layout;
use crate::layout::common;
use crate::layout::deepseek;
use crate::layout::dots;
use crate::layout::exaone;
use crate::layout::motif;
use crate::layout::solar;
use crate::layout::table::{LayoutSpec, Row, TypeClass};
use crate::shape::{ModelFamily, Shape};
use crate::text;
use vstd::prelude::*;
use vstd::string::*;

verus! {

/// `r` is a vector of `width` numbers.
pub open spec fn vector(r: Row, name: Seq<char>, class: TypeClass, width: int) -> bool {
    &&& r.name == name
    &&& r.class == class
    &&& r.ndim == 1
    &&& r.d0 == width
    &&& r.d1 == 0
    &&& r.d2 == 0
    &&& r.d3 == 0
}

/// `r` is a matrix that takes `from` numbers to `to`.
pub open spec fn matrix(r: Row, name: Seq<char>, class: TypeClass, from: int, to: int) -> bool {
    &&& r.name == name
    &&& r.class == class
    &&& r.ndim == 2
    &&& r.d0 == from
    &&& r.d1 == to
    &&& r.d2 == 0
    &&& r.d3 == 0
}

/// `r` is a stack of `count` matrices, each of which takes `from` numbers to
/// `to`.
pub open spec fn stack(
    r: Row,
    name: Seq<char>,
    class: TypeClass,
    from: int,
    to: int,
    count: int,
) -> bool {
    &&& r.name == name
    &&& r.class == class
    &&& r.ndim == 3
    &&& r.d0 == from
    &&& r.d1 == to
    &&& r.d2 == count
    &&& r.d3 == 0
}

/// What stands in front of the names of the tensors of layer `il`.
pub open spec fn layer_prefix(il: nat) -> Seq<char> {
    "blk."@ + text::decimal(il) + "."@
}

/// A row says of a tensor what the entry of the table says.
pub proof fn law_row_is_the_entry(e: LayoutSpec)
    ensures
        e@.name == e.name@,
        e@.class == e.class,
        e@.ndim == e.ndim,
        e@.d0 == e.dim@[0],
        e@.d1 == e.dim@[1],
        e@.d2 == e.dim@[2],
        e@.d3 == e.dim@[3],
{
}

/// How many rows the table has for layer `il` of a DeepSeek model.
pub open spec fn deepseek_count(s: Shape, il: int) -> int {
    let ratio = s.layers@[il].compress_ratio;
    24 + (if ratio != 0 {
        4int
    } else {
        0
    }) + (if ratio == 4 {
        6int
    } else {
        0
    }) + (if il < s.n_hash_layer {
        1int
    } else {
        0
    })
}

/// Where those rows begin.
pub open spec fn deepseek_start(s: Shape, il: int) -> int
    decreases il,
{
    if il <= 0 {
        6
    } else {
        deepseek_start(s, il - 1) + deepseek_count(s, il - 1)
    }
}

proof fn lemma_deepseek_len(s: Shape, n: nat)
    ensures
        deepseek::deepseek_layers(s, n).len() == deepseek_start(s, n as int) - 6,
    decreases n,
{
    if n > 0 {
        lemma_deepseek_len(s, (n - 1) as nat);
    }
}

proof fn lemma_deepseek_at(s: Shape, n: nat, il: nat)
    requires
        il < n,
    ensures
        6 <= deepseek_start(s, il as int) <= deepseek_start(s, n as int) - deepseek_count(s, il as int),
        forall|k: int|
            0 <= k < deepseek_count(s, il as int) ==> deepseek::deepseek_layers(s, n)[deepseek_start(s, il as int) - 6 + k]
                == #[trigger] deepseek::deepseek_layer_rows(s, il)[k],
    decreases n,
{
    let m = (n - 1) as nat;
    lemma_deepseek_len(s, m);
    lemma_deepseek_len(s, il);
    if il < m {
        lemma_deepseek_at(s, m, il);
    }
}

proof fn lemma_deepseek_rows(s: Shape, il: nat)
    requires
        s.family is DeepSeek4,
        il < s.n_layer,
    ensures
        6 <= deepseek_start(s, il as int),
        forall|k: int|
            0 <= k < deepseek_count(s, il as int) ==> layout::expected_rows(s)[deepseek_start(s, il as int) + k]
                == #[trigger] deepseek::deepseek_layer_rows(s, il)[k],
{
    lemma_deepseek_at(s, s.n_layer as nat, il);
    lemma_deepseek_len(s, s.n_layer as nat);
    assert forall|k: int| 0 <= k < deepseek_count(s, il as int) implies layout::expected_rows(s)[deepseek_start(
        s,
        il as int,
    ) + k] == #[trigger] deepseek::deepseek_layer_rows(s, il)[k] by {
        assert(deepseek::deepseek_layers(s, s.n_layer as nat)[deepseek_start(s, il as int) - 6 + k] == deepseek::deepseek_layer_rows(
            s,
            il,
        )[k]);
    }
}

/// The head of a DeepSeek model: tokens come in at the width of the stream and
/// leave from it, and the streams are mixed into one in between.
pub proof fn law_deepseek_head(s: Shape)
    requires
        s.family is DeepSeek4,
    ensures
        ({
            let t = layout::expected_rows(s);
            let e: int = s.n_embd as int;
            let hc: int = s.n_hc as int;
            let hc_dim: int = s.n_embd * s.n_hc;
            &&& t.len() == deepseek_start(s, s.n_layer as int)
            &&& matrix(t[0], "token_embd.weight"@, TypeClass::Exact(1), e, s.n_vocab as int)
            &&& vector(t[1], "output_hc_base.weight"@, TypeClass::Exact(0), hc)
            &&& matrix(t[2], "output_hc_fn.weight"@, TypeClass::Exact(1), hc_dim, hc)
            &&& vector(t[3], "output_hc_scale.weight"@, TypeClass::Exact(0), 1)
            &&& vector(t[4], "output_norm.weight"@, TypeClass::Exact(0), e)
            &&& matrix(t[5], "output.weight"@, TypeClass::Exact(8), e, s.n_vocab as int)
        }),
{
    let t = layout::expected_rows(s);
    let g = deepseek::deepseek_head_rows(s);
    lemma_deepseek_len(s, s.n_layer as nat);
    assert(t[0] == g[0]);
    assert(t[1] == g[1]);
    assert(t[2] == g[2]);
    assert(t[3] == g[3]);
    assert(t[4] == g[4]);
    assert(t[5] == g[5]);
}

/// The attention of a DeepSeek layer leads from the stream through the query
/// rank to the heads, and from the groups of heads through the output rank back
/// to the stream.
pub proof fn law_deepseek_attention(s: Shape, il: nat)
    requires
        s.family is DeepSeek4,
        il < s.n_layer,
    ensures
        ({
            let p = layer_prefix(il);
            let t = layout::expected_rows(s);
            let at = deepseek_start(s, il as int);
            let e: int = s.n_embd as int;
            let hc_dim: int = s.n_embd * s.n_hc;
            let hc_mix: int = 2 * s.n_hc + s.n_hc * s.n_hc;
            let q_dim: int = s.n_head * s.n_head_dim;
            let out_low: int = s.n_out_group * s.n_lora_o;
            let group_dim: int = s.n_head_dim * (s.n_head / s.n_out_group);
            &&& matrix(t[at], p + "hc_attn_fn.weight"@, TypeClass::Exact(1), hc_dim, hc_mix)
            &&& vector(t[at + 1], p + "hc_attn_scale.weight"@, TypeClass::Exact(0), 3)
            &&& vector(t[at + 2], p + "hc_attn_base.weight"@, TypeClass::Exact(0), hc_mix)
            &&& vector(t[at + 3], p + "attn_norm.weight"@, TypeClass::Exact(0), e)
            &&& matrix(t[at + 4], p + "attn_q_a.weight"@, TypeClass::Exact(8), e, s.n_lora_q as int)
            &&& vector(t[at + 5], p + "attn_q_a_norm.weight"@, TypeClass::Exact(0), s.n_lora_q as int)
            &&& matrix(t[at + 6], p + "attn_q_b.weight"@, TypeClass::Exact(8), s.n_lora_q as int, q_dim)
            &&& matrix(t[at + 7], p + "attn_kv.weight"@, TypeClass::Exact(8), e, s.n_head_dim as int)
            &&& vector(t[at + 8], p + "attn_kv_a_norm.weight"@, TypeClass::Exact(0), s.n_head_dim as int)
            &&& vector(t[at + 9], p + "attn_sinks.weight"@, TypeClass::Exact(0), s.n_head as int)
            &&& matrix(t[at + 10], p + "attn_output_a.weight"@, TypeClass::Exact(8), group_dim, out_low)
            &&& matrix(t[at + 11], p + "attn_output_b.weight"@, TypeClass::Exact(8), out_low, e)
        }),
{
    let p = layer_prefix(il);
    let t = layout::expected_rows(s);
    let off: int = 0;
    let at = deepseek_start(s, il as int) + off;
    let g = deepseek::deepseek_attn_rows(s, p);
    lemma_deepseek_rows(s, il);
    assert forall|k: int| 0 <= k < 12 implies t[at + k] == #[trigger] g[k] by {
        assert(deepseek::deepseek_layer_rows(s, il)[off + k] == g[k]);
    }
    assert(t[at] == g[0]);
    assert(t[at + 1] == g[1]);
    assert(t[at + 2] == g[2]);
    assert(t[at + 3] == g[3]);
    assert(t[at + 4] == g[4]);
    assert(t[at + 5] == g[5]);
    assert(t[at + 6] == g[6]);
    assert(t[at + 7] == g[7]);
    assert(t[at + 8] == g[8]);
    assert(t[at + 9] == g[9]);
    assert(t[at + 10] == g[10]);
    assert(t[at + 11] == g[11]);
}

/// A DeepSeek layer that compresses has a compressor; where it compresses four
/// to one, of twice the width of a head.
pub proof fn law_deepseek_compressor(s: Shape, il: nat)
    requires
        s.family is DeepSeek4,
        il < s.n_layer,
        s.layers@[il as int].compress_ratio != 0,
    ensures
        ({
            let p = layer_prefix(il);
            let ratio = s.layers@[il as int].compress_ratio;
            let t = layout::expected_rows(s);
            let at = deepseek_start(s, il as int) + 12;
            let e: int = s.n_embd as int;
            let comp_width: int = if ratio == 4 { 2 * s.n_head_dim } else { s.n_head_dim as int };
            &&& matrix(t[at], p + "attn_compressor_ape.weight"@, TypeClass::Exact(1), comp_width, ratio as int)
            &&& matrix(t[at + 1], p + "attn_compressor_kv.weight"@, TypeClass::Exact(1), e, comp_width)
            &&& matrix(t[at + 2], p + "attn_compressor_gate.weight"@, TypeClass::Exact(1), e, comp_width)
            &&& vector(t[at + 3], p + "attn_compressor_norm.weight"@, TypeClass::Exact(0), s.n_head_dim as int)
        }),
{
    let p = layer_prefix(il);
    let ratio = s.layers@[il as int].compress_ratio;
    let t = layout::expected_rows(s);
    let off: int = 12;
    let at = deepseek_start(s, il as int) + off;
    let g = deepseek::deepseek_compressor_rows(s, p, ratio);
    lemma_deepseek_rows(s, il);
    assert forall|k: int| 0 <= k < 4 implies t[at + k] == #[trigger] g[k] by {
        assert(deepseek::deepseek_layer_rows(s, il)[off + k] == g[k]);
    }
    assert(t[at] == g[0]);
    assert(t[at + 1] == g[1]);
    assert(t[at + 2] == g[2]);
    assert(t[at + 3] == g[3]);
}

/// A DeepSeek layer that compresses four to one has an indexer, which leads from
/// the query rank to its own heads.
pub proof fn law_deepseek_indexer(s: Shape, il: nat)
    requires
        s.family is DeepSeek4,
        il < s.n_layer,
        s.layers@[il as int].compress_ratio == 4,
    ensures
        ({
            let p = layer_prefix(il);
            let t = layout::expected_rows(s);
            let at = deepseek_start(s, il as int) + 16;
            let e: int = s.n_embd as int;
            let index_q: int = s.n_indexer_head * s.n_indexer_head_dim;
            let index_width: int = 2 * s.n_indexer_head_dim;
            &&& matrix(t[at], p + "indexer.attn_q_b.weight"@, TypeClass::Exact(1), s.n_lora_q as int, index_q)
            &&& matrix(t[at + 1], p + "indexer.proj.weight"@, TypeClass::Exact(1), e, s.n_indexer_head as int)
            &&& matrix(t[at + 2], p + "indexer_compressor_ape.weight"@, TypeClass::Exact(1), index_width, 4)
            &&& matrix(t[at + 3], p + "indexer_compressor_kv.weight"@, TypeClass::Exact(1), e, index_width)
            &&& matrix(t[at + 4], p + "indexer_compressor_gate.weight"@, TypeClass::Exact(1), e, index_width)
            &&& vector(t[at + 5], p + "indexer_compressor_norm.weight"@, TypeClass::Exact(0), s.n_indexer_head_dim as int)
        }),
{
    let p = layer_prefix(il);
    let t = layout::expected_rows(s);
    let off: int = 16;
    let at = deepseek_start(s, il as int) + off;
    let g = deepseek::deepseek_indexer_rows(s, p);
    lemma_deepseek_rows(s, il);
    assert forall|k: int| 0 <= k < 6 implies t[at + k] == #[trigger] g[k] by {
        assert(deepseek::deepseek_layer_rows(s, il)[off + k] == g[k]);
    }
    assert(t[at] == g[0]);
    assert(t[at + 1] == g[1]);
    assert(t[at + 2] == g[2]);
    assert(t[at + 3] == g[3]);
    assert(t[at + 4] == g[4]);
    assert(t[at + 5] == g[5]);
}

/// The experts of a DeepSeek layer lead from the stream to their width and back.
pub proof fn law_deepseek_feed_forward(s: Shape, il: nat)
    requires
        s.family is DeepSeek4,
        il < s.n_layer,
    ensures
        ({
            let p = layer_prefix(il);
            let t = layout::expected_rows(s);
            let at = deepseek_start(s, il as int) + 12 + (if s.layers@[il as int].compress_ratio != 0 { 4int } else { 0 }) + (if s.layers@[il as int].compress_ratio == 4 { 6int } else { 0 });
            let e: int = s.n_embd as int;
            let hc_dim: int = s.n_embd * s.n_hc;
            let hc_mix: int = 2 * s.n_hc + s.n_hc * s.n_hc;
            &&& matrix(t[at], p + "hc_ffn_fn.weight"@, TypeClass::Exact(1), hc_dim, hc_mix)
            &&& vector(t[at + 1], p + "hc_ffn_scale.weight"@, TypeClass::Exact(0), 3)
            &&& vector(t[at + 2], p + "hc_ffn_base.weight"@, TypeClass::Exact(0), hc_mix)
            &&& vector(t[at + 3], p + "ffn_norm.weight"@, TypeClass::Exact(0), e)
            &&& matrix(t[at + 4], p + "ffn_gate_inp.weight"@, TypeClass::Exact(1), e, s.n_expert as int)
            &&& vector(t[at + 5], p + "exp_probs_b.bias"@, TypeClass::OptionalExact(0), s.n_expert as int)
            &&& stack(t[at + 6], p + "ffn_gate_exps.weight"@, TypeClass::Routed, e, s.n_ff_exp as int, s.n_expert as int)
            &&& stack(t[at + 7], p + "ffn_up_exps.weight"@, TypeClass::Routed, e, s.n_ff_exp as int, s.n_expert as int)
            &&& stack(t[at + 8], p + "ffn_down_exps.weight"@, TypeClass::Routed, s.n_ff_exp as int, e, s.n_expert as int)
            &&& matrix(t[at + 9], p + "ffn_gate_shexp.weight"@, TypeClass::Exact(8), e, s.n_ff_exp as int)
            &&& matrix(t[at + 10], p + "ffn_up_shexp.weight"@, TypeClass::Exact(8), e, s.n_ff_exp as int)
            &&& matrix(t[at + 11], p + "ffn_down_shexp.weight"@, TypeClass::Exact(8), s.n_ff_exp as int, e)
        }),
{
    let p = layer_prefix(il);
    let t = layout::expected_rows(s);
    let off: int = 12 + (if s.layers@[il as int].compress_ratio != 0 { 4int } else { 0 }) + (if s.layers@[il as int].compress_ratio == 4 { 6int } else { 0 });
    let at = deepseek_start(s, il as int) + off;
    let g = deepseek::deepseek_ffn_rows(s, p);
    lemma_deepseek_rows(s, il);
    assert forall|k: int| 0 <= k < 12 implies t[at + k] == #[trigger] g[k] by {
        assert(deepseek::deepseek_layer_rows(s, il)[off + k] == g[k]);
    }
    assert(t[at] == g[0]);
    assert(t[at + 1] == g[1]);
    assert(t[at + 2] == g[2]);
    assert(t[at + 3] == g[3]);
    assert(t[at + 4] == g[4]);
    assert(t[at + 5] == g[5]);
    assert(t[at + 6] == g[6]);
    assert(t[at + 7] == g[7]);
    assert(t[at + 8] == g[8]);
    assert(t[at + 9] == g[9]);
    assert(t[at + 10] == g[10]);
    assert(t[at + 11] == g[11]);
}

/// The first layers of a DeepSeek model choose their experts by token.
pub proof fn law_deepseek_hash(s: Shape, il: nat)
    requires
        s.family is DeepSeek4,
        il < s.n_layer,
        il < s.n_hash_layer,
    ensures
        ({
            let p = layer_prefix(il);
            let t = layout::expected_rows(s);
            let at = deepseek_start(s, il as int) + 24 + (if s.layers@[il as int].compress_ratio != 0 { 4int } else { 0 }) + (if s.layers@[il as int].compress_ratio == 4 { 6int } else { 0 });
            &&& matrix(t[at], p + "ffn_gate_tid2eid.weight"@, TypeClass::Exact(26), s.n_expert_used as int, s.n_vocab as int)
        }),
{
    let p = layer_prefix(il);
    let t = layout::expected_rows(s);
    let off: int = 24 + (if s.layers@[il as int].compress_ratio != 0 { 4int } else { 0 }) + (if s.layers@[il as int].compress_ratio == 4 { 6int } else { 0 });
    let at = deepseek_start(s, il as int) + off;
    let g = deepseek::deepseek_hash_rows(s, p);
    lemma_deepseek_rows(s, il);
    assert forall|k: int| 0 <= k < 1 implies t[at + k] == #[trigger] g[k] by {
        assert(deepseek::deepseek_layer_rows(s, il)[off + k] == g[k]);
    }
    assert(t[at] == g[0]);
}

/// How many rows the table has for layer `il` of a Solar model.
pub open spec fn solar_count(s: Shape, il: int) -> int {
    10 + if s.layers@[il].gqa {
        5int
    } else {
        15
    }
}

/// Where those rows begin.
pub open spec fn solar_start(s: Shape, il: int) -> int
    decreases il,
{
    if il <= 0 {
        3
    } else {
        solar_start(s, il - 1) + solar_count(s, il - 1)
    }
}

proof fn lemma_solar_len(s: Shape, n: nat)
    ensures
        solar::solar_layers(s, n).len() == solar_start(s, n as int) - 3,
    decreases n,
{
    if n > 0 {
        lemma_solar_len(s, (n - 1) as nat);
    }
}

proof fn lemma_solar_at(s: Shape, n: nat, il: nat)
    requires
        il < n,
    ensures
        3 <= solar_start(s, il as int) <= solar_start(s, n as int) - solar_count(s, il as int),
        forall|k: int|
            0 <= k < solar_count(s, il as int) ==> solar::solar_layers(s, n)[solar_start(s, il as int) - 3 + k]
                == #[trigger] solar::solar_layer_rows(s, il)[k],
    decreases n,
{
    let m = (n - 1) as nat;
    lemma_solar_len(s, m);
    lemma_solar_len(s, il);
    if il < m {
        lemma_solar_at(s, m, il);
    }
}

proof fn lemma_solar_rows(s: Shape, il: nat)
    requires
        s.family is SolarOpen2,
        il < s.n_layer,
    ensures
        3 <= solar_start(s, il as int),
        forall|k: int|
            0 <= k < solar_count(s, il as int) ==> layout::expected_rows(s)[solar_start(s, il as int) + k]
                == #[trigger] solar::solar_layer_rows(s, il)[k],
{
    lemma_solar_at(s, s.n_layer as nat, il);
    lemma_solar_len(s, s.n_layer as nat);
    assert forall|k: int| 0 <= k < solar_count(s, il as int) implies layout::expected_rows(s)[solar_start(
        s,
        il as int,
    ) + k] == #[trigger] solar::solar_layer_rows(s, il)[k] by {
        assert(solar::solar_layers(s, s.n_layer as nat)[solar_start(s, il as int) - 3 + k] == solar::solar_layer_rows(
            s,
            il,
        )[k]);
    }
}

/// The head of a Solar model: tokens come in at the width of the stream and leave
/// from it.
pub proof fn law_solar_head(s: Shape)
    requires
        s.family is SolarOpen2,
    ensures
        ({
            let t = layout::expected_rows(s);
            let e: int = s.n_embd as int;
            &&& t.len() == solar_start(s, s.n_layer as int)
            &&& matrix(t[0], "token_embd.weight"@, TypeClass::Exact(8), e, s.n_vocab as int)
            &&& vector(t[1], "output_norm.weight"@, TypeClass::Exact(0), e)
            &&& matrix(t[2], "output.weight"@, TypeClass::Exact(8), e, s.n_vocab as int)
        }),
{
    let t = layout::expected_rows(s);
    let g = common::q8_head_rows(s);
    lemma_solar_len(s, s.n_layer as nat);
    assert(t[0] == g[0]);
    assert(t[1] == g[1]);
    assert(t[2] == g[2]);
}

/// The norms of a Solar layer are as wide as the stream.
pub proof fn law_solar_norms(s: Shape, il: nat)
    requires
        s.family is SolarOpen2,
        il < s.n_layer,
    ensures
        ({
            let p = layer_prefix(il);
            let t = layout::expected_rows(s);
            let at = solar_start(s, il as int);
            let e: int = s.n_embd as int;
            &&& vector(t[at], p + "attn_norm.weight"@, TypeClass::Exact(0), e)
            &&& vector(t[at + 1], p + "ffn_norm.weight"@, TypeClass::Exact(0), e)
        }),
{
    let p = layer_prefix(il);
    let t = layout::expected_rows(s);
    let off: int = 0;
    let at = solar_start(s, il as int) + off;
    let g = solar::solar_norms_rows(s, p);
    lemma_solar_rows(s, il);
    assert forall|k: int| 0 <= k < 2 implies t[at + k] == #[trigger] g[k] by {
        assert(solar::solar_layer_rows(s, il)[off + k] == g[k]);
    }
    assert(t[at] == g[0]);
    assert(t[at + 1] == g[1]);
}

/// A Solar layer of grouped queries leads from the stream to its heads and back.
pub proof fn law_solar_grouped_attention(s: Shape, il: nat)
    requires
        s.family is SolarOpen2,
        il < s.n_layer,
        s.layers@[il as int].gqa,
    ensures
        ({
            let p = layer_prefix(il);
            let t = layout::expected_rows(s);
            let at = solar_start(s, il as int) + 2;
            let e: int = s.n_embd as int;
            let q_dim: int = s.n_head * s.n_head_dim;
            let kv_dim: int = s.n_head_kv * s.n_head_dim;
            &&& matrix(t[at], p + "attn_q.weight"@, TypeClass::Exact(8), e, q_dim)
            &&& matrix(t[at + 1], p + "attn_k.weight"@, TypeClass::Exact(8), e, kv_dim)
            &&& matrix(t[at + 2], p + "attn_v.weight"@, TypeClass::Exact(8), e, kv_dim)
            &&& matrix(t[at + 3], p + "attn_gate.weight"@, TypeClass::Exact(8), e, q_dim)
            &&& matrix(t[at + 4], p + "attn_output.weight"@, TypeClass::Exact(8), q_dim, e)
        }),
{
    let p = layer_prefix(il);
    let t = layout::expected_rows(s);
    let off: int = 2;
    let at = solar_start(s, il as int) + off;
    let g = solar::solar_gqa_rows(s, p);
    lemma_solar_rows(s, il);
    assert forall|k: int| 0 <= k < 5 implies t[at + k] == #[trigger] g[k] by {
        assert(solar::solar_layer_rows(s, il)[off + k] == g[k]);
    }
    assert(t[at] == g[0]);
    assert(t[at + 1] == g[1]);
    assert(t[at + 2] == g[2]);
    assert(t[at + 3] == g[3]);
    assert(t[at + 4] == g[4]);
}

/// A Solar layer of linear attention leads from the stream to its heads and back;
/// its gates go through the width of one head.
pub proof fn law_solar_linear_attention(s: Shape, il: nat)
    requires
        s.family is SolarOpen2,
        il < s.n_layer,
        !s.layers@[il as int].gqa,
    ensures
        ({
            let p = layer_prefix(il);
            let t = layout::expected_rows(s);
            let at = solar_start(s, il as int) + 2;
            let e: int = s.n_embd as int;
            let kda_dim: int = s.n_head * s.n_kda_head_dim;
            &&& matrix(t[at], p + "attn_q.weight"@, TypeClass::Exact(8), e, kda_dim)
            &&& matrix(t[at + 1], p + "attn_k.weight"@, TypeClass::Exact(8), e, kda_dim)
            &&& matrix(t[at + 2], p + "attn_v.weight"@, TypeClass::Exact(8), e, kda_dim)
            &&& stack(t[at + 3], p + "ssm_conv1d_q.weight"@, TypeClass::SolarConv, s.n_ssm_conv as int, 1, kda_dim)
            &&& stack(t[at + 4], p + "ssm_conv1d_k.weight"@, TypeClass::SolarConv, s.n_ssm_conv as int, 1, kda_dim)
            &&& stack(t[at + 5], p + "ssm_conv1d_v.weight"@, TypeClass::SolarConv, s.n_ssm_conv as int, 1, kda_dim)
            &&& matrix(t[at + 6], p + "ssm_f_a.weight"@, TypeClass::Exact(8), e, s.n_kda_head_dim as int)
            &&& matrix(t[at + 7], p + "ssm_f_b.weight"@, TypeClass::Exact(8), s.n_kda_head_dim as int, kda_dim)
            &&& matrix(t[at + 8], p + "ssm_beta.weight"@, TypeClass::Exact(8), e, s.n_head as int)
            &&& matrix(t[at + 9], p + "ssm_a"@, TypeClass::SolarDecay, 1, s.n_head as int)
            &&& vector(t[at + 10], p + "ssm_dt.bias"@, TypeClass::Exact(0), kda_dim)
            &&& matrix(t[at + 11], p + "ssm_g_a.weight"@, TypeClass::Exact(8), e, s.n_kda_head_dim as int)
            &&& matrix(t[at + 12], p + "ssm_g_b.weight"@, TypeClass::Exact(8), s.n_kda_head_dim as int, kda_dim)
            &&& vector(t[at + 13], p + "ssm_norm.weight"@, TypeClass::Exact(0), s.n_kda_head_dim as int)
            &&& matrix(t[at + 14], p + "attn_output.weight"@, TypeClass::Exact(8), kda_dim, e)
        }),
{
    let p = layer_prefix(il);
    let t = layout::expected_rows(s);
    let off: int = 2;
    let at = solar_start(s, il as int) + off;
    let g = solar::solar_kda_rows(s, p);
    lemma_solar_rows(s, il);
    assert forall|k: int| 0 <= k < 15 implies t[at + k] == #[trigger] g[k] by {
        assert(solar::solar_layer_rows(s, il)[off + k] == g[k]);
    }
    assert(t[at] == g[0]);
    assert(t[at + 1] == g[1]);
    assert(t[at + 2] == g[2]);
    assert(t[at + 3] == g[3]);
    assert(t[at + 4] == g[4]);
    assert(t[at + 5] == g[5]);
    assert(t[at + 6] == g[6]);
    assert(t[at + 7] == g[7]);
    assert(t[at + 8] == g[8]);
    assert(t[at + 9] == g[9]);
    assert(t[at + 10] == g[10]);
    assert(t[at + 11] == g[11]);
    assert(t[at + 12] == g[12]);
    assert(t[at + 13] == g[13]);
    assert(t[at + 14] == g[14]);
}

/// The experts of a Solar layer lead from the stream to their width and back.
pub proof fn law_solar_feed_forward(s: Shape, il: nat)
    requires
        s.family is SolarOpen2,
        il < s.n_layer,
    ensures
        ({
            let p = layer_prefix(il);
            let t = layout::expected_rows(s);
            let at = solar_start(s, il as int) + 2 + (if s.layers@[il as int].gqa { 5int } else { 15 });
            let e: int = s.n_embd as int;
            &&& matrix(t[at], p + "ffn_gate_inp.weight"@, TypeClass::Exact(0), e, s.n_expert as int)
            &&& vector(t[at + 1], p + "exp_probs_b.bias"@, TypeClass::Exact(0), s.n_expert as int)
            &&& stack(t[at + 2], p + "ffn_gate_exps.weight"@, TypeClass::SolarGateUp, e, s.n_ff_exp as int, s.n_expert as int)
            &&& stack(t[at + 3], p + "ffn_up_exps.weight"@, TypeClass::SolarGateUp, e, s.n_ff_exp as int, s.n_expert as int)
            &&& stack(t[at + 4], p + "ffn_down_exps.weight"@, TypeClass::SolarDown, s.n_ff_exp as int, e, s.n_expert as int)
            &&& matrix(t[at + 5], p + "ffn_gate_shexp.weight"@, TypeClass::Exact(8), e, s.n_ff_shexp as int)
            &&& matrix(t[at + 6], p + "ffn_up_shexp.weight"@, TypeClass::Exact(8), e, s.n_ff_shexp as int)
            &&& matrix(t[at + 7], p + "ffn_down_shexp.weight"@, TypeClass::Exact(8), s.n_ff_shexp as int, e)
        }),
{
    let p = layer_prefix(il);
    let t = layout::expected_rows(s);
    let off: int = 2 + (if s.layers@[il as int].gqa { 5int } else { 15 });
    let at = solar_start(s, il as int) + off;
    let g = solar::solar_ffn_rows(s, p);
    lemma_solar_rows(s, il);
    assert forall|k: int| 0 <= k < 8 implies t[at + k] == #[trigger] g[k] by {
        assert(solar::solar_layer_rows(s, il)[off + k] == g[k]);
    }
    assert(t[at] == g[0]);
    assert(t[at + 1] == g[1]);
    assert(t[at + 2] == g[2]);
    assert(t[at + 3] == g[3]);
    assert(t[at + 4] == g[4]);
    assert(t[at + 5] == g[5]);
    assert(t[at + 6] == g[6]);
    assert(t[at + 7] == g[7]);
}

/// How many rows the table has for layer `il` of an EXAONE model.
pub open spec fn exaone_count(s: Shape, il: int) -> int {
    6 + (if s.use_qk_norm {
        2int
    } else {
        0
    }) + (if il < s.n_leading_dense || (s.n_nextn_predict != 0 && il + s.n_nextn_predict >= s.n_layer) {
        3int
    } else {
        8
    }) + (if s.n_nextn_predict != 0 && il + s.n_nextn_predict >= s.n_layer {
        4int
    } else {
        0
    })
}

/// Where those rows begin.
pub open spec fn exaone_start(s: Shape, il: int) -> int
    decreases il,
{
    if il <= 0 {
        3
    } else {
        exaone_start(s, il - 1) + exaone_count(s, il - 1)
    }
}

proof fn lemma_exaone_len(s: Shape, n: nat)
    ensures
        exaone::exaone_layers(s, n).len() == exaone_start(s, n as int) - 3,
    decreases n,
{
    if n > 0 {
        lemma_exaone_len(s, (n - 1) as nat);
    }
}

proof fn lemma_exaone_at(s: Shape, n: nat, il: nat)
    requires
        il < n,
    ensures
        3 <= exaone_start(s, il as int) <= exaone_start(s, n as int) - exaone_count(s, il as int),
        forall|k: int|
            0 <= k < exaone_count(s, il as int) ==> exaone::exaone_layers(s, n)[exaone_start(s, il as int) - 3 + k]
                == #[trigger] exaone::exaone_layer_rows(s, il)[k],
    decreases n,
{
    let m = (n - 1) as nat;
    lemma_exaone_len(s, m);
    lemma_exaone_len(s, il);
    if il < m {
        lemma_exaone_at(s, m, il);
    }
}

proof fn lemma_exaone_rows(s: Shape, il: nat)
    requires
        s.family is ExaoneMoe,
        il < s.n_layer,
    ensures
        3 <= exaone_start(s, il as int),
        forall|k: int|
            0 <= k < exaone_count(s, il as int) ==> layout::expected_rows(s)[exaone_start(s, il as int) + k]
                == #[trigger] exaone::exaone_layer_rows(s, il)[k],
{
    lemma_exaone_at(s, s.n_layer as nat, il);
    lemma_exaone_len(s, s.n_layer as nat);
    assert forall|k: int| 0 <= k < exaone_count(s, il as int) implies layout::expected_rows(s)[exaone_start(
        s,
        il as int,
    ) + k] == #[trigger] exaone::exaone_layer_rows(s, il)[k] by {
        assert(exaone::exaone_layers(s, s.n_layer as nat)[exaone_start(s, il as int) - 3 + k] == exaone::exaone_layer_rows(
            s,
            il,
        )[k]);
    }
}

/// The head of an EXAONE model: tokens come in at the width of the stream and
/// leave from it.
pub proof fn law_exaone_head(s: Shape)
    requires
        s.family is ExaoneMoe,
    ensures
        ({
            let t = layout::expected_rows(s);
            let e: int = s.n_embd as int;
            &&& t.len() == exaone_start(s, s.n_layer as int)
            &&& matrix(t[0], "token_embd.weight"@, TypeClass::ExaoneQuant, e, s.n_vocab as int)
            &&& vector(t[1], "output_norm.weight"@, TypeClass::Exact(0), e)
            &&& matrix(t[2], "output.weight"@, TypeClass::ExaoneQuant, e, s.n_vocab as int)
        }),
{
    let t = layout::expected_rows(s);
    let g = exaone::exaone_head_rows(s);
    lemma_exaone_len(s, s.n_layer as nat);
    assert(t[0] == g[0]);
    assert(t[1] == g[1]);
    assert(t[2] == g[2]);
}

/// The attention of an EXAONE layer leads from the stream to its heads and back.
pub proof fn law_exaone_attention(s: Shape, il: nat)
    requires
        s.family is ExaoneMoe,
        il < s.n_layer,
    ensures
        ({
            let p = layer_prefix(il);
            let t = layout::expected_rows(s);
            let at = exaone_start(s, il as int);
            let e: int = s.n_embd as int;
            let q_dim: int = s.n_head * s.n_head_dim;
            let kv_dim: int = s.n_head_kv * s.n_head_dim;
            &&& vector(t[at], p + "attn_norm.weight"@, TypeClass::Exact(0), e)
            &&& matrix(t[at + 1], p + "attn_q.weight"@, TypeClass::ExaoneQuant, e, q_dim)
            &&& matrix(t[at + 2], p + "attn_k.weight"@, TypeClass::ExaoneQuant, e, kv_dim)
            &&& matrix(t[at + 3], p + "attn_v.weight"@, TypeClass::ExaoneQuant, e, kv_dim)
            &&& matrix(t[at + 4], p + "attn_output.weight"@, TypeClass::ExaoneQuant, q_dim, e)
        }),
{
    let p = layer_prefix(il);
    let t = layout::expected_rows(s);
    let off: int = 0;
    let at = exaone_start(s, il as int) + off;
    let g = exaone::exaone_attn_rows(s, p);
    lemma_exaone_rows(s, il);
    assert forall|k: int| 0 <= k < 5 implies t[at + k] == #[trigger] g[k] by {
        assert(exaone::exaone_layer_rows(s, il)[off + k] == g[k]);
    }
    assert(t[at] == g[0]);
    assert(t[at + 1] == g[1]);
    assert(t[at + 2] == g[2]);
    assert(t[at + 3] == g[3]);
    assert(t[at + 4] == g[4]);
}

/// The query and key norms of an EXAONE layer are as wide as a head.
pub proof fn law_exaone_query_key_norms(s: Shape, il: nat)
    requires
        s.family is ExaoneMoe,
        il < s.n_layer,
        s.use_qk_norm,
    ensures
        ({
            let p = layer_prefix(il);
            let t = layout::expected_rows(s);
            let at = exaone_start(s, il as int) + 5;
            &&& vector(t[at], p + "attn_q_norm.weight"@, TypeClass::Exact(0), s.n_head_dim as int)
            &&& vector(t[at + 1], p + "attn_k_norm.weight"@, TypeClass::Exact(0), s.n_head_dim as int)
        }),
{
    let p = layer_prefix(il);
    let t = layout::expected_rows(s);
    let off: int = 5;
    let at = exaone_start(s, il as int) + off;
    let g = exaone::exaone_qk_norm_rows(s, p);
    lemma_exaone_rows(s, il);
    assert forall|k: int| 0 <= k < 2 implies t[at + k] == #[trigger] g[k] by {
        assert(exaone::exaone_layer_rows(s, il)[off + k] == g[k]);
    }
    assert(t[at] == g[0]);
    assert(t[at + 1] == g[1]);
}

/// A leading or predicting EXAONE layer leads from the stream to the dense width
/// and back.
pub proof fn law_exaone_dense_feed_forward(s: Shape, il: nat)
    requires
        s.family is ExaoneMoe,
        il < s.n_layer,
        il < s.n_leading_dense || (s.n_nextn_predict != 0 && il + s.n_nextn_predict >= s.n_layer),
    ensures
        ({
            let p = layer_prefix(il);
            let t = layout::expected_rows(s);
            let at = exaone_start(s, il as int) + 6 + (if s.use_qk_norm { 2int } else { 0 });
            let e: int = s.n_embd as int;
            &&& matrix(t[at], p + "ffn_gate.weight"@, TypeClass::ExaoneQuant, e, s.n_ff_dense as int)
            &&& matrix(t[at + 1], p + "ffn_up.weight"@, TypeClass::ExaoneQuant, e, s.n_ff_dense as int)
            &&& matrix(t[at + 2], p + "ffn_down.weight"@, TypeClass::ExaoneQuant, s.n_ff_dense as int, e)
        }),
{
    let p = layer_prefix(il);
    let t = layout::expected_rows(s);
    let off: int = 6 + (if s.use_qk_norm { 2int } else { 0 });
    let at = exaone_start(s, il as int) + off;
    let g = exaone::exaone_dense_ffn_rows(s, p);
    lemma_exaone_rows(s, il);
    assert forall|k: int| 0 <= k < 3 implies t[at + k] == #[trigger] g[k] by {
        assert(exaone::exaone_layer_rows(s, il)[off + k] == g[k]);
    }
    assert(t[at] == g[0]);
    assert(t[at + 1] == g[1]);
    assert(t[at + 2] == g[2]);
}

/// The experts of any other EXAONE layer lead from the stream to their width and
/// back.
pub proof fn law_exaone_expert_feed_forward(s: Shape, il: nat)
    requires
        s.family is ExaoneMoe,
        il < s.n_layer,
        !(il < s.n_leading_dense || (s.n_nextn_predict != 0 && il + s.n_nextn_predict >= s.n_layer)),
    ensures
        ({
            let p = layer_prefix(il);
            let t = layout::expected_rows(s);
            let at = exaone_start(s, il as int) + 6 + (if s.use_qk_norm { 2int } else { 0 });
            let e: int = s.n_embd as int;
            &&& matrix(t[at], p + "ffn_gate_inp.weight"@, TypeClass::Exact(0), e, s.n_expert as int)
            &&& vector(t[at + 1], p + "exp_probs_b.bias"@, TypeClass::Exact(0), s.n_expert as int)
            &&& stack(t[at + 2], p + "ffn_gate_exps.weight"@, TypeClass::ExaoneQuant, e, s.n_ff_exp as int, s.n_expert as int)
            &&& stack(t[at + 3], p + "ffn_up_exps.weight"@, TypeClass::ExaoneQuant, e, s.n_ff_exp as int, s.n_expert as int)
            &&& stack(t[at + 4], p + "ffn_down_exps.weight"@, TypeClass::ExaoneQuant, s.n_ff_exp as int, e, s.n_expert as int)
            &&& matrix(t[at + 5], p + "ffn_gate_shexp.weight"@, TypeClass::ExaoneQuant, e, s.n_ff_shexp as int)
            &&& matrix(t[at + 6], p + "ffn_up_shexp.weight"@, TypeClass::ExaoneQuant, e, s.n_ff_shexp as int)
            &&& matrix(t[at + 7], p + "ffn_down_shexp.weight"@, TypeClass::ExaoneQuant, s.n_ff_shexp as int, e)
        }),
{
    let p = layer_prefix(il);
    let t = layout::expected_rows(s);
    let off: int = 6 + (if s.use_qk_norm { 2int } else { 0 });
    let at = exaone_start(s, il as int) + off;
    let g = exaone::exaone_expert_ffn_rows(s, p);
    lemma_exaone_rows(s, il);
    assert forall|k: int| 0 <= k < 8 implies t[at + k] == #[trigger] g[k] by {
        assert(exaone::exaone_layer_rows(s, il)[off + k] == g[k]);
    }
    assert(t[at] == g[0]);
    assert(t[at + 1] == g[1]);
    assert(t[at + 2] == g[2]);
    assert(t[at + 3] == g[3]);
    assert(t[at + 4] == g[4]);
    assert(t[at + 5] == g[5]);
    assert(t[at + 6] == g[6]);
    assert(t[at + 7] == g[7]);
}

/// A predicting EXAONE layer joins two streams into one.
pub proof fn law_exaone_prediction(s: Shape, il: nat)
    requires
        s.family is ExaoneMoe,
        il < s.n_layer,
        s.n_nextn_predict != 0 && il + s.n_nextn_predict >= s.n_layer,
    ensures
        ({
            let p = layer_prefix(il);
            let t = layout::expected_rows(s);
            let at = exaone_start(s, il as int) + 9 + (if s.use_qk_norm { 2int } else { 0 });
            let e: int = s.n_embd as int;
            &&& matrix(t[at], p + "nextn.eh_proj.weight"@, TypeClass::ExaoneQuant, 2 * e, e)
            &&& vector(t[at + 1], p + "nextn.enorm.weight"@, TypeClass::Exact(0), e)
            &&& vector(t[at + 2], p + "nextn.hnorm.weight"@, TypeClass::Exact(0), e)
            &&& vector(t[at + 3], p + "nextn.shared_head_norm.weight"@, TypeClass::Exact(0), e)
        }),
{
    let p = layer_prefix(il);
    let t = layout::expected_rows(s);
    let off: int = 9 + (if s.use_qk_norm { 2int } else { 0 });
    let at = exaone_start(s, il as int) + off;
    let g = exaone::exaone_nextn_rows(s, p);
    lemma_exaone_rows(s, il);
    assert forall|k: int| 0 <= k < 4 implies t[at + k] == #[trigger] g[k] by {
        assert(exaone::exaone_layer_rows(s, il)[off + k] == g[k]);
    }
    assert(t[at] == g[0]);
    assert(t[at + 1] == g[1]);
    assert(t[at + 2] == g[2]);
    assert(t[at + 3] == g[3]);
}

/// In front of the feed-forward part of an EXAONE layer stands its norm.
pub proof fn law_exaone_feed_forward_norm(s: Shape, il: nat)
    requires
        s.family is ExaoneMoe,
        il < s.n_layer,
    ensures
        vector(
            layout::expected_rows(s)[exaone_start(s, il as int) + 5 + (if s.use_qk_norm { 2int } else { 0 })],
            layer_prefix(il) + "ffn_norm.weight"@,
            TypeClass::Exact(0),
            s.n_embd as int,
        ),
{
    lemma_exaone_rows(s, il);
    let off: int = 5 + (if s.use_qk_norm { 2int } else { 0 });
    assert(exaone::exaone_layer_rows(s, il)[off].name == layer_prefix(il) + "ffn_norm.weight"@);
}

/// How many rows the table has for layer `il` of a dots3 model.
pub open spec fn dots_count(s: Shape, il: int) -> int {
    11 + (if s.layers@[il].full_attention {
        5int
    } else {
        0
    }) + (if il < s.n_leading_dense || (s.n_nextn_predict != 0 && il + s.n_nextn_predict >= s.n_layer) {
        3int
    } else {
        8
    }) + (if s.n_nextn_predict != 0 && il + s.n_nextn_predict >= s.n_layer {
        4int
    } else {
        0
    })
}

/// Where those rows begin.
pub open spec fn dots_start(s: Shape, il: int) -> int
    decreases il,
{
    if il <= 0 {
        3
    } else {
        dots_start(s, il - 1) + dots_count(s, il - 1)
    }
}

proof fn lemma_dots_len(s: Shape, n: nat)
    ensures
        dots::dots3_layers(s, n).len() == dots_start(s, n as int) - 3,
    decreases n,
{
    if n > 0 {
        lemma_dots_len(s, (n - 1) as nat);
    }
}

proof fn lemma_dots_at(s: Shape, n: nat, il: nat)
    requires
        il < n,
    ensures
        3 <= dots_start(s, il as int) <= dots_start(s, n as int) - dots_count(s, il as int),
        forall|k: int|
            0 <= k < dots_count(s, il as int) ==> dots::dots3_layers(s, n)[dots_start(s, il as int) - 3 + k]
                == #[trigger] dots::dots3_layer_rows(s, il)[k],
    decreases n,
{
    let m = (n - 1) as nat;
    lemma_dots_len(s, m);
    lemma_dots_len(s, il);
    if il < m {
        lemma_dots_at(s, m, il);
    }
}

proof fn lemma_dots_rows(s: Shape, il: nat)
    requires
        s.family is Dots3Note,
        il < s.n_layer,
    ensures
        3 <= dots_start(s, il as int),
        forall|k: int|
            0 <= k < dots_count(s, il as int) ==> layout::expected_rows(s)[dots_start(s, il as int) + k]
                == #[trigger] dots::dots3_layer_rows(s, il)[k],
{
    lemma_dots_at(s, s.n_layer as nat, il);
    lemma_dots_len(s, s.n_layer as nat);
    assert forall|k: int| 0 <= k < dots_count(s, il as int) implies layout::expected_rows(s)[dots_start(
        s,
        il as int,
    ) + k] == #[trigger] dots::dots3_layer_rows(s, il)[k] by {
        assert(dots::dots3_layers(s, s.n_layer as nat)[dots_start(s, il as int) - 3 + k] == dots::dots3_layer_rows(
            s,
            il,
        )[k]);
    }
}

/// The head of a dots3 model: tokens come in at the width of the stream and leave
/// from it; the prediction layers have an embedding of their own, at the end.
pub proof fn law_dots_head(s: Shape)
    requires
        s.family is Dots3Note,
    ensures
        ({
            let t = layout::expected_rows(s);
            let e: int = s.n_embd as int;
            &&& t.len() == dots_start(s, s.n_layer as int) + 1
            &&& matrix(t[0], "token_embd.weight"@, TypeClass::Exact(8), e, s.n_vocab as int)
            &&& vector(t[1], "output_norm.weight"@, TypeClass::Exact(0), e)
            &&& matrix(t[2], "output.weight"@, TypeClass::Exact(8), e, s.n_vocab as int)
            &&& matrix(t[t.len() - 1], "token_embd_mtp.weight"@, TypeClass::Exact(8), s.n_embd as int, s.n_vocab as int)
        }),
{
    let t = layout::expected_rows(s);
    let g = common::q8_head_rows(s);
    lemma_dots_len(s, s.n_layer as nat);
    assert(t[0] == g[0]);
    assert(t[1] == g[1]);
    assert(t[2] == g[2]);
}

/// The attention of a dots3 layer leads from the stream through the query rank to
/// its heads, and from the values of the heads back to the stream; layers of the
/// two kinds have heads and ranks of their own.
pub proof fn law_dots_attention(s: Shape, il: nat)
    requires
        s.family is Dots3Note,
        il < s.n_layer,
    ensures
        ({
            let p = layer_prefix(il);
            let full = s.layers@[il as int].full_attention;
            let t = layout::expected_rows(s);
            let at = dots_start(s, il as int);
            let heads: int = if full { s.n_head as int } else { s.n_swa_head as int };
            let key: int = if full { s.n_key_mla as int } else { s.n_swa_key_mla as int };
            let kv_lora: int = if full { s.n_kv_lora as int } else { s.n_swa_kv_lora as int };
            let e: int = s.n_embd as int;
            let qk_width: int = heads * key;
            let kv_a_width: int = kv_lora + s.n_rot;
            let kv_width: int = heads * ((key - s.n_rot) + s.n_value_mla);
            let value_width: int = heads * s.n_value_mla;
            &&& vector(t[at], p + "attn_norm.weight"@, TypeClass::Exact(0), e)
            &&& matrix(t[at + 1], p + "attn_q_a.weight"@, TypeClass::Exact(8), e, s.n_lora_q as int)
            &&& vector(t[at + 2], p + "attn_q_a_norm.weight"@, TypeClass::Exact(8), s.n_lora_q as int)
            &&& matrix(t[at + 3], p + "attn_q_b.weight"@, TypeClass::Exact(8), s.n_lora_q as int, qk_width)
            &&& matrix(t[at + 4], p + "attn_kv_a_mqa.weight"@, TypeClass::Exact(8), e, kv_a_width)
            &&& vector(t[at + 5], p + "attn_kv_a_norm.weight"@, TypeClass::Exact(8), kv_lora)
            &&& matrix(t[at + 6], p + "attn_kv_b.weight"@, TypeClass::Exact(8), kv_lora, kv_width)
            &&& vector(t[at + 7], p + "attn_k_rope_norm.weight"@, TypeClass::Exact(8), s.n_rot as int)
            &&& matrix(t[at + 8], p + "attn_gate.weight"@, TypeClass::Exact(8), e, heads)
            &&& matrix(t[at + 9], p + "attn_output.weight"@, TypeClass::Exact(8), value_width, e)
        }),
{
    let p = layer_prefix(il);
    let full = s.layers@[il as int].full_attention;
    let t = layout::expected_rows(s);
    let off: int = 0;
    let at = dots_start(s, il as int) + off;
    let g = dots::dots3_attn_rows(s, p, full);
    lemma_dots_rows(s, il);
    assert forall|k: int| 0 <= k < 10 implies t[at + k] == #[trigger] g[k] by {
        assert(dots::dots3_layer_rows(s, il)[off + k] == g[k]);
    }
    assert(t[at] == g[0]);
    assert(t[at + 1] == g[1]);
    assert(t[at + 2] == g[2]);
    assert(t[at + 3] == g[3]);
    assert(t[at + 4] == g[4]);
    assert(t[at + 5] == g[5]);
    assert(t[at + 6] == g[6]);
    assert(t[at + 7] == g[7]);
    assert(t[at + 8] == g[8]);
    assert(t[at + 9] == g[9]);
}

/// A dots3 layer of full attention has an indexer, which leads from the query rank
/// to its own heads.
pub proof fn law_dots_indexer(s: Shape, il: nat)
    requires
        s.family is Dots3Note,
        il < s.n_layer,
        s.layers@[il as int].full_attention,
    ensures
        ({
            let p = layer_prefix(il);
            let t = layout::expected_rows(s);
            let at = dots_start(s, il as int) + 10;
            let e: int = s.n_embd as int;
            let index_q: int = s.n_indexer_head * s.n_indexer_head_dim;
            &&& matrix(t[at], p + "attn_idx_q_b.weight"@, TypeClass::Exact(8), s.n_lora_q as int, index_q)
            &&& matrix(t[at + 1], p + "attn_idx_k.weight"@, TypeClass::Exact(8), e, s.n_indexer_head_dim as int)
            &&& matrix(t[at + 2], p + "attn_idx_w.weight"@, TypeClass::Exact(8), e, s.n_indexer_head as int)
            &&& vector(t[at + 3], p + "attn_idx_k_norm.weight"@, TypeClass::Exact(0), s.n_indexer_head_dim as int)
            &&& vector(t[at + 4], p + "attn_idx_k_norm.bias"@, TypeClass::Exact(0), s.n_indexer_head_dim as int)
        }),
{
    let p = layer_prefix(il);
    let t = layout::expected_rows(s);
    let off: int = 10;
    let at = dots_start(s, il as int) + off;
    let g = dots::dots3_index_rows(s, p);
    lemma_dots_rows(s, il);
    assert forall|k: int| 0 <= k < 5 implies t[at + k] == #[trigger] g[k] by {
        assert(dots::dots3_layer_rows(s, il)[off + k] == g[k]);
    }
    assert(t[at] == g[0]);
    assert(t[at + 1] == g[1]);
    assert(t[at + 2] == g[2]);
    assert(t[at + 3] == g[3]);
    assert(t[at + 4] == g[4]);
}

/// A leading or predicting dots3 layer leads from the stream to the dense width
/// and back.
pub proof fn law_dots_dense_feed_forward(s: Shape, il: nat)
    requires
        s.family is Dots3Note,
        il < s.n_layer,
        il < s.n_leading_dense || (s.n_nextn_predict != 0 && il + s.n_nextn_predict >= s.n_layer),
    ensures
        ({
            let p = layer_prefix(il);
            let t = layout::expected_rows(s);
            let at = dots_start(s, il as int) + 11 + (if s.layers@[il as int].full_attention { 5int } else { 0 });
            let e: int = s.n_embd as int;
            &&& matrix(t[at], p + "ffn_gate.weight"@, TypeClass::Exact(8), e, s.n_ff_dense as int)
            &&& matrix(t[at + 1], p + "ffn_up.weight"@, TypeClass::Exact(8), e, s.n_ff_dense as int)
            &&& matrix(t[at + 2], p + "ffn_down.weight"@, TypeClass::Exact(8), s.n_ff_dense as int, e)
        }),
{
    let p = layer_prefix(il);
    let t = layout::expected_rows(s);
    let off: int = 11 + (if s.layers@[il as int].full_attention { 5int } else { 0 });
    let at = dots_start(s, il as int) + off;
    let g = dots::dots3_dense_ffn_rows(s, p);
    lemma_dots_rows(s, il);
    assert forall|k: int| 0 <= k < 3 implies t[at + k] == #[trigger] g[k] by {
        assert(dots::dots3_layer_rows(s, il)[off + k] == g[k]);
    }
    assert(t[at] == g[0]);
    assert(t[at + 1] == g[1]);
    assert(t[at + 2] == g[2]);
}

/// The experts of any other dots3 layer lead from the stream to their width and
/// back.
pub proof fn law_dots_expert_feed_forward(s: Shape, il: nat)
    requires
        s.family is Dots3Note,
        il < s.n_layer,
        !(il < s.n_leading_dense || (s.n_nextn_predict != 0 && il + s.n_nextn_predict >= s.n_layer)),
    ensures
        ({
            let p = layer_prefix(il);
            let t = layout::expected_rows(s);
            let at = dots_start(s, il as int) + 11 + (if s.layers@[il as int].full_attention { 5int } else { 0 });
            let e: int = s.n_embd as int;
            &&& matrix(t[at], p + "ffn_gate_inp.weight"@, TypeClass::Exact(0), e, s.n_expert as int)
            &&& vector(t[at + 1], p + "exp_probs_b.bias"@, TypeClass::Exact(0), s.n_expert as int)
            &&& stack(t[at + 2], p + "ffn_gate_exps.weight"@, TypeClass::Exact(16), e, s.n_ff_exp as int, s.n_expert as int)
            &&& stack(t[at + 3], p + "ffn_up_exps.weight"@, TypeClass::Exact(16), e, s.n_ff_exp as int, s.n_expert as int)
            &&& stack(t[at + 4], p + "ffn_down_exps.weight"@, TypeClass::Exact(10), s.n_ff_exp as int, e, s.n_expert as int)
            &&& matrix(t[at + 5], p + "ffn_gate_shexp.weight"@, TypeClass::Exact(8), e, s.n_ff_exp as int)
            &&& matrix(t[at + 6], p + "ffn_up_shexp.weight"@, TypeClass::Exact(8), e, s.n_ff_exp as int)
            &&& matrix(t[at + 7], p + "ffn_down_shexp.weight"@, TypeClass::Exact(8), s.n_ff_exp as int, e)
        }),
{
    let p = layer_prefix(il);
    let t = layout::expected_rows(s);
    let off: int = 11 + (if s.layers@[il as int].full_attention { 5int } else { 0 });
    let at = dots_start(s, il as int) + off;
    let g = dots::dots3_expert_ffn_rows(s, p);
    lemma_dots_rows(s, il);
    assert forall|k: int| 0 <= k < 8 implies t[at + k] == #[trigger] g[k] by {
        assert(dots::dots3_layer_rows(s, il)[off + k] == g[k]);
    }
    assert(t[at] == g[0]);
    assert(t[at + 1] == g[1]);
    assert(t[at + 2] == g[2]);
    assert(t[at + 3] == g[3]);
    assert(t[at + 4] == g[4]);
    assert(t[at + 5] == g[5]);
    assert(t[at + 6] == g[6]);
    assert(t[at + 7] == g[7]);
}

/// A predicting dots3 layer joins two streams into one.
pub proof fn law_dots_prediction(s: Shape, il: nat)
    requires
        s.family is Dots3Note,
        il < s.n_layer,
        s.n_nextn_predict != 0 && il + s.n_nextn_predict >= s.n_layer,
    ensures
        ({
            let p = layer_prefix(il);
            let t = layout::expected_rows(s);
            let at = dots_start(s, il as int) + 14 + (if s.layers@[il as int].full_attention { 5int } else { 0 });
            let e: int = s.n_embd as int;
            &&& matrix(t[at], p + "eh_proj.weight"@, TypeClass::Exact(8), 2 * e, e)
            &&& vector(t[at + 1], p + "enorm.weight"@, TypeClass::Exact(0), e)
            &&& vector(t[at + 2], p + "hnorm.weight"@, TypeClass::Exact(0), e)
            &&& vector(t[at + 3], p + "shared_head_norm.weight"@, TypeClass::Exact(0), e)
        }),
{
    let p = layer_prefix(il);
    let t = layout::expected_rows(s);
    let off: int = 14 + (if s.layers@[il as int].full_attention { 5int } else { 0 });
    let at = dots_start(s, il as int) + off;
    let g = dots::dots3_nextn_rows(s, p);
    lemma_dots_rows(s, il);
    assert forall|k: int| 0 <= k < 4 implies t[at + k] == #[trigger] g[k] by {
        assert(dots::dots3_layer_rows(s, il)[off + k] == g[k]);
    }
    assert(t[at] == g[0]);
    assert(t[at + 1] == g[1]);
    assert(t[at + 2] == g[2]);
    assert(t[at + 3] == g[3]);
}

/// In front of the feed-forward part of a dots3 layer stands its norm.
pub proof fn law_dots_feed_forward_norm(s: Shape, il: nat)
    requires
        s.family is Dots3Note,
        il < s.n_layer,
    ensures
        vector(
            layout::expected_rows(s)[dots_start(s, il as int) + 10 + (if s.layers@[il as int].full_attention { 5int } else { 0 })],
            layer_prefix(il) + "ffn_norm.weight"@,
            TypeClass::Exact(0),
            s.n_embd as int,
        ),
{
    lemma_dots_rows(s, il);
    let off: int = 10 + (if s.layers@[il as int].full_attention { 5int } else { 0 });
    assert(dots::dots3_layer_rows(s, il)[off].name == layer_prefix(il) + "ffn_norm.weight"@);
}

/// How many rows the table has for layer `il` of a Motif model.
pub open spec fn motif_count(s: Shape, il: int) -> int {
    31 + if il < s.n_leading_dense {
        5int
    } else {
        12
    }
}

/// Where those rows begin.
pub open spec fn motif_start(s: Shape, il: int) -> int
    decreases il,
{
    if il <= 0 {
        3
    } else {
        motif_start(s, il - 1) + motif_count(s, il - 1)
    }
}

proof fn lemma_motif_len(s: Shape, n: nat)
    ensures
        motif::motif3_layers(s, n).len() == motif_start(s, n as int) - 3,
    decreases n,
{
    if n > 0 {
        lemma_motif_len(s, (n - 1) as nat);
    }
}

proof fn lemma_motif_at(s: Shape, n: nat, il: nat)
    requires
        il < n,
    ensures
        3 <= motif_start(s, il as int) <= motif_start(s, n as int) - motif_count(s, il as int),
        forall|k: int|
            0 <= k < motif_count(s, il as int) ==> motif::motif3_layers(s, n)[motif_start(s, il as int) - 3 + k]
                == #[trigger] motif::motif3_layer_rows(s, il)[k],
    decreases n,
{
    let m = (n - 1) as nat;
    lemma_motif_len(s, m);
    lemma_motif_len(s, il);
    if il < m {
        lemma_motif_at(s, m, il);
    }
}

proof fn lemma_motif_rows(s: Shape, il: nat)
    requires
        s.family is Motif3,
        il < s.n_layer,
    ensures
        3 <= motif_start(s, il as int),
        forall|k: int|
            0 <= k < motif_count(s, il as int) ==> layout::expected_rows(s)[motif_start(s, il as int) + k]
                == #[trigger] motif::motif3_layer_rows(s, il)[k],
{
    lemma_motif_at(s, s.n_layer as nat, il);
    lemma_motif_len(s, s.n_layer as nat);
    assert forall|k: int| 0 <= k < motif_count(s, il as int) implies layout::expected_rows(s)[motif_start(
        s,
        il as int,
    ) + k] == #[trigger] motif::motif3_layer_rows(s, il)[k] by {
        assert(motif::motif3_layers(s, s.n_layer as nat)[motif_start(s, il as int) - 3 + k] == motif::motif3_layer_rows(
            s,
            il,
        )[k]);
    }
}

/// The head of a Motif model: tokens come in at the width of the stream and leave
/// from it.
pub proof fn law_motif_head(s: Shape)
    requires
        s.family is Motif3,
    ensures
        ({
            let t = layout::expected_rows(s);
            let e: int = s.n_embd as int;
            &&& t.len() == motif_start(s, s.n_layer as int) + 19
            &&& matrix(t[0], "token_embd.weight"@, TypeClass::Exact(8), e, s.n_vocab as int)
            &&& vector(t[1], "output_norm.weight"@, TypeClass::Exact(0), e)
            &&& matrix(t[2], "output.weight"@, TypeClass::Exact(8), e, s.n_vocab as int)
        }),
{
    let t = layout::expected_rows(s);
    let g = common::q8_head_rows(s);
    lemma_motif_len(s, s.n_layer as nat);
    assert(t[0] == g[0]);
    assert(t[1] == g[1]);
    assert(t[2] == g[2]);
}

/// Behind its layers a Motif model has a prediction block: it joins two streams
/// into one, attends as a layer does, and leads to the dense width and back.
pub proof fn law_motif_prediction(s: Shape)
    requires
        s.family is Motif3,
    ensures
        ({
            let t = layout::expected_rows(s);
            let n = motif_start(s, s.n_layer as int);
            let e: int = s.n_embd as int;
            let q_dim: int = s.n_head * s.n_head_dim;
            let signal_heads: int = s.n_head - s.n_noise_head;
            let signal_value_dim: int = (s.n_head - s.n_noise_head) * s.n_value_dim;
            let kv_b_dim: int = s.n_head_kv * ((s.n_head_dim - s.n_rot) + s.n_value_dim);
            let ff: int = s.n_ff_dense as int;
            &&& vector(t[n], "mtp.0.embed_norm.weight"@, TypeClass::Exact(0), e)
            &&& vector(t[n + 1], "mtp.0.input_layernorm.weight"@, TypeClass::Exact(0), e)
            &&& matrix(t[n + 2], "mtp.0.input_proj.weight"@, TypeClass::Exact(8), 2 * e, e)
            &&& vector(t[n + 3], "mtp.0.final_layernorm.weight"@, TypeClass::Exact(0), e)
            &&& matrix(t[n + 4], "mtp.0."@ + "attn_q_a.weight"@, TypeClass::Exact(8), e, s.n_lora_q as int)
            &&& vector(t[n + 5], "mtp.0."@ + "attn_q_a_norm.weight"@, TypeClass::Exact(0), s.n_lora_q as int)
            &&& matrix(t[n + 6], "mtp.0."@ + "attn_q_b.weight"@, TypeClass::Exact(8), s.n_lora_q as int, q_dim)
            &&& matrix(t[n + 7], "mtp.0."@ + "attn_q_gate.weight"@, TypeClass::Exact(8), s.n_lora_q as int, signal_value_dim)
            &&& matrix(t[n + 8], "mtp.0."@ + "attn_kv_a.weight"@, TypeClass::Exact(8), e, s.n_kv_lora + s.n_rot)
            &&& vector(t[n + 9], "mtp.0."@ + "attn_kv_a_norm.weight"@, TypeClass::Exact(0), s.n_kv_lora as int)
            &&& matrix(t[n + 10], "mtp.0."@ + "attn_kv_b.weight"@, TypeClass::Exact(8), s.n_kv_lora as int, kv_b_dim)
            &&& matrix(t[n + 11], "mtp.0."@ + "attn_lambda.weight"@, TypeClass::Exact(8), e, signal_heads)
            &&& matrix(t[n + 12], "mtp.0."@ + "attn_output.weight"@, TypeClass::Exact(8), signal_value_dim, e)
            &&& vector(t[n + 13], "mtp.0.post_attention_layernorm.weight"@, TypeClass::Exact(0), e)
            &&& matrix(t[n + 14], "mtp.0."@ + "ffn_gate.weight"@, TypeClass::Exact(8), e, ff)
            &&& matrix(t[n + 15], "mtp.0."@ + "ffn_up.weight"@, TypeClass::Exact(8), e, ff)
            &&& matrix(t[n + 16], "mtp.0."@ + "ffn_down.weight"@, TypeClass::Exact(8), ff, e)
            &&& vector(t[n + 17], "mtp.0."@ + "ffn_polynorm.weight"@, TypeClass::Exact(0), 3)
            &&& vector(t[n + 18], "mtp.0."@ + "ffn_polynorm.bias"@, TypeClass::Exact(0), 1)
        }),
{
    let t = layout::expected_rows(s);
    let n = motif_start(s, s.n_layer as int);
    lemma_motif_len(s, s.n_layer as nat);
    let h = motif::motif_mtp_head_rows(s);
    let a = motif::motif_attn_rows(s, "mtp.0."@);
    let d = motif::motif_dense_ffn_rows(s, "mtp.0."@);
    assert(t[n + 0] == h[0]);
    assert(t[n + 1] == h[1]);
    assert(t[n + 2] == h[2]);
    assert(t[n + 3] == h[3]);
    assert(t[n + 4] == a[0]);
    assert(t[n + 5] == a[1]);
    assert(t[n + 6] == a[2]);
    assert(t[n + 7] == a[3]);
    assert(t[n + 8] == a[4]);
    assert(t[n + 9] == a[5]);
    assert(t[n + 10] == a[6]);
    assert(t[n + 11] == a[7]);
    assert(t[n + 12] == a[8]);
    assert(t[n + 14] == d[0]);
    assert(t[n + 15] == d[1]);
    assert(t[n + 16] == d[2]);
    assert(t[n + 17] == d[3]);
    assert(t[n + 18] == d[4]);
}

/// In front of the attention a Motif layer mixes its streams, all of them at once.
pub proof fn law_motif_attention_streams(s: Shape, il: nat)
    requires
        s.family is Motif3,
        il < s.n_layer,
    ensures
        ({
            let p = layer_prefix(il) + "mhc_attn"@;
            let t = layout::expected_rows(s);
            let at = motif_start(s, il as int);
            let hc: int = s.n_hc as int;
            let hc_dim: int = s.n_embd * s.n_hc;
            let hc_sq: int = s.n_hc * s.n_hc;
            &&& vector(t[at], p + ".rms_norm.weight"@, TypeClass::Exact(0), hc_dim)
            &&& matrix(t[at + 1], p + ".proj_pre.weight"@, TypeClass::MotifProj, hc_dim, hc)
            &&& matrix(t[at + 2], p + ".proj_post.weight"@, TypeClass::MotifProj, hc_dim, hc)
            &&& matrix(t[at + 3], p + ".proj_res.weight"@, TypeClass::MotifProj, hc_dim, hc_sq)
            &&& vector(t[at + 4], p + ".alpha_pre"@, TypeClass::Exact(0), 1)
            &&& vector(t[at + 5], p + ".alpha_post"@, TypeClass::Exact(0), 1)
            &&& vector(t[at + 6], p + ".alpha_res"@, TypeClass::Exact(0), 1)
            &&& vector(t[at + 7], p + ".bias_pre"@, TypeClass::Exact(0), hc)
            &&& vector(t[at + 8], p + ".bias_post"@, TypeClass::Exact(0), hc)
            &&& matrix(t[at + 9], p + ".bias_res"@, TypeClass::Exact(0), hc, hc)
        }),
{
    let p = layer_prefix(il) + "mhc_attn"@;
    let t = layout::expected_rows(s);
    let off: int = 0;
    let at = motif_start(s, il as int) + off;
    let g = motif::motif_mhc_rows(s, p);
    lemma_motif_rows(s, il);
    assert forall|k: int| 0 <= k < 10 implies t[at + k] == #[trigger] g[k] by {
        assert(motif::motif3_layer_rows(s, il)[off + k] == g[k]);
    }
    assert(t[at] == g[0]);
    assert(t[at + 1] == g[1]);
    assert(t[at + 2] == g[2]);
    assert(t[at + 3] == g[3]);
    assert(t[at + 4] == g[4]);
    assert(t[at + 5] == g[5]);
    assert(t[at + 6] == g[6]);
    assert(t[at + 7] == g[7]);
    assert(t[at + 8] == g[8]);
    assert(t[at + 9] == g[9]);
}

/// The attention of a Motif layer leads from the stream through the query rank to
/// its heads, and from the values of the signal heads back to the stream.
pub proof fn law_motif_attention(s: Shape, il: nat)
    requires
        s.family is Motif3,
        il < s.n_layer,
    ensures
        ({
            let p = layer_prefix(il);
            let t = layout::expected_rows(s);
            let at = motif_start(s, il as int) + 11;
            let e: int = s.n_embd as int;
            let q_dim: int = s.n_head * s.n_head_dim;
            let signal_heads: int = s.n_head - s.n_noise_head;
            let signal_value_dim: int = (s.n_head - s.n_noise_head) * s.n_value_dim;
            let kv_b_dim: int = s.n_head_kv * ((s.n_head_dim - s.n_rot) + s.n_value_dim);
            &&& matrix(t[at], p + "attn_q_a.weight"@, TypeClass::Exact(8), e, s.n_lora_q as int)
            &&& vector(t[at + 1], p + "attn_q_a_norm.weight"@, TypeClass::Exact(0), s.n_lora_q as int)
            &&& matrix(t[at + 2], p + "attn_q_b.weight"@, TypeClass::Exact(8), s.n_lora_q as int, q_dim)
            &&& matrix(t[at + 3], p + "attn_q_gate.weight"@, TypeClass::Exact(8), s.n_lora_q as int, signal_value_dim)
            &&& matrix(t[at + 4], p + "attn_kv_a.weight"@, TypeClass::Exact(8), e, s.n_kv_lora + s.n_rot)
            &&& vector(t[at + 5], p + "attn_kv_a_norm.weight"@, TypeClass::Exact(0), s.n_kv_lora as int)
            &&& matrix(t[at + 6], p + "attn_kv_b.weight"@, TypeClass::Exact(8), s.n_kv_lora as int, kv_b_dim)
            &&& matrix(t[at + 7], p + "attn_lambda.weight"@, TypeClass::Exact(8), e, signal_heads)
            &&& matrix(t[at + 8], p + "attn_output.weight"@, TypeClass::Exact(8), signal_value_dim, e)
        }),
{
    let p = layer_prefix(il);
    let t = layout::expected_rows(s);
    let off: int = 11;
    let at = motif_start(s, il as int) + off;
    let g = motif::motif_attn_rows(s, p);
    lemma_motif_rows(s, il);
    assert forall|k: int| 0 <= k < 9 implies t[at + k] == #[trigger] g[k] by {
        assert(motif::motif3_layer_rows(s, il)[off + k] == g[k]);
    }
    assert(t[at] == g[0]);
    assert(t[at + 1] == g[1]);
    assert(t[at + 2] == g[2]);
    assert(t[at + 3] == g[3]);
    assert(t[at + 4] == g[4]);
    assert(t[at + 5] == g[5]);
    assert(t[at + 6] == g[6]);
    assert(t[at + 7] == g[7]);
    assert(t[at + 8] == g[8]);
}

/// In front of the feed-forward part a Motif layer mixes its streams again.
pub proof fn law_motif_feed_forward_streams(s: Shape, il: nat)
    requires
        s.family is Motif3,
        il < s.n_layer,
    ensures
        ({
            let p = layer_prefix(il) + "mhc_ffn"@;
            let t = layout::expected_rows(s);
            let at = motif_start(s, il as int) + 20;
            let hc: int = s.n_hc as int;
            let hc_dim: int = s.n_embd * s.n_hc;
            let hc_sq: int = s.n_hc * s.n_hc;
            &&& vector(t[at], p + ".rms_norm.weight"@, TypeClass::Exact(0), hc_dim)
            &&& matrix(t[at + 1], p + ".proj_pre.weight"@, TypeClass::MotifProj, hc_dim, hc)
            &&& matrix(t[at + 2], p + ".proj_post.weight"@, TypeClass::MotifProj, hc_dim, hc)
            &&& matrix(t[at + 3], p + ".proj_res.weight"@, TypeClass::MotifProj, hc_dim, hc_sq)
            &&& vector(t[at + 4], p + ".alpha_pre"@, TypeClass::Exact(0), 1)
            &&& vector(t[at + 5], p + ".alpha_post"@, TypeClass::Exact(0), 1)
            &&& vector(t[at + 6], p + ".alpha_res"@, TypeClass::Exact(0), 1)
            &&& vector(t[at + 7], p + ".bias_pre"@, TypeClass::Exact(0), hc)
            &&& vector(t[at + 8], p + ".bias_post"@, TypeClass::Exact(0), hc)
            &&& matrix(t[at + 9], p + ".bias_res"@, TypeClass::Exact(0), hc, hc)
        }),
{
    let p = layer_prefix(il) + "mhc_ffn"@;
    let t = layout::expected_rows(s);
    let off: int = 20;
    let at = motif_start(s, il as int) + off;
    let g = motif::motif_mhc_rows(s, p);
    lemma_motif_rows(s, il);
    assert forall|k: int| 0 <= k < 10 implies t[at + k] == #[trigger] g[k] by {
        assert(motif::motif3_layer_rows(s, il)[off + k] == g[k]);
    }
    assert(t[at] == g[0]);
    assert(t[at + 1] == g[1]);
    assert(t[at + 2] == g[2]);
    assert(t[at + 3] == g[3]);
    assert(t[at + 4] == g[4]);
    assert(t[at + 5] == g[5]);
    assert(t[at + 6] == g[6]);
    assert(t[at + 7] == g[7]);
    assert(t[at + 8] == g[8]);
    assert(t[at + 9] == g[9]);
}

/// A leading Motif layer leads from the stream to the dense width and back.
pub proof fn law_motif_dense_feed_forward(s: Shape, il: nat)
    requires
        s.family is Motif3,
        il < s.n_layer,
        il < s.n_leading_dense,
    ensures
        ({
            let p = layer_prefix(il);
            let t = layout::expected_rows(s);
            let at = motif_start(s, il as int) + 31;
            let e: int = s.n_embd as int;
            let ff: int = s.n_ff_dense as int;
            &&& matrix(t[at], p + "ffn_gate.weight"@, TypeClass::Exact(8), e, ff)
            &&& matrix(t[at + 1], p + "ffn_up.weight"@, TypeClass::Exact(8), e, ff)
            &&& matrix(t[at + 2], p + "ffn_down.weight"@, TypeClass::Exact(8), ff, e)
            &&& vector(t[at + 3], p + "ffn_polynorm.weight"@, TypeClass::Exact(0), 3)
            &&& vector(t[at + 4], p + "ffn_polynorm.bias"@, TypeClass::Exact(0), 1)
        }),
{
    let p = layer_prefix(il);
    let t = layout::expected_rows(s);
    let off: int = 31;
    let at = motif_start(s, il as int) + off;
    let g = motif::motif_dense_ffn_rows(s, p);
    lemma_motif_rows(s, il);
    assert forall|k: int| 0 <= k < 5 implies t[at + k] == #[trigger] g[k] by {
        assert(motif::motif3_layer_rows(s, il)[off + k] == g[k]);
    }
    assert(t[at] == g[0]);
    assert(t[at + 1] == g[1]);
    assert(t[at + 2] == g[2]);
    assert(t[at + 3] == g[3]);
    assert(t[at + 4] == g[4]);
}

/// The experts of any other Motif layer lead from the stream to their width and
/// back.
pub proof fn law_motif_expert_feed_forward(s: Shape, il: nat)
    requires
        s.family is Motif3,
        il < s.n_layer,
        il >= s.n_leading_dense,
    ensures
        ({
            let p = layer_prefix(il);
            let t = layout::expected_rows(s);
            let at = motif_start(s, il as int) + 31;
            let e: int = s.n_embd as int;
            &&& matrix(t[at], p + "ffn_gate_inp.weight"@, TypeClass::Exact(0), e, s.n_expert as int)
            &&& vector(t[at + 1], p + "exp_probs_b.bias"@, TypeClass::Exact(0), s.n_expert as int)
            &&& stack(t[at + 2], p + "ffn_gate_exps.weight"@, TypeClass::Exact(16), e, s.n_ff_exp as int, s.n_expert as int)
            &&& stack(t[at + 3], p + "ffn_up_exps.weight"@, TypeClass::Exact(16), e, s.n_ff_exp as int, s.n_expert as int)
            &&& stack(t[at + 4], p + "ffn_down_exps.weight"@, TypeClass::Exact(10), s.n_ff_exp as int, e, s.n_expert as int)
            &&& matrix(t[at + 5], p + "ffn_polynorm_exps.weight"@, TypeClass::Exact(0), 3, s.n_expert as int)
            &&& matrix(t[at + 6], p + "ffn_polynorm_exps.bias"@, TypeClass::Exact(0), 1, s.n_expert as int)
            &&& matrix(t[at + 7], p + "ffn_gate_shexp.weight"@, TypeClass::Exact(8), e, s.n_ff_exp as int)
            &&& matrix(t[at + 8], p + "ffn_up_shexp.weight"@, TypeClass::Exact(8), e, s.n_ff_exp as int)
            &&& matrix(t[at + 9], p + "ffn_down_shexp.weight"@, TypeClass::Exact(8), s.n_ff_exp as int, e)
            &&& vector(t[at + 10], p + "ffn_polynorm_shexp.weight"@, TypeClass::Exact(0), 3)
            &&& vector(t[at + 11], p + "ffn_polynorm_shexp.bias"@, TypeClass::Exact(0), 1)
        }),
{
    let p = layer_prefix(il);
    let t = layout::expected_rows(s);
    let off: int = 31;
    let at = motif_start(s, il as int) + off;
    let g = motif::motif_expert_ffn_rows(s, p);
    lemma_motif_rows(s, il);
    assert forall|k: int| 0 <= k < 12 implies t[at + k] == #[trigger] g[k] by {
        assert(motif::motif3_layer_rows(s, il)[off + k] == g[k]);
    }
    assert(t[at] == g[0]);
    assert(t[at + 1] == g[1]);
    assert(t[at + 2] == g[2]);
    assert(t[at + 3] == g[3]);
    assert(t[at + 4] == g[4]);
    assert(t[at + 5] == g[5]);
    assert(t[at + 6] == g[6]);
    assert(t[at + 7] == g[7]);
    assert(t[at + 8] == g[8]);
    assert(t[at + 9] == g[9]);
    assert(t[at + 10] == g[10]);
    assert(t[at + 11] == g[11]);
}

/// The two norms of a Motif layer are as wide as the stream.
pub proof fn law_motif_norms(s: Shape, il: nat)
    requires
        s.family is Motif3,
        il < s.n_layer,
    ensures
        vector(
            layout::expected_rows(s)[motif_start(s, il as int) + 10],
            layer_prefix(il) + "attn_norm.weight"@,
            TypeClass::Exact(0),
            s.n_embd as int,
        ),
        vector(
            layout::expected_rows(s)[motif_start(s, il as int) + 30],
            layer_prefix(il) + "ffn_norm.weight"@,
            TypeClass::Exact(0),
            s.n_embd as int,
        ),
{
    lemma_motif_rows(s, il);
    assert(motif::motif3_layer_rows(s, il)[10].name == layer_prefix(il) + "attn_norm.weight"@);
    assert(motif::motif3_layer_rows(s, il)[30].name == layer_prefix(il) + "ffn_norm.weight"@);
}

/// The head of the multi-token-prediction sibling: the embedding and the stream
/// are each led to the width of the stream.
pub proof fn law_mtp_head(s: Shape)
    ensures
        ({
            let t = deepseek::mtp_rows(s);
            let at = 0int;
            let e: int = s.n_embd as int;
            let hc: int = s.n_hc as int;
            let hc_dim: int = s.n_embd * s.n_hc;
            &&& vector(t[at], "mtp.0.hc_head_base.weight"@, TypeClass::Exact(0), hc)
            &&& matrix(t[at + 1], "mtp.0.hc_head_fn.weight"@, TypeClass::Plain, hc_dim, hc)
            &&& vector(t[at + 2], "mtp.0.hc_head_scale.weight"@, TypeClass::Exact(0), 1)
            &&& matrix(t[at + 3], "mtp.0.e_proj.weight"@, TypeClass::Exact(8), e, e)
            &&& matrix(t[at + 4], "mtp.0.h_proj.weight"@, TypeClass::Exact(8), e, e)
            &&& vector(t[at + 5], "mtp.0.enorm.weight"@, TypeClass::Exact(0), e)
            &&& vector(t[at + 6], "mtp.0.hnorm.weight"@, TypeClass::Exact(0), e)
            &&& vector(t[at + 7], "mtp.0.norm.weight"@, TypeClass::Exact(0), e)
        }),
{
    let t = deepseek::mtp_rows(s);
    let at: int = 0;
    let g = deepseek::mtp_head_rows(s);
    assert(t[at] == g[0]);
    assert(t[at + 1] == g[1]);
    assert(t[at + 2] == g[2]);
    assert(t[at + 3] == g[3]);
    assert(t[at + 4] == g[4]);
    assert(t[at + 5] == g[5]);
    assert(t[at + 6] == g[6]);
    assert(t[at + 7] == g[7]);
}

/// The sibling attends as a DeepSeek layer does.
pub proof fn law_mtp_attention(s: Shape)
    ensures
        ({
            let p = "mtp.0."@;
            let t = deepseek::mtp_rows(s);
            let at = 8int;
            let e: int = s.n_embd as int;
            let hc_dim: int = s.n_embd * s.n_hc;
            let hc_mix: int = 2 * s.n_hc + s.n_hc * s.n_hc;
            let q_dim: int = s.n_head * s.n_head_dim;
            let out_low: int = s.n_out_group * s.n_lora_o;
            let group_dim: int = s.n_head_dim * (s.n_head / s.n_out_group);
            &&& matrix(t[at], p + "hc_attn_fn.weight"@, TypeClass::Plain, hc_dim, hc_mix)
            &&& vector(t[at + 1], p + "hc_attn_scale.weight"@, TypeClass::Exact(0), 3)
            &&& vector(t[at + 2], p + "hc_attn_base.weight"@, TypeClass::Exact(0), hc_mix)
            &&& vector(t[at + 3], p + "attn_norm.weight"@, TypeClass::Exact(0), e)
            &&& matrix(t[at + 4], p + "attn_q_a.weight"@, TypeClass::Exact(8), e, s.n_lora_q as int)
            &&& vector(t[at + 5], p + "attn_q_a_norm.weight"@, TypeClass::Exact(0), s.n_lora_q as int)
            &&& matrix(t[at + 6], p + "attn_q_b.weight"@, TypeClass::Exact(8), s.n_lora_q as int, q_dim)
            &&& matrix(t[at + 7], p + "attn_kv.weight"@, TypeClass::Exact(8), e, s.n_head_dim as int)
            &&& vector(t[at + 8], p + "attn_kv_a_norm.weight"@, TypeClass::Exact(0), s.n_head_dim as int)
            &&& vector(t[at + 9], p + "attn_sinks.weight"@, TypeClass::Exact(0), s.n_head as int)
            &&& matrix(t[at + 10], p + "attn_output_a.weight"@, TypeClass::Exact(8), group_dim, out_low)
            &&& matrix(t[at + 11], p + "attn_output_b.weight"@, TypeClass::Exact(8), out_low, e)
        }),
{
    let p = "mtp.0."@;
    let t = deepseek::mtp_rows(s);
    let at: int = 8;
    let g = deepseek::sibling_attn_rows(s, p);
    assert(t[at] == g[0]);
    assert(t[at + 1] == g[1]);
    assert(t[at + 2] == g[2]);
    assert(t[at + 3] == g[3]);
    assert(t[at + 4] == g[4]);
    assert(t[at + 5] == g[5]);
    assert(t[at + 6] == g[6]);
    assert(t[at + 7] == g[7]);
    assert(t[at + 8] == g[8]);
    assert(t[at + 9] == g[9]);
    assert(t[at + 10] == g[10]);
    assert(t[at + 11] == g[11]);
}

/// The experts of the sibling are those of a DeepSeek layer, and nothing stands
/// behind them.
pub proof fn law_mtp_feed_forward(s: Shape)
    ensures
        ({
            let p = "mtp.0."@;
            let t = deepseek::mtp_rows(s);
            let at = 20int;
            let e: int = s.n_embd as int;
            let hc_dim: int = s.n_embd * s.n_hc;
            let hc_mix: int = 2 * s.n_hc + s.n_hc * s.n_hc;
            &&& matrix(t[at], p + "hc_ffn_fn.weight"@, TypeClass::Plain, hc_dim, hc_mix)
            &&& vector(t[at + 1], p + "hc_ffn_scale.weight"@, TypeClass::Exact(0), 3)
            &&& vector(t[at + 2], p + "hc_ffn_base.weight"@, TypeClass::Exact(0), hc_mix)
            &&& vector(t[at + 3], p + "ffn_norm.weight"@, TypeClass::Exact(0), e)
            &&& matrix(t[at + 4], p + "ffn_gate_inp.weight"@, TypeClass::Plain, e, s.n_expert as int)
            &&& vector(t[at + 5], p + "exp_probs_b.bias"@, TypeClass::Exact(0), s.n_expert as int)
            &&& stack(t[at + 6], p + "ffn_gate_exps.weight"@, TypeClass::Routed, e, s.n_ff_exp as int, s.n_expert as int)
            &&& stack(t[at + 7], p + "ffn_up_exps.weight"@, TypeClass::Routed, e, s.n_ff_exp as int, s.n_expert as int)
            &&& stack(t[at + 8], p + "ffn_down_exps.weight"@, TypeClass::Routed, s.n_ff_exp as int, e, s.n_expert as int)
            &&& matrix(t[at + 9], p + "ffn_gate_shexp.weight"@, TypeClass::Exact(8), e, s.n_ff_exp as int)
            &&& matrix(t[at + 10], p + "ffn_up_shexp.weight"@, TypeClass::Exact(8), e, s.n_ff_exp as int)
            &&& matrix(t[at + 11], p + "ffn_down_shexp.weight"@, TypeClass::Exact(8), s.n_ff_exp as int, e)
        }),
{
    let p = "mtp.0."@;
    let t = deepseek::mtp_rows(s);
    let at: int = 20;
    let g = deepseek::sibling_ffn_rows(s, p);
    assert(t[at] == g[0]);
    assert(t[at + 1] == g[1]);
    assert(t[at + 2] == g[2]);
    assert(t[at + 3] == g[3]);
    assert(t[at + 4] == g[4]);
    assert(t[at + 5] == g[5]);
    assert(t[at + 6] == g[6]);
    assert(t[at + 7] == g[7]);
    assert(t[at + 8] == g[8]);
    assert(t[at + 9] == g[9]);
    assert(t[at + 10] == g[10]);
    assert(t[at + 11] == g[11]);
}

/// The sibling has its head and one block.
pub proof fn law_mtp_len(s: Shape)
    ensures
        deepseek::mtp_rows(s).len() == 32,
{
}

proof fn lemma_dspark_len(s: Shape, n: nat)
    ensures
        deepseek::dspark_blocks(s, n).len() == 24 * n,
    decreases n,
{
    if n > 0 {
        lemma_dspark_len(s, (n - 1) as nat);
    }
}

proof fn lemma_dspark_at(s: Shape, n: nat, il: nat)
    requires
        il < n,
    ensures
        forall|k: int|
            0 <= k < 24 ==> deepseek::dspark_blocks(s, n)[24 * il + k]
                == #[trigger] deepseek::deepseek_block_rows(
                s,
                "dspark."@ + text::decimal(il) + "."@,
            )[k],
    decreases n,
{
    let m = (n - 1) as nat;
    lemma_dspark_len(s, m);
    if il < m {
        lemma_dspark_at(s, m, il);
    }
}

/// The drafter has its head and as many blocks as are asked for.
pub proof fn law_dspark_len(s: Shape, markov_rank: u32, n_blocks: u32)
    ensures
        deepseek::dspark_rows(s, markov_rank, n_blocks).len() == 9 + 24 * n_blocks,
{
    lemma_dspark_len(s, n_blocks as nat);
}

/// The head of the drafter joins three streams into one, and leads from the rank
/// of its chain to the tokens.
pub proof fn law_dspark_head(s: Shape, markov_rank: u32, n_blocks: u32)
    ensures
        ({
            let t = deepseek::dspark_rows(s, markov_rank, n_blocks);
            let at = 0int;
            let e: int = s.n_embd as int;
            let hc: int = s.n_hc as int;
            let hc_dim: int = s.n_embd * s.n_hc;
            let rank: int = markov_rank as int;
            &&& matrix(t[at], "dspark.main_proj.weight"@, TypeClass::Exact(8), 3 * e, e)
            &&& vector(t[at + 1], "dspark.main_norm.weight"@, TypeClass::Exact(0), e)
            &&& matrix(t[at + 2], "dspark.markov_w1.weight"@, TypeClass::Exact(1), rank, s.n_vocab as int)
            &&& matrix(t[at + 3], "dspark.markov_w2.weight"@, TypeClass::Exact(1), rank, s.n_vocab as int)
            &&& matrix(t[at + 4], "dspark.conf_proj.weight"@, TypeClass::Exact(0), e + rank, 1)
            &&& matrix(t[at + 5], "dspark.hc_head_fn.weight"@, TypeClass::Plain, hc_dim, hc)
            &&& vector(t[at + 6], "dspark.hc_head_base.weight"@, TypeClass::Exact(0), hc)
            &&& vector(t[at + 7], "dspark.hc_head_scale.weight"@, TypeClass::Exact(0), 1)
            &&& vector(t[at + 8], "dspark.norm.weight"@, TypeClass::Exact(0), e)
        }),
{
    let t = deepseek::dspark_rows(s, markov_rank, n_blocks);
    let at: int = 0;
    let g = deepseek::dspark_head_rows(s, markov_rank);
    assert(t[at] == g[0]);
    assert(t[at + 1] == g[1]);
    assert(t[at + 2] == g[2]);
    assert(t[at + 3] == g[3]);
    assert(t[at + 4] == g[4]);
    assert(t[at + 5] == g[5]);
    assert(t[at + 6] == g[6]);
    assert(t[at + 7] == g[7]);
    assert(t[at + 8] == g[8]);
}

/// A block of the drafter attends as a DeepSeek layer does.
pub proof fn law_dspark_attention(s: Shape, markov_rank: u32, n_blocks: u32, il: nat)
    requires
        il < n_blocks,
    ensures
        ({
            let p = "dspark."@ + text::decimal(il) + "."@;
            let t = deepseek::dspark_rows(s, markov_rank, n_blocks);
            let at = 9 + 24 * il as int;
            let e: int = s.n_embd as int;
            let hc_dim: int = s.n_embd * s.n_hc;
            let hc_mix: int = 2 * s.n_hc + s.n_hc * s.n_hc;
            let q_dim: int = s.n_head * s.n_head_dim;
            let out_low: int = s.n_out_group * s.n_lora_o;
            let group_dim: int = s.n_head_dim * (s.n_head / s.n_out_group);
            &&& matrix(t[at], p + "hc_attn_fn.weight"@, TypeClass::Plain, hc_dim, hc_mix)
            &&& vector(t[at + 1], p + "hc_attn_scale.weight"@, TypeClass::Exact(0), 3)
            &&& vector(t[at + 2], p + "hc_attn_base.weight"@, TypeClass::Exact(0), hc_mix)
            &&& vector(t[at + 3], p + "attn_norm.weight"@, TypeClass::Exact(0), e)
            &&& matrix(t[at + 4], p + "attn_q_a.weight"@, TypeClass::Exact(8), e, s.n_lora_q as int)
            &&& vector(t[at + 5], p + "attn_q_a_norm.weight"@, TypeClass::Exact(0), s.n_lora_q as int)
            &&& matrix(t[at + 6], p + "attn_q_b.weight"@, TypeClass::Exact(8), s.n_lora_q as int, q_dim)
            &&& matrix(t[at + 7], p + "attn_kv.weight"@, TypeClass::Exact(8), e, s.n_head_dim as int)
            &&& vector(t[at + 8], p + "attn_kv_a_norm.weight"@, TypeClass::Exact(0), s.n_head_dim as int)
            &&& vector(t[at + 9], p + "attn_sinks.weight"@, TypeClass::Exact(0), s.n_head as int)
            &&& matrix(t[at + 10], p + "attn_output_a.weight"@, TypeClass::Exact(8), group_dim, out_low)
            &&& matrix(t[at + 11], p + "attn_output_b.weight"@, TypeClass::Exact(8), out_low, e)
        }),
{
    let p = "dspark."@ + text::decimal(il) + "."@;
    let t = deepseek::dspark_rows(s, markov_rank, n_blocks);
    let at: int = 9 + 24 * il as int;
    let g = deepseek::sibling_attn_rows(s, p);
    let b = deepseek::dspark_blocks(s, n_blocks as nat);
    lemma_dspark_len(s, n_blocks as nat);
    lemma_dspark_at(s, n_blocks as nat, il);
    assert forall|k: int| 0 <= k < 12 implies t[at + k] == #[trigger] g[k] by {
        assert(deepseek::deepseek_block_rows(s, p)[k] == g[k]);
        assert(t[at + k] == b[24 * il as int + k]);
    }
    assert(t[at] == g[0]);
    assert(t[at + 1] == g[1]);
    assert(t[at + 2] == g[2]);
    assert(t[at + 3] == g[3]);
    assert(t[at + 4] == g[4]);
    assert(t[at + 5] == g[5]);
    assert(t[at + 6] == g[6]);
    assert(t[at + 7] == g[7]);
    assert(t[at + 8] == g[8]);
    assert(t[at + 9] == g[9]);
    assert(t[at + 10] == g[10]);
    assert(t[at + 11] == g[11]);
}

/// The experts of a block of the drafter are those of a DeepSeek layer.
pub proof fn law_dspark_feed_forward(s: Shape, markov_rank: u32, n_blocks: u32, il: nat)
    requires
        il < n_blocks,
    ensures
        ({
            let p = "dspark."@ + text::decimal(il) + "."@;
            let t = deepseek::dspark_rows(s, markov_rank, n_blocks);
            let at = 9 + 24 * il as int + 12;
            let e: int = s.n_embd as int;
            let hc_dim: int = s.n_embd * s.n_hc;
            let hc_mix: int = 2 * s.n_hc + s.n_hc * s.n_hc;
            &&& matrix(t[at], p + "hc_ffn_fn.weight"@, TypeClass::Plain, hc_dim, hc_mix)
            &&& vector(t[at + 1], p + "hc_ffn_scale.weight"@, TypeClass::Exact(0), 3)
            &&& vector(t[at + 2], p + "hc_ffn_base.weight"@, TypeClass::Exact(0), hc_mix)
            &&& vector(t[at + 3], p + "ffn_norm.weight"@, TypeClass::Exact(0), e)
            &&& matrix(t[at + 4], p + "ffn_gate_inp.weight"@, TypeClass::Plain, e, s.n_expert as int)
            &&& vector(t[at + 5], p + "exp_probs_b.bias"@, TypeClass::Exact(0), s.n_expert as int)
            &&& stack(t[at + 6], p + "ffn_gate_exps.weight"@, TypeClass::Routed, e, s.n_ff_exp as int, s.n_expert as int)
            &&& stack(t[at + 7], p + "ffn_up_exps.weight"@, TypeClass::Routed, e, s.n_ff_exp as int, s.n_expert as int)
            &&& stack(t[at + 8], p + "ffn_down_exps.weight"@, TypeClass::Routed, s.n_ff_exp as int, e, s.n_expert as int)
            &&& matrix(t[at + 9], p + "ffn_gate_shexp.weight"@, TypeClass::Exact(8), e, s.n_ff_exp as int)
            &&& matrix(t[at + 10], p + "ffn_up_shexp.weight"@, TypeClass::Exact(8), e, s.n_ff_exp as int)
            &&& matrix(t[at + 11], p + "ffn_down_shexp.weight"@, TypeClass::Exact(8), s.n_ff_exp as int, e)
        }),
{
    let p = "dspark."@ + text::decimal(il) + "."@;
    let t = deepseek::dspark_rows(s, markov_rank, n_blocks);
    let at: int = 9 + 24 * il as int + 12;
    let g = deepseek::sibling_ffn_rows(s, p);
    let b = deepseek::dspark_blocks(s, n_blocks as nat);
    lemma_dspark_len(s, n_blocks as nat);
    lemma_dspark_at(s, n_blocks as nat, il);
    assert forall|k: int| 0 <= k < 12 implies t[at + k] == #[trigger] g[k] by {
        assert(deepseek::deepseek_block_rows(s, p)[12 + k] == g[k]);
        assert(t[at + k] == b[24 * il as int + 12 + k]);
    }
    assert(t[at] == g[0]);
    assert(t[at + 1] == g[1]);
    assert(t[at + 2] == g[2]);
    assert(t[at + 3] == g[3]);
    assert(t[at + 4] == g[4]);
    assert(t[at + 5] == g[5]);
    assert(t[at + 6] == g[6]);
    assert(t[at + 7] == g[7]);
    assert(t[at + 8] == g[8]);
    assert(t[at + 9] == g[9]);
    assert(t[at + 10] == g[10]);
    assert(t[at + 11] == g[11]);
}

/// In every family the embedding and the output agree: each is a matrix between
/// the width of the stream and the number of tokens, the norm in front of the
/// output is as wide as the stream, and the output stands behind both.
pub proof fn law_embedding_and_output_agree(s: Shape)
    ensures
        exists|i: int, j: int, k: int|
            #![trigger layout::expected_rows(s)[i], layout::expected_rows(s)[j], layout::expected_rows(s)[k]]
            {
                let t = layout::expected_rows(s);
                &&& 0 <= i < j < k < t.len()
                &&& t[i].name == "token_embd.weight"@
                &&& t[j].name == "output_norm.weight"@
                &&& t[k].name == "output.weight"@
                &&& t[i].ndim == 2 && t[k].ndim == 2 && t[j].ndim == 1
                &&& t[i].d0 == s.n_embd && t[i].d1 == s.n_vocab
                &&& t[k].d0 == t[i].d0 && t[k].d1 == t[i].d1
                &&& t[j].d0 == t[i].d0
            },
{
    let t = layout::expected_rows(s);
    match s.family {
        ModelFamily::DeepSeek4 => {
            law_deepseek_head(s);
            lemma_deepseek_len(s, s.n_layer as nat);
            assert(t[0].d0 == t[5].d0 && t[4].d0 == t[0].d0);
        },
        ModelFamily::SolarOpen2 => {
            law_solar_head(s);
            lemma_solar_len(s, s.n_layer as nat);
            assert(t[0].d0 == t[2].d0 && t[1].d0 == t[0].d0);
        },
        ModelFamily::Motif3 => {
            law_motif_head(s);
            lemma_motif_len(s, s.n_layer as nat);
            assert(t[0].d0 == t[2].d0 && t[1].d0 == t[0].d0);
        },
        ModelFamily::ExaoneMoe => {
            law_exaone_head(s);
            lemma_exaone_len(s, s.n_layer as nat);
            assert(t[0].d0 == t[2].d0 && t[1].d0 == t[0].d0);
        },
        ModelFamily::Dots3Note => {
            law_dots_head(s);
            lemma_dots_len(s, s.n_layer as nat);
            assert(t[0].d0 == t[2].d0 && t[1].d0 == t[0].d0);
        },
    }
}

} // verus!
