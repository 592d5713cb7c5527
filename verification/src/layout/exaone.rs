//! The layout table of the EXAONE family.

use crate::layout::common;
use crate::layout::common::is_nextn;
use crate::layout::table;
use crate::layout::table::{block_name, product, put, put_top, LayoutSpec, Row, TypeClass, T_F32};
use crate::shape::Shape;
use vstd::prelude::*;

verus! {

/// Embedding and output.
pub open spec fn exaone_head_rows(s: Shape) -> Seq<Row> {
    let e: int = s.n_embd as int;
    seq![
        table::row("token_embd.weight"@, TypeClass::ExaoneQuant, 2, e, s.n_vocab as int, 0, 0),
        table::row("output_norm.weight"@, TypeClass::Exact(T_F32), 1, e, 0, 0, 0),
        table::row("output.weight"@, TypeClass::ExaoneQuant, 2, e, s.n_vocab as int, 0, 0),
    ]
}

fn exaone_head(out: &mut Vec<LayoutSpec>, s: &Shape)
    ensures
        table::sound(old(out)@) ==> table::sound(final(out)@),
        table::rows(final(out)@) == table::rows(old(out)@) + exaone_head_rows(*s),
{
    let e: u64 = s.n_embd as u64;
    put_top(out, "token_embd.weight", TypeClass::ExaoneQuant, 2, [e, s.n_vocab as u64, 0, 0]);
    put_top(out, "output_norm.weight", TypeClass::Exact(T_F32), 1, [e, 0, 0, 0]);
    put_top(out, "output.weight", TypeClass::ExaoneQuant, 2, [e, s.n_vocab as u64, 0, 0]);
}

/// The attention tensors at `p`.
pub open spec fn exaone_attn_rows(s: Shape, p: Seq<char>) -> Seq<Row> {
    let e: int = s.n_embd as int;
    let q_dim: int = s.n_head * s.n_head_dim;
    let kv_dim: int = s.n_head_kv * s.n_head_dim;
    seq![
        table::row(p + "attn_norm.weight"@, TypeClass::Exact(T_F32), 1, e, 0, 0, 0),
        table::row(p + "attn_q.weight"@, TypeClass::ExaoneQuant, 2, e, q_dim, 0, 0),
        table::row(p + "attn_k.weight"@, TypeClass::ExaoneQuant, 2, e, kv_dim, 0, 0),
        table::row(p + "attn_v.weight"@, TypeClass::ExaoneQuant, 2, e, kv_dim, 0, 0),
        table::row(p + "attn_output.weight"@, TypeClass::ExaoneQuant, 2, q_dim, e, 0, 0),
    ]
}

fn exaone_attn(out: &mut Vec<LayoutSpec>, p: &str, s: &Shape)
    ensures
        table::sound(old(out)@) ==> table::sound(final(out)@),
        table::rows(final(out)@) == table::rows(old(out)@) + exaone_attn_rows(*s, p@),
{
    let e: u64 = s.n_embd as u64;
    let q_dim: u64 = product(s.n_head, s.n_head_dim);
    let kv_dim: u64 = product(s.n_head_kv, s.n_head_dim);
    put(out, p, "attn_norm.weight", TypeClass::Exact(T_F32), 1, [e, 0, 0, 0]);
    put(out, p, "attn_q.weight", TypeClass::ExaoneQuant, 2, [e, q_dim, 0, 0]);
    put(out, p, "attn_k.weight", TypeClass::ExaoneQuant, 2, [e, kv_dim, 0, 0]);
    put(out, p, "attn_v.weight", TypeClass::ExaoneQuant, 2, [e, kv_dim, 0, 0]);
    put(out, p, "attn_output.weight", TypeClass::ExaoneQuant, 2, [q_dim, e, 0, 0]);
}

/// The query and key norms at `p`.
pub open spec fn exaone_qk_norm_rows(s: Shape, p: Seq<char>) -> Seq<Row> {
    seq![
        table::row(p + "attn_q_norm.weight"@, TypeClass::Exact(T_F32), 1, s.n_head_dim as int, 0, 0, 0),
        table::row(p + "attn_k_norm.weight"@, TypeClass::Exact(T_F32), 1, s.n_head_dim as int, 0, 0, 0),
    ]
}

fn exaone_qk_norm(out: &mut Vec<LayoutSpec>, p: &str, s: &Shape)
    ensures
        table::sound(old(out)@) ==> table::sound(final(out)@),
        table::rows(final(out)@) == table::rows(old(out)@) + exaone_qk_norm_rows(*s, p@),
{
    put(out, p, "attn_q_norm.weight", TypeClass::Exact(T_F32), 1, [s.n_head_dim as u64, 0, 0, 0]);
    put(out, p, "attn_k_norm.weight", TypeClass::Exact(T_F32), 1, [s.n_head_dim as u64, 0, 0, 0]);
}

/// The dense feed-forward tensors at `p`.
pub open spec fn exaone_dense_ffn_rows(s: Shape, p: Seq<char>) -> Seq<Row> {
    let e: int = s.n_embd as int;
    seq![
        table::row(p + "ffn_gate.weight"@, TypeClass::ExaoneQuant, 2, e, s.n_ff_dense as int, 0, 0),
        table::row(p + "ffn_up.weight"@, TypeClass::ExaoneQuant, 2, e, s.n_ff_dense as int, 0, 0),
        table::row(p + "ffn_down.weight"@, TypeClass::ExaoneQuant, 2, s.n_ff_dense as int, e, 0, 0),
    ]
}

fn exaone_dense_ffn(out: &mut Vec<LayoutSpec>, p: &str, s: &Shape)
    ensures
        table::sound(old(out)@) ==> table::sound(final(out)@),
        table::rows(final(out)@) == table::rows(old(out)@) + exaone_dense_ffn_rows(*s, p@),
{
    let e: u64 = s.n_embd as u64;
    put(out, p, "ffn_gate.weight", TypeClass::ExaoneQuant, 2, [e, s.n_ff_dense as u64, 0, 0]);
    put(out, p, "ffn_up.weight", TypeClass::ExaoneQuant, 2, [e, s.n_ff_dense as u64, 0, 0]);
    put(out, p, "ffn_down.weight", TypeClass::ExaoneQuant, 2, [s.n_ff_dense as u64, e, 0, 0]);
}

/// The expert feed-forward tensors at `p`.
pub open spec fn exaone_expert_ffn_rows(s: Shape, p: Seq<char>) -> Seq<Row> {
    let e: int = s.n_embd as int;
    seq![
        table::row(p + "ffn_gate_inp.weight"@, TypeClass::Exact(T_F32), 2, e, s.n_expert as int, 0, 0),
        table::row(p + "exp_probs_b.bias"@, TypeClass::Exact(T_F32), 1, s.n_expert as int, 0, 0, 0),
        table::row(p + "ffn_gate_exps.weight"@, TypeClass::ExaoneQuant, 3, e, s.n_ff_exp as int, s.n_expert as int, 0),
        table::row(p + "ffn_up_exps.weight"@, TypeClass::ExaoneQuant, 3, e, s.n_ff_exp as int, s.n_expert as int, 0),
        table::row(p + "ffn_down_exps.weight"@, TypeClass::ExaoneQuant, 3, s.n_ff_exp as int, e, s.n_expert as int, 0),
        table::row(p + "ffn_gate_shexp.weight"@, TypeClass::ExaoneQuant, 2, e, s.n_ff_shexp as int, 0, 0),
        table::row(p + "ffn_up_shexp.weight"@, TypeClass::ExaoneQuant, 2, e, s.n_ff_shexp as int, 0, 0),
        table::row(p + "ffn_down_shexp.weight"@, TypeClass::ExaoneQuant, 2, s.n_ff_shexp as int, e, 0, 0),
    ]
}

fn exaone_expert_ffn(out: &mut Vec<LayoutSpec>, p: &str, s: &Shape)
    ensures
        table::sound(old(out)@) ==> table::sound(final(out)@),
        table::rows(final(out)@) == table::rows(old(out)@) + exaone_expert_ffn_rows(*s, p@),
{
    let e: u64 = s.n_embd as u64;
    put(out, p, "ffn_gate_inp.weight", TypeClass::Exact(T_F32), 2, [e, s.n_expert as u64, 0, 0]);
    put(out, p, "exp_probs_b.bias", TypeClass::Exact(T_F32), 1, [s.n_expert as u64, 0, 0, 0]);
    put(out, p, "ffn_gate_exps.weight", TypeClass::ExaoneQuant, 3, [e, s.n_ff_exp as u64, s.n_expert as u64, 0]);
    put(out, p, "ffn_up_exps.weight", TypeClass::ExaoneQuant, 3, [e, s.n_ff_exp as u64, s.n_expert as u64, 0]);
    put(out, p, "ffn_down_exps.weight", TypeClass::ExaoneQuant, 3, [s.n_ff_exp as u64, e, s.n_expert as u64, 0]);
    put(out, p, "ffn_gate_shexp.weight", TypeClass::ExaoneQuant, 2, [e, s.n_ff_shexp as u64, 0, 0]);
    put(out, p, "ffn_up_shexp.weight", TypeClass::ExaoneQuant, 2, [e, s.n_ff_shexp as u64, 0, 0]);
    put(out, p, "ffn_down_shexp.weight", TypeClass::ExaoneQuant, 2, [s.n_ff_shexp as u64, e, 0, 0]);
}

/// The tensors at `p` of a next-token-prediction layer.
pub open spec fn exaone_nextn_rows(s: Shape, p: Seq<char>) -> Seq<Row> {
    let e: int = s.n_embd as int;
    seq![
        table::row(p + "nextn.eh_proj.weight"@, TypeClass::ExaoneQuant, 2, 2 * e, e, 0, 0),
        table::row(p + "nextn.enorm.weight"@, TypeClass::Exact(T_F32), 1, e, 0, 0, 0),
        table::row(p + "nextn.hnorm.weight"@, TypeClass::Exact(T_F32), 1, e, 0, 0, 0),
        table::row(p + "nextn.shared_head_norm.weight"@, TypeClass::Exact(T_F32), 1, e, 0, 0, 0),
    ]
}

fn exaone_nextn(out: &mut Vec<LayoutSpec>, p: &str, s: &Shape)
    ensures
        table::sound(old(out)@) ==> table::sound(final(out)@),
        table::rows(final(out)@) == table::rows(old(out)@) + exaone_nextn_rows(*s, p@),
{
    let e: u64 = s.n_embd as u64;
    put(out, p, "nextn.eh_proj.weight", TypeClass::ExaoneQuant, 2, [2 * e, e, 0, 0]);
    put(out, p, "nextn.enorm.weight", TypeClass::Exact(T_F32), 1, [e, 0, 0, 0]);
    put(out, p, "nextn.hnorm.weight", TypeClass::Exact(T_F32), 1, [e, 0, 0, 0]);
    put(out, p, "nextn.shared_head_norm.weight", TypeClass::Exact(T_F32), 1, [e, 0, 0, 0]);
}

/// The rows of layer `il`.
pub open spec fn exaone_layer_rows(s: Shape, il: nat) -> Seq<Row> {
    let p = table::block_prefix("blk."@, il);
    let qk = if s.use_qk_norm {
        exaone_qk_norm_rows(s, p)
    } else {
        seq![]
    };
    let ffn = if il < s.n_leading_dense || common::nextn_layer(s, il as int) {
        exaone_dense_ffn_rows(s, p)
    } else {
        exaone_expert_ffn_rows(s, p)
    };
    let nextn = if common::nextn_layer(s, il as int) {
        exaone_nextn_rows(s, p)
    } else {
        seq![]
    };
    exaone_attn_rows(s, p) + qk + seq![
        table::row(p + "ffn_norm.weight"@, TypeClass::Exact(T_F32), 1, s.n_embd as int, 0, 0, 0),
    ] + ffn + nextn
}

/// The rows of the first `n` layers.
pub open spec fn exaone_layers(s: Shape, n: nat) -> Seq<Row>
    decreases n,
{
    if n == 0 {
        seq![]
    } else {
        exaone_layers(s, (n - 1) as nat) + exaone_layer_rows(s, (n - 1) as nat)
    }
}

/// The table of the EXAONE family: head and layers.
pub open spec fn exaone_rows(s: Shape) -> Seq<Row> {
    exaone_head_rows(s) + exaone_layers(s, s.n_layer as nat)
}

fn exaone_layer(out: &mut Vec<LayoutSpec>, s: &Shape, il: u32)
    requires
        common::nextn_fits(*s),
        il < s.n_layer,
    ensures
        table::sound(old(out)@) ==> table::sound(final(out)@),
        table::rows(final(out)@) == table::rows(old(out)@) + exaone_layer_rows(*s, il as nat),
{
    let p = block_name("blk.", il);
    exaone_attn(out, p.as_str(), s);
    if s.use_qk_norm {
        exaone_qk_norm(out, p.as_str(), s);
    }
    put(out, p.as_str(), "ffn_norm.weight", TypeClass::Exact(T_F32), 1, [s.n_embd as u64, 0, 0, 0]);
    if il < s.n_leading_dense || is_nextn(s, il) {
        exaone_dense_ffn(out, p.as_str(), s);
    } else {
        exaone_expert_ffn(out, p.as_str(), s);
    }
    if is_nextn(s, il) {
        exaone_nextn(out, p.as_str(), s);
    }
}

/// The expected tensors of an EXAONE model.
pub fn expected_exaone(s: &Shape) -> (out: Vec<LayoutSpec>)
    requires
        common::nextn_fits(*s),
    ensures
        table::sound(out@),
        table::rows(out@) == exaone_rows(*s),
{
    let mut out: Vec<LayoutSpec> = Vec::new();
    exaone_head(&mut out, s);
    let mut il: u32 = 0;
    while il < s.n_layer
        invariant
            il <= s.n_layer,
            common::nextn_fits(*s),
            table::sound(out@),
            table::rows(out@) == exaone_head_rows(*s) + exaone_layers(*s, il as nat),
        decreases s.n_layer - il,
    {
        exaone_layer(&mut out, s, il);
        il += 1;
    }
    out
}

/// `name` is that of the query or the key norm of some layer.
pub open spec fn is_qk_norm(name: Seq<char>) -> bool {
    exists|il: nat|
        name == #[trigger] table::block_prefix("blk."@, il) + "attn_q_norm.weight"@ || name
            == table::block_prefix("blk."@, il) + "attn_k_norm.weight"@
}

/// The query and key norms of the first `n` layers.
pub open spec fn qk_norms(s: Shape, n: nat) -> Seq<Row>
    decreases n,
{
    if n == 0 {
        seq![]
    } else {
        qk_norms(s, (n - 1) as nat) + exaone_qk_norm_rows(
            s,
            table::block_prefix("blk."@, (n - 1) as nat),
        )
    }
}

/// None of `rows` is a query or key norm.
#[verifier::opaque]
spec fn without_norms(rows: Seq<Row>) -> bool {
    forall|i: int| 0 <= i < rows.len() ==> !is_qk_norm((#[trigger] rows[i]).name)
}

/// The thirteenth character from the end tells the norms from all else.
proof fn lemma_qk_norm_mark(name: Seq<char>)
    requires
        is_qk_norm(name),
    ensures
        name.len() >= 13,
        name[name.len() - 13] == 'q' || name[name.len() - 13] == 'k',
{
    reveal_strlit("attn_q_norm.weight");
    reveal_strlit("attn_k_norm.weight");
    let il = choose|il: nat|
        name == #[trigger] table::block_prefix("blk."@, il) + "attn_q_norm.weight"@ || name
            == table::block_prefix("blk."@, il) + "attn_k_norm.weight"@;
    let p = table::block_prefix("blk."@, il);
    assert((p + "attn_q_norm.weight"@)[p.len() as int + 5] == 'q');
    assert((p + "attn_k_norm.weight"@)[p.len() as int + 5] == 'k');
}

proof fn lemma_not_qk_norm(p: Seq<char>, suffix: Seq<char>)
    requires
        suffix.len() >= 13,
        suffix[suffix.len() - 13] != 'q',
        suffix[suffix.len() - 13] != 'k',
    ensures
        !is_qk_norm(p + suffix),
{
    let name = p + suffix;
    assert(name[name.len() - 13] == suffix[suffix.len() - 13]);
    if is_qk_norm(name) {
        lemma_qk_norm_mark(name);
    }
}

proof fn lemma_head_names(s: Shape)
    ensures
        without_norms(exaone_head_rows(s)),
{
    reveal(without_norms);
    reveal_strlit("token_embd.weight");
    reveal_strlit("output_norm.weight");
    reveal_strlit("output.weight");
    let none = Seq::<char>::empty();
    lemma_not_qk_norm(none, "token_embd.weight"@);
    lemma_not_qk_norm(none, "output_norm.weight"@);
    lemma_not_qk_norm(none, "output.weight"@);
    assert(none + "token_embd.weight"@ =~= "token_embd.weight"@);
    assert(none + "output_norm.weight"@ =~= "output_norm.weight"@);
    assert(none + "output.weight"@ =~= "output.weight"@);
}

proof fn lemma_attn_names(s: Shape, p: Seq<char>)
    ensures
        without_norms(exaone_attn_rows(s, p)),
        !is_qk_norm(p + "ffn_norm.weight"@),
{
    reveal(without_norms);
    reveal_strlit("attn_norm.weight");
    reveal_strlit("attn_q.weight");
    reveal_strlit("attn_k.weight");
    reveal_strlit("attn_v.weight");
    reveal_strlit("attn_output.weight");
    reveal_strlit("ffn_norm.weight");
    lemma_not_qk_norm(p, "attn_norm.weight"@);
    lemma_not_qk_norm(p, "attn_q.weight"@);
    lemma_not_qk_norm(p, "attn_k.weight"@);
    lemma_not_qk_norm(p, "attn_v.weight"@);
    lemma_not_qk_norm(p, "attn_output.weight"@);
    lemma_not_qk_norm(p, "ffn_norm.weight"@);
}

proof fn lemma_ffn_names(s: Shape, p: Seq<char>)
    ensures
        without_norms(exaone_dense_ffn_rows(s, p)),
        without_norms(exaone_expert_ffn_rows(s, p)),
{
    reveal(without_norms);
    reveal_strlit("ffn_gate.weight");
    reveal_strlit("ffn_up.weight");
    reveal_strlit("ffn_down.weight");
    reveal_strlit("ffn_gate_inp.weight");
    reveal_strlit("exp_probs_b.bias");
    reveal_strlit("ffn_gate_exps.weight");
    reveal_strlit("ffn_up_exps.weight");
    reveal_strlit("ffn_down_exps.weight");
    reveal_strlit("ffn_gate_shexp.weight");
    reveal_strlit("ffn_up_shexp.weight");
    reveal_strlit("ffn_down_shexp.weight");
    lemma_not_qk_norm(p, "ffn_gate.weight"@);
    lemma_not_qk_norm(p, "ffn_up.weight"@);
    lemma_not_qk_norm(p, "ffn_down.weight"@);
    lemma_not_qk_norm(p, "ffn_gate_inp.weight"@);
    lemma_not_qk_norm(p, "exp_probs_b.bias"@);
    lemma_not_qk_norm(p, "ffn_gate_exps.weight"@);
    lemma_not_qk_norm(p, "ffn_up_exps.weight"@);
    lemma_not_qk_norm(p, "ffn_down_exps.weight"@);
    lemma_not_qk_norm(p, "ffn_gate_shexp.weight"@);
    lemma_not_qk_norm(p, "ffn_up_shexp.weight"@);
    lemma_not_qk_norm(p, "ffn_down_shexp.weight"@);
}

proof fn lemma_nextn_names(s: Shape, p: Seq<char>)
    ensures
        without_norms(exaone_nextn_rows(s, p)),
{
    reveal(without_norms);
    reveal_strlit("nextn.eh_proj.weight");
    reveal_strlit("nextn.enorm.weight");
    reveal_strlit("nextn.hnorm.weight");
    reveal_strlit("nextn.shared_head_norm.weight");
    lemma_not_qk_norm(p, "nextn.eh_proj.weight"@);
    lemma_not_qk_norm(p, "nextn.enorm.weight"@);
    lemma_not_qk_norm(p, "nextn.hnorm.weight"@);
    lemma_not_qk_norm(p, "nextn.shared_head_norm.weight"@);
}

proof fn lemma_keeps_all(rows: Seq<Row>, keep: spec_fn(Row) -> bool)
    requires
        forall|i: int| 0 <= i < rows.len() ==> keep(#[trigger] rows[i]),
    ensures
        rows.filter(keep) == rows,
    decreases rows.len(),
{
    reveal(Seq::filter);
    if rows.len() > 0 {
        lemma_keeps_all(rows.drop_last(), keep);
        assert(rows.drop_last().push(rows.last()) =~= rows);
    }
}

proof fn lemma_keeps_none(rows: Seq<Row>, keep: spec_fn(Row) -> bool)
    requires
        forall|i: int| 0 <= i < rows.len() ==> !keep(#[trigger] rows[i]),
    ensures
        rows.filter(keep) == Seq::<Row>::empty(),
    decreases rows.len(),
{
    reveal(Seq::filter);
    if rows.len() > 0 {
        lemma_keeps_none(rows.drop_last(), keep);
    }
}

/// `rows` part into `norms`, which are the query and key norms among them, and
/// `rest`.
#[verifier::opaque]
spec fn parts_into(rows: Seq<Row>, norms: Seq<Row>, rest: Seq<Row>) -> bool {
    &&& rows.filter(|r: Row| is_qk_norm(r.name)) == norms
    &&& rows.filter(|r: Row| !is_qk_norm(r.name)) == rest
    &&& rows.len() == norms.len() + rest.len()
}

proof fn lemma_none_part(rows: Seq<Row>)
    requires
        without_norms(rows),
    ensures
        parts_into(rows, seq![], rows),
{
    reveal(without_norms);
    reveal(parts_into);
    lemma_keeps_none(rows, |r: Row| is_qk_norm(r.name));
    lemma_keeps_all(rows, |r: Row| !is_qk_norm(r.name));
}

proof fn lemma_all_part(norms: Seq<Row>)
    requires
        forall|i: int| 0 <= i < norms.len() ==> is_qk_norm((#[trigger] norms[i]).name),
    ensures
        parts_into(norms, norms, seq![]),
{
    reveal(parts_into);
    lemma_keeps_all(norms, |r: Row| is_qk_norm(r.name));
    lemma_keeps_none(norms, |r: Row| !is_qk_norm(r.name));
}

/// Where two tables part, so does the one made of both.
proof fn lemma_both_part(
    x: Seq<Row>,
    x_norms: Seq<Row>,
    x_rest: Seq<Row>,
    y: Seq<Row>,
    y_norms: Seq<Row>,
    y_rest: Seq<Row>,
)
    requires
        parts_into(x, x_norms, x_rest),
        parts_into(y, y_norms, y_rest),
    ensures
        parts_into(x + y, x_norms + y_norms, x_rest + y_rest),
{
    reveal(parts_into);
    Seq::filter_distributes_over_add(x, y, |r: Row| is_qk_norm(r.name));
    Seq::filter_distributes_over_add(x, y, |r: Row| !is_qk_norm(r.name));
}

/// The rows of layer `il` behind the query and key norms.
spec fn behind_norms(s: Shape, il: nat) -> Seq<Row> {
    let p = table::block_prefix("blk."@, il);
    let ffn = if il < s.n_leading_dense || common::nextn_layer(s, il as int) {
        exaone_dense_ffn_rows(s, p)
    } else {
        exaone_expert_ffn_rows(s, p)
    };
    let nextn = if common::nextn_layer(s, il as int) {
        exaone_nextn_rows(s, p)
    } else {
        seq![]
    };
    seq![
        table::row(p + "ffn_norm.weight"@, TypeClass::Exact(T_F32), 1, s.n_embd as int, 0, 0, 0),
    ] + ffn + nextn
}

proof fn lemma_layer_parts(s: Shape, il: nat)
    ensures
        exaone_layer_rows(s, il) == exaone_attn_rows(s, table::block_prefix("blk."@, il)) + (
        if s.use_qk_norm {
            exaone_qk_norm_rows(s, table::block_prefix("blk."@, il))
        } else {
            seq![]
        }) + behind_norms(s, il),
{
    assert(exaone_layer_rows(s, il) =~= exaone_attn_rows(s, table::block_prefix("blk."@, il)) + (
    if s.use_qk_norm {
        exaone_qk_norm_rows(s, table::block_prefix("blk."@, il))
    } else {
        seq![]
    }) + behind_norms(s, il));
}

proof fn lemma_behind_names(s: Shape, il: nat)
    ensures
        without_norms(behind_norms(s, il)),
{
    reveal(without_norms);
    let p = table::block_prefix("blk."@, il);
    lemma_attn_names(s, p);
    lemma_ffn_names(s, p);
    lemma_nextn_names(s, p);
}

proof fn lemma_norm_names(s: Shape, il: nat)
    ensures
        ({
            let norms = exaone_qk_norm_rows(s, table::block_prefix("blk."@, il));
            forall|i: int| 0 <= i < norms.len() ==> is_qk_norm((#[trigger] norms[i]).name)
        }),
{
}

/// The flag does not reach the rows around the norms.
proof fn lemma_flag_elsewhere(a: Shape, b: Shape, il: nat)
    requires
        b == (Shape { use_qk_norm: false, ..a }),
    ensures
        exaone_attn_rows(a, table::block_prefix("blk."@, il)) == exaone_attn_rows(
            b,
            table::block_prefix("blk."@, il),
        ),
        behind_norms(a, il) == behind_norms(b, il),
{
}

/// Norms between rows that are none part from them.
proof fn lemma_norms_between(
    with: Seq<Row>,
    without: Seq<Row>,
    front: Seq<Row>,
    norms: Seq<Row>,
    back: Seq<Row>,
)
    requires
        with == front + norms + back,
        without == front + Seq::<Row>::empty() + back,
        without_norms(front),
        without_norms(back),
        forall|i: int| 0 <= i < norms.len() ==> is_qk_norm((#[trigger] norms[i]).name),
    ensures
        parts_into(with, norms, without),
{
    let none = Seq::<Row>::empty();
    lemma_none_part(front);
    lemma_all_part(norms);
    lemma_none_part(back);
    lemma_both_part(front, none, front, norms, norms, none);
    lemma_both_part(front + norms, none + norms, front + none, back, none, back);
    assert(none + norms + none =~= norms);
}

proof fn lemma_layer_parts_into(a: Shape, b: Shape, il: nat)
    requires
        a.use_qk_norm,
        b == (Shape { use_qk_norm: false, ..a }),
    ensures
        parts_into(
            exaone_layer_rows(a, il),
            exaone_qk_norm_rows(a, table::block_prefix("blk."@, il)),
            exaone_layer_rows(b, il),
        ),
{
    let p = table::block_prefix("blk."@, il);
    lemma_attn_names(a, p);
    lemma_behind_names(a, il);
    lemma_norm_names(a, il);
    lemma_layer_parts(a, il);
    lemma_layer_parts(b, il);
    lemma_flag_elsewhere(a, b, il);
    lemma_norms_between(
        exaone_layer_rows(a, il),
        exaone_layer_rows(b, il),
        exaone_attn_rows(a, p),
        exaone_qk_norm_rows(a, p),
        behind_norms(a, il),
    );
}

proof fn lemma_layers_part_into(a: Shape, b: Shape, n: nat)
    requires
        a.use_qk_norm,
        b == (Shape { use_qk_norm: false, ..a }),
    ensures
        parts_into(exaone_layers(a, n), qk_norms(a, n), exaone_layers(b, n)),
    decreases n,
{
    if n == 0 {
        reveal(without_norms);
        lemma_none_part(exaone_layers(a, 0));
    } else {
        let m = (n - 1) as nat;
        lemma_layers_part_into(a, b, m);
        lemma_layer_parts_into(a, b, m);
        lemma_both_part(
            exaone_layers(a, m),
            qk_norms(a, m),
            exaone_layers(b, m),
            exaone_layer_rows(a, m),
            exaone_qk_norm_rows(a, table::block_prefix("blk."@, m)),
            exaone_layer_rows(b, m),
        );
    }
}

proof fn lemma_norms_len(s: Shape, n: nat)
    ensures
        qk_norms(s, n).len() == 2 * n,
    decreases n,
{
    if n > 0 {
        lemma_norms_len(s, (n - 1) as nat);
    }
}

proof fn lemma_norms_shape(s: Shape, n: nat, i: int)
    requires
        0 <= i < qk_norms(s, n).len(),
    ensures
        qk_norms(s, n)[i].class == TypeClass::Exact(T_F32),
        qk_norms(s, n)[i].ndim == 1,
        qk_norms(s, n)[i].d0 == s.n_head_dim,
    decreases n,
{
    if n > 0 && i < qk_norms(s, (n - 1) as nat).len() {
        lemma_norms_shape(s, (n - 1) as nat, i);
    }
}

/// The flag for query and key norms adds those norms and changes nothing else:
/// of two shapes that differ in the flag alone, the table of the one with it
/// is, without the norms, the table of the other, in the same order. The norms
/// are two to a layer, layer by layer, each of exact 32-bit floats with the one
/// dimension of a head.
pub proof fn law_qk_norm_adds_norms_alone(a: Shape, b: Shape)
    requires
        a.use_qk_norm,
        b == (Shape { use_qk_norm: false, ..a }),
    ensures
        exaone_rows(a).filter(|r: Row| !is_qk_norm(r.name)) == exaone_rows(b),
        exaone_rows(a).filter(|r: Row| is_qk_norm(r.name)) == qk_norms(a, a.n_layer as nat),
        qk_norms(a, a.n_layer as nat).len() == 2 * a.n_layer,
        exaone_rows(a).len() == exaone_rows(b).len() + 2 * a.n_layer,
        forall|i: int|
            0 <= i < exaone_rows(a).len() && is_qk_norm((#[trigger] exaone_rows(a)[i]).name) ==> {
                &&& exaone_rows(a)[i].class == TypeClass::Exact(T_F32)
                &&& exaone_rows(a)[i].ndim == 1
                &&& exaone_rows(a)[i].d0 == a.n_head_dim
            },
{
    let n = a.n_layer as nat;
    let norm = |r: Row| is_qk_norm(r.name);
    lemma_head_names(a);
    lemma_none_part(exaone_head_rows(a));
    lemma_layers_part_into(a, b, n);
    lemma_both_part(
        exaone_head_rows(a),
        seq![],
        exaone_head_rows(a),
        exaone_layers(a, n),
        qk_norms(a, n),
        exaone_layers(b, n),
    );
    assert(Seq::<Row>::empty() + qk_norms(a, n) =~= qk_norms(a, n));
    lemma_norms_len(a, n);
    reveal(parts_into);
    assert forall|i: int|
        0 <= i < exaone_rows(a).len() && is_qk_norm((#[trigger] exaone_rows(a)[i]).name) implies {
        &&& exaone_rows(a)[i].class == TypeClass::Exact(T_F32)
        &&& exaone_rows(a)[i].ndim == 1
        &&& exaone_rows(a)[i].d0 == a.n_head_dim
    } by {
        exaone_rows(a).lemma_filter_contains(norm, i);
        let k = choose|k: int|
            0 <= k < qk_norms(a, n).len() && qk_norms(a, n)[k] == exaone_rows(a)[i];
        lemma_norms_shape(a, n, k);
    }
}

} // verus!
