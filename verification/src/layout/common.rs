//! Rows that several families share.

use crate::layout::table;
use crate::layout::table::{put_top, LayoutSpec, Row, TypeClass, T_F32, T_Q8_0};
use crate::shape::Shape;
use vstd::prelude::*;

verus! {

/// Embedding and output of the families with 8-bit token tables.
pub open spec fn q8_head_rows(s: Shape) -> Seq<Row> {
    let e: int = s.n_embd as int;
    seq![
        table::row("token_embd.weight"@, TypeClass::Exact(T_Q8_0), 2, e, s.n_vocab as int, 0, 0),
        table::row("output_norm.weight"@, TypeClass::Exact(T_F32), 1, e, 0, 0, 0),
        table::row("output.weight"@, TypeClass::Exact(T_Q8_0), 2, e, s.n_vocab as int, 0, 0),
    ]
}

pub(crate) fn q8_head(out: &mut Vec<LayoutSpec>, s: &Shape)
    ensures
        table::sound(old(out)@) ==> table::sound(final(out)@),
        table::rows(final(out)@) == table::rows(old(out)@) + q8_head_rows(*s),
{
    let e: u64 = s.n_embd as u64;
    put_top(out, "token_embd.weight", TypeClass::Exact(T_Q8_0), 2, [e, s.n_vocab as u64, 0, 0]);
    put_top(out, "output_norm.weight", TypeClass::Exact(T_F32), 1, [e, 0, 0, 0]);
    put_top(out, "output.weight", TypeClass::Exact(T_Q8_0), 2, [e, s.n_vocab as u64, 0, 0]);
}

/// Whether layer `il` is one of the trailing next-token-prediction layers.
pub open spec fn nextn_layer(s: Shape, il: int) -> bool {
    s.n_nextn_predict != 0 && il + s.n_nextn_predict >= s.n_layer
}

/// Layer numbers and the count of prediction layers add up within a word.
pub open spec fn nextn_fits(s: Shape) -> bool {
    s.n_layer + s.n_nextn_predict <= 0x1_0000_0000
}

pub(crate) fn nextn_defined(s: &Shape) -> (r: bool)
    ensures
        r == nextn_fits(*s),
{
    s.n_layer as u64 + s.n_nextn_predict as u64 <= 0x1_0000_0000
}

pub(crate) fn is_nextn(s: &Shape, il: u32) -> (r: bool)
    requires
        nextn_fits(*s),
        il < s.n_layer,
    ensures
        r == nextn_layer(*s, il as int),
{
    s.n_nextn_predict != 0 && il + s.n_nextn_predict >= s.n_layer
}

} // verus!
