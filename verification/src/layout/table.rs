//! The rows of a layout table.

use crate::text;
use crate::text::push_u64;
use vstd::prelude::*;
use vstd::string::*;

verus! {

pub const T_F32: u32 = 0;
pub const T_F16: u32 = 1;
pub const T_Q8_0: u32 = 8;
pub const T_Q2_K: u32 = 10;
pub const T_Q3_K: u32 = 11;
pub const T_Q4_K: u32 = 12;
pub const T_Q5_K: u32 = 13;
pub const T_Q6_K: u32 = 14;
pub const T_IQ2_XXS: u32 = 16;
pub const T_I32: u32 = 26;
pub const T_BF16: u32 = 30;

/// Which tensor types a row accepts.
#[derive(Clone, Copy, Debug, PartialEq, Eq, Structural)]
pub enum TypeClass {
    Exact(u32),
    OptionalExact(u32),
    Plain,
    MotifProj,
    Routed,
    ExaoneQuant,
    SolarGateUp,
    SolarDown,
    SolarConv,
    SolarDecay,
}

/// One expected tensor: its name, the types it may have, its dimensions.
#[derive(Debug)]
pub struct LayoutSpec {
    pub name: String,
    pub class: TypeClass,
    pub ndim: u32,
    pub dim: [u64; 4],
}

/// What a [`LayoutSpec`] says, as plain values.
pub struct Row {
    pub name: Seq<char>,
    pub class: TypeClass,
    pub ndim: int,
    pub d0: int,
    pub d1: int,
    pub d2: int,
    pub d3: int,
}

impl View for LayoutSpec {
    type V = Row;

    open spec fn view(&self) -> Row {
        row(
            self.name@,
            self.class,
            self.ndim as int,
            self.dim@[0] as int,
            self.dim@[1] as int,
            self.dim@[2] as int,
            self.dim@[3] as int,
        )
    }
}

pub open spec fn row(
    name: Seq<char>,
    class: TypeClass,
    ndim: int,
    d0: int,
    d1: int,
    d2: int,
    d3: int,
) -> Row {
    Row { name, class, ndim, d0, d1, d2, d3 }
}

/// The rows that `specs` states, in order.
pub open spec fn rows(specs: Seq<LayoutSpec>) -> Seq<Row> {
    Seq::new(specs.len(), |i: int| specs[i]@)
}

impl Row {
    /// The dimension `i`.
    pub open spec fn dim(self, i: int) -> int {
        if i == 0 {
            self.d0
        } else if i == 1 {
            self.d1
        } else if i == 2 {
            self.d2
        } else {
            self.d3
        }
    }
}

impl TypeClass {
    /// The dimensions of a tensor of this class may be padded with ones.
    pub open spec fn padded(self) -> bool {
        self is SolarConv || self is SolarDecay
    }
}

impl LayoutSpec {
    /// The row counts no more dimensions than it states.
    pub open spec fn well_formed(self) -> bool {
        self.class.padded() || self.ndim <= 4
    }
}

/// Every one of `specs` is well formed.
pub open spec fn sound(specs: Seq<LayoutSpec>) -> bool {
    forall|i: int| 0 <= i < specs.len() ==> (#[trigger] specs[i]).well_formed()
}

/// The prefix of the tensors of block `il`: `head`, the number and a dot.
pub open spec fn block_prefix(head: Seq<char>, il: nat) -> Seq<char> {
    head + text::decimal(il) + "."@
}

/// `prefix` followed by `suffix`.
pub fn joined(prefix: &str, suffix: &str) -> (r: String)
    ensures
        r@ == prefix@ + suffix@,
{
    let mut r = String::from_str(prefix);
    r.append(suffix);
    r
}

pub fn block_name(head: &str, il: u32) -> (r: String)
    ensures
        r@ == block_prefix(head@, il as nat),
{
    let mut r = String::from_str(head);
    push_u64(&mut r, il as u64);
    r.append(".");
    r
}

/// Appends the row named `prefix` followed by `suffix`.
pub fn put(
    out: &mut Vec<LayoutSpec>,
    prefix: &str,
    suffix: &str,
    class: TypeClass,
    ndim: u32,
    dim: [u64; 4],
)
    requires
        ndim <= 4,
    ensures
        sound(old(out)@) ==> sound(final(out)@),
        rows(final(out)@) == rows(old(out)@).push(
            row(
                prefix@ + suffix@,
                class,
                ndim as int,
                dim@[0] as int,
                dim@[1] as int,
                dim@[2] as int,
                dim@[3] as int,
            ),
        ),
{
    out.push(LayoutSpec { name: joined(prefix, suffix), class, ndim, dim });
}

/// Appends the row named `name`.
pub fn put_top(out: &mut Vec<LayoutSpec>, name: &str, class: TypeClass, ndim: u32, dim: [u64; 4])
    requires
        ndim <= 4,
    ensures
        sound(old(out)@) ==> sound(final(out)@),
        rows(final(out)@) == rows(old(out)@).push(
            row(
                name@,
                class,
                ndim as int,
                dim@[0] as int,
                dim@[1] as int,
                dim@[2] as int,
                dim@[3] as int,
            ),
        ),
{
    out.push(LayoutSpec { name: String::from_str(name), class, ndim, dim });
}

pub fn product(a: u32, b: u32) -> (r: u64)
    ensures
        r == a * b,
{
    assert(a * b <= 0xffff_ffff * 0xffff_ffff) by (nonlinear_arith)
        requires
            0 <= a <= 0xffff_ffff,
            0 <= b <= 0xffff_ffff,
    ;
    assert(a * b >= 0) by (nonlinear_arith)
        requires
            0 <= a,
            0 <= b,
    ;
    a as u64 * b as u64
}

/// `n` spans of width `w`.
pub fn span(n: u32, w: u64) -> (r: u64)
    requires
        n * w <= u64::MAX,
    ensures
        r == n * w,
{
    assert(n * w >= 0) by (nonlinear_arith)
        requires
            0 <= n,
            0 <= w,
    ;
    n as u64 * w
}

/// The width of the hyper-connection mixer of `hc` streams.
pub fn mix_width(hc: u32) -> (r: u64)
    ensures
        r == 2 * hc + hc * hc,
{
    assert(hc * hc <= 0xffff_ffff * 0xffff_ffff) by (nonlinear_arith)
        requires
            0 <= hc <= 0xffff_ffff,
    ;
    2 * hc as u64 + product(hc, hc)
}

} // verus!
