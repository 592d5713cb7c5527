//! Holding tensors to the rows that a layout table states for them.

use crate::layout::table;
use crate::layout::table::{
    LayoutSpec, Row, TypeClass, T_BF16, T_F16, T_F32, T_IQ2_XXS, T_Q2_K, T_Q3_K, T_Q4_K, T_Q5_K,
    T_Q6_K, T_Q8_0,
};
use crate::shape::{BindPlan, BindSlot, TensorInfo, TypeNames};
use crate::shape;
use crate::text;
use crate::text::push_u64;
use vstd::prelude::*;
use vstd::string::*;

verus! {

/// Why a model's tensors do not match its layout.
#[derive(Debug)]
pub enum LayoutError {
    Missing(String),
    Type(String),
    Ndim(String),
    Dim(String),
    GateUp(u32),
}

/// What a [`LayoutError`] says, as plain values.
pub enum LayoutFault {
    Missing(Seq<char>),
    Type(Seq<char>),
    Ndim(Seq<char>),
    Dim(Seq<char>),
    GateUp(int),
}

impl View for LayoutError {
    type V = LayoutFault;

    open spec fn view(&self) -> LayoutFault {
        match *self {
            LayoutError::Missing(n) => LayoutFault::Missing(n@),
            LayoutError::Type(n) => LayoutFault::Type(n@),
            LayoutError::Ndim(n) => LayoutFault::Ndim(n@),
            LayoutError::Dim(n) => LayoutFault::Dim(n@),
            LayoutError::GateUp(il) => LayoutFault::GateUp(il as int),
        }
    }
}

impl LayoutFault {
    /// The short form of the fault.
    pub open spec fn token(self) -> Seq<char> {
        match self {
            LayoutFault::Missing(n) => "missing "@ + n,
            LayoutFault::Type(n) => "type "@ + n,
            LayoutFault::Ndim(n) => "ndim "@ + n,
            LayoutFault::Dim(n) => "dim "@ + n,
            LayoutFault::GateUp(il) => "gate-up "@ + text::decimal(il as nat),
        }
    }
}

impl LayoutError {
    /// The short form of the error.
    pub fn token(&self) -> (r: String)
        ensures
            r@ == self@.token(),
    {
        match self {
            LayoutError::Missing(n) => table::joined("missing ", n.as_str()),
            LayoutError::Type(n) => table::joined("type ", n.as_str()),
            LayoutError::Ndim(n) => table::joined("ndim ", n.as_str()),
            LayoutError::Dim(n) => table::joined("dim ", n.as_str()),
            LayoutError::GateUp(il) => {
                let mut r = String::from_str("gate-up ");
                push_u64(&mut r, *il as u64);
                r
            },
        }
    }
}

/// `r` reports the fault `f`, or success where there is none.
pub open spec fn reports(r: Result<(), LayoutError>, f: Option<LayoutFault>) -> bool {
    match (r, f) {
        (Ok(_), None) => true,
        (Err(e), Some(fault)) => e@ == fault,
        _ => false,
    }
}

impl TypeClass {
    /// The short form of the class; `names` gives the type names.
    pub open spec fn spec_token(self, names: TypeNames) -> Seq<char> {
        match self {
            TypeClass::Exact(t) => "exact:"@ + names.spec_name(t),
            TypeClass::OptionalExact(t) => "optional:"@ + names.spec_name(t),
            TypeClass::Plain => "plain"@,
            TypeClass::MotifProj => "motif-proj"@,
            TypeClass::Routed => "routed"@,
            TypeClass::ExaoneQuant => "exaone-quant"@,
            TypeClass::SolarGateUp => "solar-gateup"@,
            TypeClass::SolarDown => "solar-down"@,
            TypeClass::SolarConv => "solar-conv"@,
            TypeClass::SolarDecay => "solar-decay"@,
        }
    }

    /// The short form of the class.
    pub fn token(self, names: &TypeNames) -> (r: String)
        ensures
            r@ == self.spec_token(*names),
    {
        match self {
            TypeClass::Exact(t) => table::joined("exact:", names.tensor_type_name(t)),
            TypeClass::OptionalExact(t) => table::joined("optional:", names.tensor_type_name(t)),
            TypeClass::Plain => String::from_str("plain"),
            TypeClass::MotifProj => String::from_str("motif-proj"),
            TypeClass::Routed => String::from_str("routed"),
            TypeClass::ExaoneQuant => String::from_str("exaone-quant"),
            TypeClass::SolarGateUp => String::from_str("solar-gateup"),
            TypeClass::SolarDown => String::from_str("solar-down"),
            TypeClass::SolarConv => String::from_str("solar-conv"),
            TypeClass::SolarDecay => String::from_str("solar-decay"),
        }
    }

    /// The tensor may be absent.
    pub open spec fn spec_optional(self) -> bool {
        self is OptionalExact
    }

    pub fn optional(self) -> (r: bool)
        ensures
            r == self.spec_optional(),
    {
        matches!(self, TypeClass::OptionalExact(_))
    }

    /// Tensors of type `typ` are accepted.
    pub open spec fn accepts(self, typ: u32) -> bool {
        match self {
            TypeClass::Exact(t) => typ == t,
            TypeClass::OptionalExact(t) => typ == t,
            TypeClass::Plain => typ == T_F16 || typ == T_F32,
            TypeClass::MotifProj => typ == T_F16 || typ == T_BF16,
            TypeClass::Routed => typ == T_IQ2_XXS || typ == T_Q2_K || typ == T_Q4_K,
            TypeClass::ExaoneQuant => {
                set![
                    T_Q8_0,
                    T_Q6_K,
                    T_Q5_K,
                    T_Q4_K,
                    T_Q3_K,
                    T_Q2_K,
                    T_IQ2_XXS,
                    T_F16,
                    T_F32,
                ].contains(typ)
            },
            TypeClass::SolarGateUp => typ == T_Q4_K || typ == T_Q2_K || typ == T_IQ2_XXS,
            TypeClass::SolarDown => typ == T_Q4_K || typ == T_Q3_K || typ == T_Q2_K,
            TypeClass::SolarConv => typ == T_F32,
            TypeClass::SolarDecay => typ == T_F32,
        }
    }
}

/// Whether a tensor of type `typ` meets `class`.
pub fn type_ok(class: TypeClass, typ: u32) -> (r: bool)
    ensures
        r == class.accepts(typ),
{
    match class {
        TypeClass::Exact(t) => typ == t,
        TypeClass::OptionalExact(t) => typ == t,
        TypeClass::Plain => typ == T_F16 || typ == T_F32,
        TypeClass::MotifProj => typ == T_F16 || typ == T_BF16,
        TypeClass::Routed => typ == T_IQ2_XXS || typ == T_Q2_K || typ == T_Q4_K,
        TypeClass::ExaoneQuant => {
            typ == T_Q8_0 || typ == T_Q6_K || typ == T_Q5_K || typ == T_Q4_K || typ == T_Q3_K
                || typ == T_Q2_K || typ == T_IQ2_XXS || typ == T_F16 || typ == T_F32
        },
        TypeClass::SolarGateUp => typ == T_Q4_K || typ == T_Q2_K || typ == T_IQ2_XXS,
        TypeClass::SolarDown => typ == T_Q4_K || typ == T_Q3_K || typ == T_Q2_K,
        TypeClass::SolarConv => typ == T_F32,
        TypeClass::SolarDecay => typ == T_F32,
    }
}

/// The dimensions `dim` with count `ndim` are those of `row`. A convolution
/// kernel may carry a trailing 1; a decay vector may be padded to four.
pub open spec fn dims_agree(row: Row, ndim: u32, dim: Seq<u64>) -> bool {
    match row.class {
        TypeClass::SolarConv => {
            &&& ndim == 3 || (ndim == 4 && dim[3] == 1)
            &&& dim[0] == row.d0
            &&& dim[1] == 1
            &&& dim[2] == row.d2
        },
        TypeClass::SolarDecay => {
            &&& ndim == 2 || (ndim == 4 && dim[2] == 1 && dim[3] == 1)
            &&& dim[0] == 1
            &&& dim[1] == row.d1
        },
        _ => ndim == row.ndim && forall|i: int| 0 <= i < ndim ==> dim[i] == row.dim(i),
    }
}

/// What is wrong with the dimensions of `t`.
pub open spec fn dim_fault(row: Row, t: TensorInfo) -> Option<LayoutFault> {
    if dims_agree(row, t.ndim, t.dim@) {
        None
    } else if !row.class.padded() && t.ndim != row.ndim {
        Some(LayoutFault::Ndim(row.name))
    } else {
        Some(LayoutFault::Dim(row.name))
    }
}

/// What is wrong with the tensor found for `row`: it is absent, then its
/// type, then its dimensions.
pub open spec fn tensor_fault(row: Row, t: Option<TensorInfo>) -> Option<LayoutFault> {
    match t {
        None => if row.class.spec_optional() {
            None
        } else {
            Some(LayoutFault::Missing(row.name))
        },
        Some(t) => if !row.class.accepts(t.typ) {
            Some(LayoutFault::Type(row.name))
        } else {
            dim_fault(row, t)
        },
    }
}

fn dims_match(spec: &LayoutSpec, t: &TensorInfo) -> (r: Result<(), LayoutError>)
    requires
        spec.well_formed(),
    ensures
        reports(r, dim_fault(spec@, *t)),
{
    match spec.class {
        TypeClass::SolarConv => {
            let d_inner: u64 = spec.dim[2];
            if t.ndim == 4 && t.dim[0] == spec.dim[0] && t.dim[1] == 1 && t.dim[2] == d_inner
                && t.dim[3] == 1 {
                return Ok(());
            }
            if t.ndim == 3 && t.dim[0] == spec.dim[0] && t.dim[1] == 1 && t.dim[2] == d_inner {
                return Ok(());
            }
            Err(LayoutError::Dim(spec.name.clone()))
        },
        TypeClass::SolarDecay => {
            if t.ndim == 4 && t.dim[0] == 1 && t.dim[1] == spec.dim[1] && t.dim[2] == 1
                && t.dim[3] == 1 {
                return Ok(());
            }
            if t.ndim == 2 && t.dim[0] == 1 && t.dim[1] == spec.dim[1] {
                return Ok(());
            }
            Err(LayoutError::Dim(spec.name.clone()))
        },
        _ => {
            if t.ndim != spec.ndim {
                return Err(LayoutError::Ndim(spec.name.clone()));
            }
            let mut i: usize = 0;
            while i < spec.ndim as usize
                invariant
                    i <= spec.ndim <= 4,
                    !spec.class.padded(),
                    t.ndim == spec.ndim,
                    forall|k: int| 0 <= k < i ==> t.dim@[k] == spec.dim@[k],
                decreases spec.ndim - i,
            {
                if t.dim[i] != spec.dim[i] {
                    assert(t.dim@[i as int] != spec.dim@[i as int]);
                    return Err(LayoutError::Dim(spec.name.clone()));
                }
                i += 1;
            }
            Ok(())
        },
    }
}

/// Holds the tensor found for `spec` to it.
pub fn expect_tensor(spec: &LayoutSpec, t: Option<&TensorInfo>) -> (r: Result<(), LayoutError>)
    requires
        spec.well_formed(),
    ensures
        reports(
            r,
            tensor_fault(
                spec@,
                match t {
                    Some(x) => Some(*x),
                    None => None,
                },
            ),
        ),
{
    match t {
        None => {
            if spec.class.optional() {
                return Ok(());
            }
            Err(LayoutError::Missing(spec.name.clone()))
        },
        Some(t) => {
            if !type_ok(spec.class, t.typ) {
                return Err(LayoutError::Type(spec.name.clone()));
            }
            dims_match(spec, t)
        },
    }
}

/// The fault of the first of `specs`, from `i` on, that its tensor in `slots`
/// does not meet.
pub open spec fn first_fault(
    specs: Seq<Row>,
    slots: Seq<BindSlot>,
    i: int,
) -> Option<LayoutFault>
    decreases specs.len() - i,
{
    if i < 0 || i >= specs.len() {
        None
    } else {
        match tensor_fault(specs[i], shape::tensor_named(slots, specs[i].name)) {
            Some(f) => Some(f),
            None => first_fault(specs, slots, i + 1),
        }
    }
}

/// Holds every one of `specs` to the tensor that `plan` binds for it.
pub fn expect_specs(specs: &Vec<LayoutSpec>, plan: &BindPlan) -> (r: Result<(), LayoutError>)
    requires
        table::sound(specs@),
    ensures
        reports(r, first_fault(table::rows(specs@), plan.slots@, 0)),
{
    let mut i: usize = 0;
    while i < specs.len()
        invariant
            i <= specs@.len(),
            table::sound(specs@),
            first_fault(table::rows(specs@), plan.slots@, 0) == first_fault(table::rows(specs@), plan.slots@, i as int),
        decreases specs@.len() - i,
    {
        assert(specs@[i as int].well_formed());
        match expect_tensor(&specs[i], plan.tensor(specs[i].name.as_str())) {
            Ok(()) => {},
            Err(e) => {
                return Err(e);
            },
        }
        i += 1;
    }
    Ok(())
}

/// A plan has no fault exactly where every row's tensor meets the row.
pub proof fn law_no_fault_means_all_rows_are_met(specs: Seq<Row>, slots: Seq<BindSlot>)
    ensures
        first_fault(specs, slots, 0) is None <==> forall|i: int|
            0 <= i < specs.len() ==> tensor_fault(
                #[trigger] specs[i],
                shape::tensor_named(slots, specs[i].name),
            ) is None,
{
    lemma_faults_from(specs, slots, 0);
}

proof fn lemma_faults_from(specs: Seq<Row>, slots: Seq<BindSlot>, from: int)
    requires
        0 <= from <= specs.len(),
    ensures
        first_fault(specs, slots, from) is None <==> forall|i: int|
            from <= i < specs.len() ==> tensor_fault(
                #[trigger] specs[i],
                shape::tensor_named(slots, specs[i].name),
            ) is None,
    decreases specs.len() - from,
{
    if from < specs.len() {
        lemma_faults_from(specs, slots, from + 1);
        let here = tensor_fault(specs[from], shape::tensor_named(slots, specs[from].name));
        if first_fault(specs, slots, from) is None {
            assert forall|i: int| from <= i < specs.len() implies tensor_fault(
                #[trigger] specs[i],
                shape::tensor_named(slots, specs[i].name),
            ) is None by {
                if i > from {
                    assert(from + 1 <= i);
                }
            }
        }
    }
}

/// Where the projections `gate` and `up` of an expert layer differ in type.
pub open spec fn gate_up_fault(
    slots: Seq<BindSlot>,
    gate: Seq<char>,
    up: Seq<char>,
    il: int,
) -> Option<LayoutFault> {
    match (shape::tensor_named(slots, gate), shape::tensor_named(slots, up)) {
        (Some(g), Some(u)) => if g.typ != u.typ {
            Some(LayoutFault::GateUp(il))
        } else {
            None
        },
        _ => None,
    }
}

/// Holds the projections `gate` and `up` to one type.
pub fn expect_gate_up(plan: &BindPlan, gate: &str, up: &str, il: u32) -> (r: Result<
    (),
    LayoutError,
>)
    ensures
        reports(r, gate_up_fault(plan.slots@, gate@, up@, il as int)),
{
    match (plan.tensor(gate), plan.tensor(up)) {
        (Some(g), Some(u)) => {
            if g.typ != u.typ {
                return Err(LayoutError::GateUp(il));
            }
            Ok(())
        },
        _ => Ok(()),
    }
}

/// The fault of the first of the blocks `il`, …, `n - 1` under `head` whose
/// gate and up projections differ in type.
pub open spec fn first_gate_up_fault(
    slots: Seq<BindSlot>,
    head: Seq<char>,
    il: nat,
    n: nat,
) -> Option<LayoutFault>
    decreases n - il,
{
    if il >= n {
        None
    } else {
        let p = table::block_prefix(head, il);
        match gate_up_fault(
            slots,
            p + "ffn_gate_exps.weight"@,
            p + "ffn_up_exps.weight"@,
            il as int,
        ) {
            Some(f) => Some(f),
            None => first_gate_up_fault(slots, head, il + 1, n),
        }
    }
}

/// Holds the two projections of each of the blocks 0, …, `n - 1` under `head`
/// to one type.
pub fn expect_gates(plan: &BindPlan, head: &str, n: u32) -> (r: Result<(), LayoutError>)
    ensures
        reports(r, first_gate_up_fault(plan.slots@, head@, 0, n as nat)),
{
    let mut il: u32 = 0;
    while il < n
        invariant
            il <= n,
            first_gate_up_fault(plan.slots@, head@, 0, n as nat) == first_gate_up_fault(
                plan.slots@,
                head@,
                il as nat,
                n as nat,
            ),
        decreases n - il,
    {
        let p = table::block_name(head, il);
        let gate = table::joined(p.as_str(), "ffn_gate_exps.weight");
        let up = table::joined(p.as_str(), "ffn_up_exps.weight");
        match expect_gate_up(plan, gate.as_str(), up.as_str(), il) {
            Ok(()) => {},
            Err(e) => {
                return Err(e);
            },
        }
        il += 1;
    }
    Ok(())
}

/// Which tensor types a class of rows accepts, by their numbers in a file.
pub proof fn law_accepted_types(t: u32, typ: u32)
    ensures
        TypeClass::Exact(t).accepts(typ) == (typ == t),
        TypeClass::OptionalExact(t).accepts(typ) == (typ == t),
        TypeClass::Plain.accepts(typ) == (typ == 0 || typ == 1),
        TypeClass::MotifProj.accepts(typ) == (typ == 1 || typ == 30),
        TypeClass::Routed.accepts(typ) == (typ == 10 || typ == 12 || typ == 16),
        TypeClass::ExaoneQuant.accepts(typ) == (typ == 0 || typ == 1 || typ == 8 || (10 <= typ
            <= 14) || typ == 16),
        TypeClass::SolarGateUp.accepts(typ) == (typ == 10 || typ == 12 || typ == 16),
        TypeClass::SolarDown.accepts(typ) == (10 <= typ <= 12),
        TypeClass::SolarConv.accepts(typ) == (typ == 0),
        TypeClass::SolarDecay.accepts(typ) == (typ == 0),
{
}

/// A tensor meets a row exactly where its type is accepted and it has the same
/// dimensions, each of them; a convolution kernel may have a trailing 1, and a
/// decay vector may be padded to four. Only an optional row may go without.
pub proof fn law_tensor_meets_row(row: Row, t: TensorInfo)
    requires
        row.ndim <= 4,
    ensures
        !(row.class is SolarConv) && !(row.class is SolarDecay) ==> (tensor_fault(
            row,
            Some(t),
        ) is None <==> {
            &&& row.class.accepts(t.typ)
            &&& t.ndim == row.ndim
            &&& t.ndim >= 1 ==> t.dim@[0] == row.d0
            &&& t.ndim >= 2 ==> t.dim@[1] == row.d1
            &&& t.ndim >= 3 ==> t.dim@[2] == row.d2
            &&& t.ndim >= 4 ==> t.dim@[3] == row.d3
        }),
        row.class is SolarConv ==> (tensor_fault(row, Some(t)) is None <==> {
            &&& t.typ == 0
            &&& t.ndim == 3 || (t.ndim == 4 && t.dim@[3] == 1)
            &&& t.dim@[0] == row.d0 && t.dim@[1] == 1 && t.dim@[2] == row.d2
        }),
        row.class is SolarDecay ==> (tensor_fault(row, Some(t)) is None <==> {
            &&& t.typ == 0
            &&& t.ndim == 2 || (t.ndim == 4 && t.dim@[2] == 1 && t.dim@[3] == 1)
            &&& t.dim@[0] == 1 && t.dim@[1] == row.d1
        }),
        tensor_fault(row, None) is None <==> row.class is OptionalExact,
{
    if !(row.class is SolarConv) && !(row.class is SolarDecay) && t.ndim == row.ndim {
        if row.class.accepts(t.typ) {
            assert(dims_agree(row, t.ndim, t.dim@) == (tensor_fault(row, Some(t)) is None));
            if dims_agree(row, t.ndim, t.dim@) {
                assert(t.ndim >= 1 ==> t.dim@[0] == row.dim(0));
                assert(t.ndim >= 2 ==> t.dim@[1] == row.dim(1));
                assert(t.ndim >= 3 ==> t.dim@[2] == row.dim(2));
                assert(t.ndim >= 4 ==> t.dim@[3] == row.dim(3));
            }
        }
    }
}

/// A fault names the row it is about and the first thing that is wrong: that
/// there is no tensor, its type, how many dimensions it has, their values.
pub proof fn law_fault_names_the_row(row: Row, t: Option<TensorInfo>)
    requires
        tensor_fault(row, t) is Some,
    ensures
        match tensor_fault(row, t)->0 {
            LayoutFault::Missing(n) => t is None && n == row.name,
            LayoutFault::Type(n) => t is Some && !row.class.accepts(t->0.typ) && n == row.name,
            LayoutFault::Ndim(n) => {
                &&& t is Some && row.class.accepts(t->0.typ) && n == row.name
                &&& t->0.ndim != row.ndim && !(row.class is SolarConv) && !(row.class is SolarDecay)
            },
            LayoutFault::Dim(n) => {
                &&& t is Some && row.class.accepts(t->0.typ) && n == row.name
                &&& row.class is SolarConv || row.class is SolarDecay || t->0.ndim == row.ndim
            },
            LayoutFault::GateUp(_) => false,
        },
{
}

proof fn lemma_gates(slots: Seq<BindSlot>, head: Seq<char>, il: nat, n: nat)
    ensures
        first_gate_up_fault(slots, head, il, n) is None <==> forall|k: nat|
            il <= k < n ==> (#[trigger] gate_up_fault(
                slots,
                head + text::decimal(k) + "."@ + "ffn_gate_exps.weight"@,
                head + text::decimal(k) + "."@ + "ffn_up_exps.weight"@,
                k as int,
            )) is None,
    decreases n - il,
{
    if il < n {
        lemma_gates(slots, head, il + 1, n);
        assert(gate_up_fault(
            slots,
            head + text::decimal(il) + "."@ + "ffn_gate_exps.weight"@,
            head + text::decimal(il) + "."@ + "ffn_up_exps.weight"@,
            il as int,
        ) is None || first_gate_up_fault(slots, head, il, n) is Some);
    }
}

/// The blocks under `head` have no fault exactly where `ffn_gate_exps` and
/// `ffn_up_exps` of each of them, where both are there, have one type.
pub proof fn law_gate_and_up_share_a_type(slots: Seq<BindSlot>, head: Seq<char>, n: nat)
    ensures
        first_gate_up_fault(slots, head, 0, n) is None <==> forall|k: nat|
            k < n ==> {
                let g = #[trigger] shape::tensor_named(
                    slots,
                    head + text::decimal(k) + "."@ + "ffn_gate_exps.weight"@,
                );
                let u = shape::tensor_named(
                    slots,
                    head + text::decimal(k) + "."@ + "ffn_up_exps.weight"@,
                );
                g is Some && u is Some ==> g->0.typ == u->0.typ
            },
{
    lemma_gates(slots, head, 0, n);
    if first_gate_up_fault(slots, head, 0, n) is None {
        assert forall|k: nat| k < n implies {
            let g = #[trigger] shape::tensor_named(
                slots,
                head + text::decimal(k) + "."@ + "ffn_gate_exps.weight"@,
            );
            let u = shape::tensor_named(
                slots,
                head + text::decimal(k) + "."@ + "ffn_up_exps.weight"@,
            );
            g is Some && u is Some ==> g->0.typ == u->0.typ
        } by {
            assert(gate_up_fault(
                slots,
                head + text::decimal(k) + "."@ + "ffn_gate_exps.weight"@,
                head + text::decimal(k) + "."@ + "ffn_up_exps.weight"@,
                k as int,
            ) is None);
        }
    }
}

} // verus!
