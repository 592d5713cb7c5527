//! The expected tensor layouts of the supported models, and holding a bind
//! plan to them.

pub mod check;
pub mod common;
pub mod deepseek;
pub mod dots;
pub mod exaone;
pub mod motif;
pub mod solar;
pub mod table;
pub mod widths;

pub use crate::layout::check::{expect_tensor, LayoutError};
pub use crate::layout::deepseek::{expected_dspark_layouts, expected_mtp_layouts};
pub use crate::layout::table::{LayoutSpec, Row, TypeClass};

use crate::layout::check::{expect_gate_up, expect_gates, expect_specs, LayoutFault};
use crate::layout::deepseek::expected_deepseek;
use crate::layout::dots::{dots3_defined, expected_dots3};
use crate::layout::exaone::expected_exaone;
use crate::layout::motif::{expected_motif3, motif_defined};
use crate::layout::solar::expected_solar;
use crate::layout::table::{T_F32, T_Q8_0};
use crate::shape::{
    BindPlan, Catalog, ModelFamily, Shape, SupportCatalog, TensorInfo, TypeNames,
    Variant,
};
use crate::text;
use crate::text::push_u64;
use vstd::prelude::*;
use vstd::string::*;

verus! {

/// The widths that the table of the shape's family speaks of are defined and
/// fit a word.
pub open spec fn layouts_fit(s: Shape) -> bool {
    &&& s.well_formed()
    &&& match s.family {
        ModelFamily::Motif3 => motif::motif_fits(s),
        ModelFamily::Dots3Note => dots::dots3_fits(s),
        ModelFamily::SolarOpen2 => true,
        ModelFamily::ExaoneMoe => common::nextn_fits(s),
        ModelFamily::DeepSeek4 => s.n_layer > 0 ==> deepseek::deepseek_fits(s),
    }
}

/// Whether the table of the shape's family is defined.
pub fn layouts_defined(s: &Shape) -> (r: bool)
    ensures
        r == layouts_fit(*s),
{
    if s.layers.len() as u64 != s.n_layer as u64 {
        return false;
    }
    match s.family {
        ModelFamily::Motif3 => motif_defined(s),
        ModelFamily::Dots3Note => dots3_defined(s),
        ModelFamily::SolarOpen2 => true,
        ModelFamily::ExaoneMoe => common::nextn_defined(s),
        ModelFamily::DeepSeek4 => s.n_layer == 0 || s.n_out_group != 0,
    }
}

/// The layout table of a shape.
pub open spec fn expected_rows(s: Shape) -> Seq<Row> {
    match s.family {
        ModelFamily::Motif3 => motif::motif3_rows(s),
        ModelFamily::Dots3Note => dots::dots3_rows(s),
        ModelFamily::SolarOpen2 => solar::solar_rows(s),
        ModelFamily::ExaoneMoe => exaone::exaone_rows(s),
        ModelFamily::DeepSeek4 => deepseek::deepseek_rows(s),
    }
}

/// The expected tensors of a model of shape `shape`.
pub fn expected_layouts(shape: &Shape) -> (out: Vec<LayoutSpec>)
    requires
        layouts_fit(*shape),
    ensures
        table::sound(out@),
        table::rows(out@) == expected_rows(*shape),
{
    match shape.family {
        ModelFamily::Motif3 => expected_motif3(shape),
        ModelFamily::Dots3Note => expected_dots3(shape),
        ModelFamily::SolarOpen2 => expected_solar(shape),
        ModelFamily::ExaoneMoe => expected_exaone(shape),
        ModelFamily::DeepSeek4 => expected_deepseek(shape),
    }
}

/// The first `n` dimensions of a row, comma-separated.
pub open spec fn dims_text(r: Row, n: nat) -> Seq<char>
    decreases n,
{
    if n == 0 {
        seq![]
    } else if n == 1 {
        text::decimal(r.d0 as nat)
    } else {
        dims_text(r, (n - 1) as nat).push(',') + text::decimal(r.dim(n - 1) as nat)
    }
}

/// How many dimensions a row's line shows: a padded row shows two or three.
pub open spec fn shown_dims(r: Row) -> nat {
    if !r.class.padded() {
        r.ndim as nat
    } else if r.ndim <= 2 {
        2
    } else {
        3
    }
}

/// The line that shows a row.
pub open spec fn row_line(r: Row, names: TypeNames) -> Seq<char> {
    "SPEC "@ + r.name + " "@ + r.class.spec_token(names) + " "@ + text::decimal(r.ndim as nat)
        + " "@ + dims_text(r, shown_dims(r)) + "\n"@
}

/// The lines of the first `n` of `rows`.
pub open spec fn table_lines(rows: Seq<Row>, names: TypeNames, n: nat) -> Seq<char>
    decreases n,
{
    if n == 0 {
        seq![]
    } else {
        table_lines(rows, names, (n - 1) as nat) + row_line(rows[n - 1], names)
    }
}

/// A layout table as text: the header, a line per row, the number of rows.
pub open spec fn table_text(header: Seq<char>, rows: Seq<Row>, names: TypeNames) -> Seq<char> {
    header + table_lines(rows, names, rows.len()) + ("COUNT n="@ + text::decimal(rows.len()) + "\n"@)
}

fn spec_line(s: &LayoutSpec, names: &TypeNames) -> (r: String)
    requires
        s.well_formed(),
    ensures
        r@ == row_line(s@, *names),
{
    let n: u32 = if matches!(s.class, TypeClass::SolarConv | TypeClass::SolarDecay) {
        if s.ndim <= 2 {
            2
        } else {
            3
        }
    } else {
        s.ndim
    };
    let mut dims = String::new();
    let mut i: usize = 0;
    while i < n as usize
        invariant
            i <= n <= 4,
            dims@ == dims_text(s@, i as nat),
        decreases n - i,
    {
        if i > 0 {
            dims.push(',');
        }
        push_u64(&mut dims, s.dim[i]);
        i += 1;
    }
    let mut r = String::from_str("SPEC ");
    r.append(s.name.as_str());
    r.append(" ");
    r.append(s.class.token(names).as_str());
    r.append(" ");
    push_u64(&mut r, s.ndim as u64);
    r.append(" ");
    r.append(dims.as_str());
    r.append("\n");
    r
}

fn dump_layout_table(header: String, specs: &Vec<LayoutSpec>, names: &TypeNames) -> (r: String)
    requires
        table::sound(specs@),
    ensures
        r@ == table_text(header@, table::rows(specs@), *names),
{
    let mut out = header;
    let mut i: usize = 0;
    while i < specs.len()
        invariant
            i <= specs@.len(),
            table::sound(specs@),
            out@ == header@ + table_lines(table::rows(specs@), *names, i as nat),
        decreases specs@.len() - i,
    {
        assert(specs@[i as int].well_formed());
        out.append(spec_line(&specs[i], names).as_str());
        i += 1;
    }
    let mut tail = String::from_str("COUNT n=");
    push_u64(&mut tail, specs.len() as u64);
    tail.append("\n");
    out.append(tail.as_str());
    out
}

pub open spec fn shape_codes(s: Shape) -> Seq<char> {
    "name="@ + s.name@ + " family="@ + text::decimal(s.family_code as nat) + " variant="@
        + text::decimal(s.variant_code as nat)
}

fn shape_codes_text(s: &Shape) -> (r: String)
    ensures
        r@ == shape_codes(*s),
{
    let mut r = String::from_str("name=");
    r.append(s.name.as_str());
    r.append(" family=");
    push_u64(&mut r, s.family_code as u64);
    r.append(" variant=");
    push_u64(&mut r, s.variant_code as u64);
    r
}

/// The text form of the table of `s`.
pub open spec fn layouts_text(s: Shape, names: TypeNames) -> Seq<char> {
    table_text(
        "LAYOUT "@ + shape_codes(s) + " n_layer="@ + text::decimal(s.n_layer as nat) + "\n"@,
        expected_rows(s),
        names,
    )
}

/// The layout table of `shape` as text.
pub fn dump_expected_layouts_shape(shape: &Shape, names: &TypeNames) -> (r: String)
    requires
        layouts_fit(*shape),
    ensures
        r@ == layouts_text(*shape, *names),
{
    let specs = expected_layouts(shape);
    let mut header = String::from_str("LAYOUT ");
    header.append(shape_codes_text(shape).as_str());
    header.append(" n_layer=");
    push_u64(&mut header, shape.n_layer as u64);
    header.append("\n");
    dump_layout_table(header, &specs, names)
}

/// The text form of the table of the multi-token-prediction sibling of `s`.
pub open spec fn mtp_text(s: Shape, names: TypeNames) -> Seq<char> {
    table_text(
        "LAYOUT kind=mtp "@ + shape_codes(s) + "\n"@,
        deepseek::mtp_rows(s),
        names,
    )
}

/// The layout table of the multi-token-prediction sibling as text.
pub fn dump_expected_mtp_shape(shape: &Shape, names: &TypeNames) -> (r: String)
    requires
        deepseek::deepseek_fits(*shape),
    ensures
        r@ == mtp_text(*shape, *names),
{
    let mut header = String::from_str("LAYOUT kind=mtp ");
    header.append(shape_codes_text(shape).as_str());
    header.append("\n");
    dump_layout_table(header, &expected_mtp_layouts(shape), names)
}

/// The text form of the table of the drafter of `s`.
pub open spec fn dspark_text(s: Shape, c: Catalog) -> Seq<char> {
    table_text(
        "LAYOUT kind=dspark "@ + shape_codes(s) + " markov_rank="@ + text::decimal(
            c.markov_rank as nat,
        ) + " n_layer="@ + text::decimal(c.dspark_layers as nat) + "\n"@,
        deepseek::dspark_rows(s, c.markov_rank, c.dspark_layers),
        c.type_names,
    )
}

/// The layout table of the drafter as text.
pub fn dump_expected_dspark_shape(shape: &Shape, catalog: &Catalog) -> (r: String)
    requires
        catalog.dspark_layers > 0 ==> deepseek::deepseek_fits(*shape),
    ensures
        r@ == dspark_text(*shape, *catalog),
{
    let mut header = String::from_str("LAYOUT kind=dspark ");
    header.append(shape_codes_text(shape).as_str());
    header.append(" markov_rank=");
    push_u64(&mut header, catalog.markov_rank as u64);
    header.append(" n_layer=");
    push_u64(&mut header, catalog.dspark_layers as u64);
    header.append("\n");
    dump_layout_table(
        header,
        &expected_dspark_layouts(shape, catalog.markov_rank, catalog.dspark_layers),
        &catalog.type_names,
    )
}

/// The sibling tables of the two DeepSeek shapes as text.
pub fn dump_expected_support(catalog: &Catalog) -> (r: String)
    requires
        deepseek::deepseek_fits(catalog.flash),
        deepseek::deepseek_fits(catalog.pro),
    ensures
        r@ == mtp_text(catalog.flash, catalog.type_names) + dspark_text(catalog.flash, *catalog)
            + mtp_text(catalog.pro, catalog.type_names) + dspark_text(catalog.pro, *catalog),
{
    let mut out = dump_expected_mtp_shape(&catalog.flash, &catalog.type_names);
    out.append(dump_expected_dspark_shape(&catalog.flash, catalog).as_str());
    out.append(dump_expected_mtp_shape(&catalog.pro, &catalog.type_names).as_str());
    out.append(dump_expected_dspark_shape(&catalog.pro, catalog).as_str());
    out
}

/// The text that a catalogue entry asks for.
pub open spec fn entry_text(c: Catalog, support: Option<SupportCatalog>, v: Variant) -> Seq<char> {
    match support {
        None => layouts_text(c.shape_of(v), c.type_names),
        Some(SupportCatalog::Mtp) => mtp_text(c.shape_of(v), c.type_names),
        Some(SupportCatalog::Dspark) => dspark_text(c.shape_of(v), c),
    }
}

/// The table that a catalogue entry asks for is defined.
pub open spec fn entry_fits(c: Catalog, support: Option<SupportCatalog>, v: Variant) -> bool {
    match support {
        None => layouts_fit(c.shape_of(v)),
        Some(SupportCatalog::Mtp) => deepseek::deepseek_fits(c.shape_of(v)),
        Some(SupportCatalog::Dspark) => c.dspark_layers > 0 ==> deepseek::deepseek_fits(
            c.shape_of(v),
        ),
    }
}

/// Whether the table that a catalogue entry asks for is defined.
pub fn entry_defined(catalog: &Catalog, support: Option<SupportCatalog>, v: Variant) -> (r: bool)
    ensures
        r == entry_fits(*catalog, support, v),
{
    let shape = catalog.shape_for_variant(v);
    match support {
        None => layouts_defined(shape),
        Some(SupportCatalog::Mtp) => shape.n_out_group != 0,
        Some(SupportCatalog::Dspark) => catalog.dspark_layers == 0 || shape.n_out_group != 0,
    }
}

/// The layout table that `name` asks for, as text; `None` for a name that the
/// catalogue does not know.
pub fn dump_expected_layouts_variant(name: &str, catalog: &Catalog) -> (r: Option<String>)
    requires
        catalog.bind_entry(name@, 0) matches Some(entry) ==> entry_fits(
            *catalog,
            entry.0,
            entry.1,
        ),
    ensures
        match (catalog.bind_entry(name@, 0), r) {
            (None, None) => true,
            (Some(entry), Some(out)) => out@ == entry_text(*catalog, entry.0, entry.1),
            _ => false,
        },
{
    match catalog.catalog_from_bind_name(name) {
        None => None,
        Some(entry) => {
            let shape = catalog.shape_for_variant(entry.1);
            Some(
                match entry.0 {
                    None => dump_expected_layouts_shape(shape, &catalog.type_names),
                    Some(SupportCatalog::Mtp) => dump_expected_mtp_shape(
                        shape,
                        &catalog.type_names,
                    ),
                    Some(SupportCatalog::Dspark) => dump_expected_dspark_shape(shape, catalog),
                },
            )
        },
    }
}

/// The tables of all pinned shapes as text.
pub fn dump_expected_layouts(catalog: &Catalog) -> (r: String)
    requires
        forall|v: Variant| layouts_fit(#[trigger] catalog.shape_of(v)),
    ensures
        r@ == layouts_text(catalog.flash, catalog.type_names) + layouts_text(
            catalog.pro,
            catalog.type_names,
        ) + layouts_text(catalog.solar, catalog.type_names) + layouts_text(
            catalog.motif3,
            catalog.type_names,
        ) + layouts_text(catalog.kexaone, catalog.type_names) + layouts_text(
            catalog.dots3,
            catalog.type_names,
        ),
{
    proof {
        assert(layouts_fit(catalog.shape_of(Variant::Flash)));
        assert(layouts_fit(catalog.shape_of(Variant::Pro)));
        assert(layouts_fit(catalog.shape_of(Variant::SolarOpen2_250B)));
        assert(layouts_fit(catalog.shape_of(Variant::Motif3)));
        assert(layouts_fit(catalog.shape_of(Variant::Kexaone236B)));
        assert(layouts_fit(catalog.shape_of(Variant::Dots3NotePrev)));
    }
    let names = &catalog.type_names;
    let mut out = dump_expected_layouts_shape(&catalog.flash, names);
    out.append(dump_expected_layouts_shape(&catalog.pro, names).as_str());
    out.append(dump_expected_layouts_shape(&catalog.solar, names).as_str());
    out.append(dump_expected_layouts_shape(&catalog.motif3, names).as_str());
    out.append(dump_expected_layouts_shape(&catalog.kexaone, names).as_str());
    out.append(dump_expected_layouts_shape(&catalog.dots3, names).as_str());
    out
}

/// `first`, or `second` where `first` finds nothing.
pub open spec fn fault_or(first: Option<LayoutFault>, second: Option<LayoutFault>) -> Option<
    LayoutFault,
> {
    match first {
        Some(f) => Some(f),
        None => second,
    }
}

/// What is wrong with the tensors of `plan`: the first row of the table that
/// is not met, then, in the families with paired projections, the first layer
/// whose pair differs in type.
pub open spec fn layout_fault(plan: BindPlan) -> Option<LayoutFault> {
    fault_or(
        check::first_fault(expected_rows(plan.shape), plan.slots@, 0),
        if plan.shape.family == ModelFamily::DeepSeek4 || plan.shape.family
            == ModelFamily::SolarOpen2 {
            check::first_gate_up_fault(plan.slots@, "blk."@, 0, plan.shape.n_layer as nat)
        } else {
            None
        },
    )
}

/// Holds the tensors of `plan` to the layout table of its shape.
pub fn validate_layouts(plan: &BindPlan) -> (r: Result<(), LayoutError>)
    requires
        layouts_fit(plan.shape),
    ensures
        check::reports(r, layout_fault(*plan)),
{
    match expect_specs(&expected_layouts(&plan.shape), plan) {
        Ok(()) => {},
        Err(e) => {
            return Err(e);
        },
    }
    if plan.shape.family == ModelFamily::DeepSeek4 || plan.shape.family == ModelFamily::SolarOpen2 {
        expect_gates(plan, "blk.", plan.shape.n_layer)
    } else {
        Ok(())
    }
}

/// What is wrong with the tensors of a multi-token-prediction sibling.
pub open spec fn mtp_fault(plan: BindPlan) -> Option<LayoutFault> {
    fault_or(
        check::first_fault(deepseek::mtp_rows(plan.shape), plan.slots@, 0),
        check::gate_up_fault(
            plan.slots@,
            "mtp.0.ffn_gate_exps.weight"@,
            "mtp.0.ffn_up_exps.weight"@,
            0,
        ),
    )
}

/// Holds the tensors of a multi-token-prediction sibling to its table.
pub fn validate_mtp_layouts(plan: &BindPlan) -> (r: Result<(), LayoutError>)
    requires
        deepseek::deepseek_fits(plan.shape),
    ensures
        check::reports(r, mtp_fault(*plan)),
{
    match expect_specs(&expected_mtp_layouts(&plan.shape), plan) {
        Ok(()) => {},
        Err(e) => {
            return Err(e);
        },
    }
    expect_gate_up(plan, "mtp.0.ffn_gate_exps.weight", "mtp.0.ffn_up_exps.weight", 0)
}

/// What is wrong with the tensors of a drafter of `n_blocks` blocks.
pub open spec fn dspark_fault(plan: BindPlan, markov_rank: u32, n_blocks: u32) -> Option<
    LayoutFault,
> {
    fault_or(
        check::first_fault(
            deepseek::dspark_rows(plan.shape, markov_rank, n_blocks),
            plan.slots@,
            0,
        ),
        check::first_gate_up_fault(plan.slots@, "dspark."@, 0, n_blocks as nat),
    )
}

/// Holds the tensors of a drafter of `n_blocks` blocks to its table.
pub fn validate_dspark_layouts(plan: &BindPlan, markov_rank: u32, n_blocks: u32) -> (r: Result<
    (),
    LayoutError,
>)
    requires
        n_blocks > 0 ==> deepseek::deepseek_fits(plan.shape),
    ensures
        check::reports(r, dspark_fault(*plan, markov_rank, n_blocks)),
{
    match expect_specs(&expected_dspark_layouts(&plan.shape, markov_rank, n_blocks), plan) {
        Ok(()) => {},
        Err(e) => {
            return Err(e);
        },
    }
    expect_gates(plan, "dspark.", n_blocks)
}

/// Holds the tensors of `plan` to the table that `support` names; `catalog`
/// gives the drafter's constants.
pub fn validate_support_layouts(
    plan: &BindPlan,
    support: Option<SupportCatalog>,
    catalog: &Catalog,
) -> (r: Result<(), LayoutError>)
    requires
        support is None ==> layouts_fit(plan.shape),
        support == Some(SupportCatalog::Mtp) ==> deepseek::deepseek_fits(plan.shape),
        support == Some(SupportCatalog::Dspark) && catalog.dspark_layers > 0
            ==> deepseek::deepseek_fits(plan.shape),
    ensures
        check::reports(
            r,
            match support {
                None => layout_fault(*plan),
                Some(SupportCatalog::Mtp) => mtp_fault(*plan),
                Some(SupportCatalog::Dspark) => dspark_fault(
                    *plan,
                    catalog.markov_rank,
                    catalog.dspark_layers,
                ),
            },
        ),
{
    match support {
        None => validate_layouts(plan),
        Some(SupportCatalog::Mtp) => validate_mtp_layouts(plan),
        Some(SupportCatalog::Dspark) => validate_dspark_layouts(
            plan,
            catalog.markov_rank,
            catalog.dspark_layers,
        ),
    }
}

fn fake_tensor(name: &str, typ: u32, ndim: u32, dim: [u64; 8]) -> (t: TensorInfo)
    ensures
        t.name@ == name@,
        t.typ == typ,
        t.ndim == ndim,
        t.dim == dim,
{
    TensorInfo {
        name: String::from_str(name),
        ndim,
        dim,
        typ,
        rel_offset: 0,
        abs_offset: 0,
        elements: 0,
        bytes: 0,
        shard: 0,
    }
}

/// The outcome of a check as text: its token, or `ok`.
pub open spec fn outcome_text(f: Option<LayoutFault>) -> Seq<char> {
    match f {
        None => "ok"@,
        Some(fault) => fault.token(),
    }
}

fn push_outcome(out: &mut String, label: &str, r: Result<(), LayoutError>, Ghost(f): Ghost<
    Option<LayoutFault>,
>)
    requires
        check::reports(r, f),
    ensures
        final(out)@ == old(out)@ + (label@ + " "@ + outcome_text(f) + "\n"@),
{
    let mut line = String::from_str(label);
    line.append(" ");
    match r {
        Ok(()) => line.append("ok"),
        Err(e) => line.append(e.token().as_str()),
    }
    line.append("\n");
    out.append(line.as_str());
}

/// The line of the check `label` with outcome `f`.
pub open spec fn outcome_line(label: Seq<char>, f: Option<LayoutFault>) -> Seq<char> {
    label + " "@ + outcome_text(f) + "\n"@
}

/// Fixed checks that show every outcome: an absent tensor, an absent optional
/// tensor, a wrong type, a wrong count of dimensions, a wrong dimension, a
/// match, and the two accepted forms of a convolution kernel.
pub fn dump_layout_check_tapes() -> (r: String)
    ensures
        r@ == outcome_line(
            "missing"@,
            Some(LayoutFault::Missing("token_embd.weight"@)),
        ) + outcome_line("optional"@, None) + outcome_line(
            "type"@,
            Some(LayoutFault::Type("token_embd.weight"@)),
        ) + outcome_line("ndim"@, Some(LayoutFault::Ndim("token_embd.weight"@))) + outcome_line(
            "dim"@,
            Some(LayoutFault::Dim("token_embd.weight"@)),
        ) + outcome_line("ok"@, None) + outcome_line("conv3"@, None) + outcome_line(
            "conv4"@,
            None,
        ),
{
    let embd = LayoutSpec {
        name: String::from_str("token_embd.weight"),
        class: TypeClass::Exact(T_Q8_0),
        ndim: 2,
        dim: [4, 8, 0, 0],
    };
    let opt = LayoutSpec {
        name: String::from_str("exp_probs_b.bias"),
        class: TypeClass::OptionalExact(T_F32),
        ndim: 1,
        dim: [4, 0, 0, 0],
    };
    let conv = LayoutSpec {
        name: String::from_str("ssm_conv.weight"),
        class: TypeClass::SolarConv,
        ndim: 3,
        dim: [4, 1, 16, 0],
    };
    let bad_ty = fake_tensor("token_embd.weight", T_F32, 2, [4, 8, 0, 0, 0, 0, 0, 0]);
    let bad_nd = fake_tensor("token_embd.weight", T_Q8_0, 1, [4, 0, 0, 0, 0, 0, 0, 0]);
    let bad_dim = fake_tensor("token_embd.weight", T_Q8_0, 2, [4, 7, 0, 0, 0, 0, 0, 0]);
    let ok = fake_tensor("token_embd.weight", T_Q8_0, 2, [4, 8, 0, 0, 0, 0, 0, 0]);
    let conv3 = fake_tensor("ssm_conv.weight", T_F32, 3, [4, 1, 16, 0, 0, 0, 0, 0]);
    let conv4 = fake_tensor("ssm_conv.weight", T_F32, 4, [4, 1, 16, 1, 0, 0, 0, 0]);
    assert(embd@.dim(1) == 8 && bad_dim.dim@[1] == 7);
    let ghost embd_name = "token_embd.weight"@;
    let mut out = String::new();
    push_outcome(
        &mut out,
        "missing",
        expect_tensor(&embd, None),
        Ghost(Some(LayoutFault::Missing(embd_name))),
    );
    push_outcome(&mut out, "optional", expect_tensor(&opt, None), Ghost(None));
    push_outcome(
        &mut out,
        "type",
        expect_tensor(&embd, Some(&bad_ty)),
        Ghost(Some(LayoutFault::Type(embd_name))),
    );
    push_outcome(
        &mut out,
        "ndim",
        expect_tensor(&embd, Some(&bad_nd)),
        Ghost(Some(LayoutFault::Ndim(embd_name))),
    );
    push_outcome(
        &mut out,
        "dim",
        expect_tensor(&embd, Some(&bad_dim)),
        Ghost(Some(LayoutFault::Dim(embd_name))),
    );
    push_outcome(&mut out, "ok", expect_tensor(&embd, Some(&ok)), Ghost(None));
    push_outcome(&mut out, "conv3", expect_tensor(&conv, Some(&conv3)), Ghost(None));
    push_outcome(&mut out, "conv4", expect_tensor(&conv, Some(&conv4)), Ghost(None));
    out
}

/// A model is accepted exactly where every row of its table is met and, where
/// its family pairs its expert projections, each pair has one type. Otherwise
/// the first row that is not met is named.
pub proof fn law_model_is_accepted(plan: BindPlan)
    ensures
        layout_fault(plan) is None <==> {
            &&& forall|i: int|
                0 <= i < expected_rows(plan.shape).len() ==> check::tensor_fault(
                    #[trigger] expected_rows(plan.shape)[i],
                    crate::shape::tensor_named(plan.slots@, expected_rows(plan.shape)[i].name),
                ) is None
            &&& plan.shape.family is DeepSeek4 || plan.shape.family is SolarOpen2
                ==> check::first_gate_up_fault(
                plan.slots@,
                "blk."@,
                0,
                plan.shape.n_layer as nat,
            ) is None
        },
{
    check::law_no_fault_means_all_rows_are_met(expected_rows(plan.shape), plan.slots@);
}

/// A sibling model is accepted exactly where every row of its table is met and
/// its expert projections pair.
pub proof fn law_sibling_is_accepted(plan: BindPlan, markov_rank: u32, n_blocks: u32)
    ensures
        mtp_fault(plan) is None <==> {
            &&& forall|i: int|
                0 <= i < deepseek::mtp_rows(plan.shape).len() ==> check::tensor_fault(
                    #[trigger] deepseek::mtp_rows(plan.shape)[i],
                    crate::shape::tensor_named(
                        plan.slots@,
                        deepseek::mtp_rows(plan.shape)[i].name,
                    ),
                ) is None
            &&& check::gate_up_fault(
                plan.slots@,
                "mtp.0.ffn_gate_exps.weight"@,
                "mtp.0.ffn_up_exps.weight"@,
                0,
            ) is None
        },
        dspark_fault(plan, markov_rank, n_blocks) is None <==> {
            &&& forall|i: int|
                0 <= i < deepseek::dspark_rows(plan.shape, markov_rank, n_blocks).len()
                    ==> check::tensor_fault(
                    #[trigger] deepseek::dspark_rows(plan.shape, markov_rank, n_blocks)[i],
                    crate::shape::tensor_named(
                        plan.slots@,
                        deepseek::dspark_rows(plan.shape, markov_rank, n_blocks)[i].name,
                    ),
                ) is None
            &&& check::first_gate_up_fault(plan.slots@, "dspark."@, 0, n_blocks as nat) is None
        },
{
    check::law_no_fault_means_all_rows_are_met(deepseek::mtp_rows(plan.shape), plan.slots@);
    check::law_no_fault_means_all_rows_are_met(
        deepseek::dspark_rows(plan.shape, markov_rank, n_blocks),
        plan.slots@,
    );
}

} // verus!
