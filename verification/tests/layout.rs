use ds4::identify::{Identified, IdentifyError};
use ds4::layout::check::type_ok;
use ds4::layout::{
    dump_expected_layouts, dump_expected_layouts_shape, dump_expected_layouts_variant, dump_expected_support,
    dump_layout_check_tapes, expect_tensor, expected_dspark_layouts, expected_layouts,
    entry_defined, expected_mtp_layouts, layouts_defined, validate_dspark_layouts, validate_layouts, validate_mtp_layouts,
    validate_support_layouts, LayoutError, LayoutSpec, TypeClass,
};
use ds4::model::{Shard, TensorInventory};
use ds4::opening::{OpenStage, Opening, Reading};
use ds4::shape::{
    BindName, BindPlan, BindSlot, Catalog, LayerRule, ModelFamily, Shape, SupportCatalog,
    TensorInfo, TypeNames, Variant,
};

fn shape(family: ModelFamily, variant: Variant, rules: &[LayerRule]) -> Shape {
    Shape {
        name: "tiny".to_string(),
        family,
        variant,
        family_code: 1,
        variant_code: 2,
        model_id: 3,
        n_layer: rules.len() as u32,
        n_embd: 8,
        n_vocab: 16,
        n_head: 4,
        n_head_kv: 1,
        n_head_dim: 6,
        n_value_dim: 5,
        n_rot: 2,
        n_lora_q: 3,
        n_lora_o: 7,
        n_out_group: 2,
        n_expert: 9,
        n_expert_used: 1,
        n_ff_exp: 10,
        n_ff_shexp: 11,
        n_ff_dense: 12,
        n_leading_dense: 1,
        n_hash_layer: 1,
        n_indexer_head: 1,
        n_indexer_head_dim: 4,
        n_hc: 2,
        n_noise_head: 1,
        n_kv_lora: 13,
        n_nextn_predict: 1,
        n_swa_head: 1,
        n_swa_kv_lora: 4,
        n_key_mla: 14,
        n_swa_key_mla: 15,
        n_value_mla: 5,
        n_kda_head_dim: 4,
        n_ssm_conv: 4,
        use_qk_norm: true,
        layers: rules.to_vec(),
    }
}

fn rule(full_attention: bool, gqa: bool, compress_ratio: u32) -> LayerRule {
    LayerRule { full_attention, gqa, compress_ratio }
}

fn shapes() -> Vec<Shape> {
    let rules = [rule(true, true, 0), rule(false, false, 4), rule(false, true, 128)];
    vec![
        shape(ModelFamily::DeepSeek4, Variant::Flash, &rules),
        shape(ModelFamily::SolarOpen2, Variant::SolarOpen2_250B, &rules),
        shape(ModelFamily::Motif3, Variant::Motif3, &rules),
        shape(ModelFamily::ExaoneMoe, Variant::Kexaone236B, &rules),
        shape(ModelFamily::Dots3Note, Variant::Dots3NotePrev, &rules),
    ]
}

fn deepseek() -> Shape {
    shapes().remove(0)
}

fn accepted_type(class: TypeClass) -> u32 {
    match class {
        TypeClass::Exact(t) | TypeClass::OptionalExact(t) => t,
        TypeClass::Plain | TypeClass::MotifProj => 1,
        TypeClass::SolarConv | TypeClass::SolarDecay => 0,
        _ => 12,
    }
}

fn tensor(spec: &LayoutSpec) -> TensorInfo {
    let mut dim = [0u64; 8];
    for i in 0..4 {
        dim[i] = spec.dim[i];
    }
    TensorInfo {
        name: spec.name.clone(),
        ndim: spec.ndim,
        dim,
        typ: accepted_type(spec.class),
        rel_offset: 0,
        abs_offset: 0,
        elements: 0,
        bytes: 0,
        shard: 0,
    }
}

fn plan(shape: Shape, specs: &[LayoutSpec]) -> BindPlan {
    let slots = specs
        .iter()
        .map(|s| BindSlot {
            name: s.name.clone(),
            required: !matches!(s.class, TypeClass::OptionalExact(_)),
            index: None,
            tensor: Some(tensor(s)),
        })
        .collect();
    BindPlan { shape, slots }
}

fn type_names() -> TypeNames {
    TypeNames { known: vec!["f32".to_string(), "f16".to_string()], other: "unknown".to_string() }
}

fn catalog() -> Catalog {
    let named = |name: &str, support, variant| BindName { name: name.to_string(), support, variant };
    let mut all = shapes().into_iter();
    let flash = all.next().unwrap();
    Catalog {
        flash,
        pro: deepseek(),
        solar: all.next().unwrap(),
        motif3: all.next().unwrap(),
        kexaone: all.next().unwrap(),
        dots3: all.next().unwrap(),
        type_names: type_names(),
        bind_names: vec![
            named("flash", None, Variant::Flash),
            named("mtp", Some(SupportCatalog::Mtp), Variant::Flash),
            named("dspark", Some(SupportCatalog::Dspark), Variant::Flash),
        ],
        markov_rank: 6,
        dspark_layers: 2,
    }
}

#[test]
fn the_fixed_checks_show_every_outcome() {
    assert_eq!(
        dump_layout_check_tapes(),
        "missing missing token_embd.weight\n\
         optional ok\n\
         type type token_embd.weight\n\
         ndim ndim token_embd.weight\n\
         dim dim token_embd.weight\n\
         ok ok\n\
         conv3 ok\n\
         conv4 ok\n"
    );
}

#[test]
fn tensors_that_match_their_table_are_accepted() {
    for s in shapes() {
        let specs = expected_layouts(&s);
        let p = plan(s, &specs);
        assert!(validate_layouts(&p).is_ok());
    }
    let specs = expected_mtp_layouts(&deepseek());
    assert!(validate_mtp_layouts(&plan(deepseek(), &specs)).is_ok());
    let specs = expected_dspark_layouts(&deepseek(), 6, 2);
    assert!(validate_dspark_layouts(&plan(deepseek(), &specs), 6, 2).is_ok());
}

#[test]
fn names_in_a_table_are_distinct() {
    for s in shapes() {
        let specs = expected_layouts(&s);
        for i in 0..specs.len() {
            for j in 0..i {
                assert_ne!(specs[i].name, specs[j].name);
            }
        }
    }
}

#[test]
fn each_row_is_checked() {
    for s in shapes() {
        let specs = expected_layouts(&s);
        for i in 0..specs.len() {
            let optional = matches!(specs[i].class, TypeClass::OptionalExact(_));
            let mut lacking = plan(shapes().into_iter().find(|x| x.family == s.family).unwrap(), &specs);
            lacking.slots[i].tensor = None;
            let r = validate_layouts(&lacking);
            if optional {
                assert!(r.is_ok());
            } else {
                assert_eq!(r.unwrap_err().token(), format!("missing {}", specs[i].name));
            }
            let mut wide = plan(shapes().into_iter().find(|x| x.family == s.family).unwrap(), &specs);
            let at = if matches!(specs[i].class, TypeClass::SolarDecay) { 1 } else { 0 };
            wide.slots[i].tensor.as_mut().unwrap().dim[at] += 1;
            assert_eq!(
                validate_layouts(&wide).unwrap_err().token(),
                format!("dim {}", specs[i].name)
            );
        }
    }
}

#[test]
fn paired_projections_have_one_type() {
    let specs = expected_layouts(&deepseek());
    let mut p = plan(deepseek(), &specs);
    let up = p.slots.iter().position(|s| s.name == "blk.1.ffn_up_exps.weight").unwrap();
    p.slots[up].tensor.as_mut().unwrap().typ = 16;
    assert_eq!(validate_layouts(&p).unwrap_err().token(), "gate-up 1");

    let specs = expected_mtp_layouts(&deepseek());
    let mut p = plan(deepseek(), &specs);
    let up = p.slots.iter().position(|s| s.name == "mtp.0.ffn_up_exps.weight").unwrap();
    p.slots[up].tensor.as_mut().unwrap().typ = 16;
    assert_eq!(validate_mtp_layouts(&p).unwrap_err().token(), "gate-up 0");
    assert_eq!(
        validate_support_layouts(&p, Some(SupportCatalog::Mtp), &catalog()).unwrap_err().token(),
        "gate-up 0"
    );
}

#[test]
fn type_classes() {
    assert!(type_ok(TypeClass::Plain, 0) && type_ok(TypeClass::Plain, 1) && !type_ok(TypeClass::Plain, 8));
    assert!(type_ok(TypeClass::MotifProj, 30) && !type_ok(TypeClass::MotifProj, 0));
    assert!(type_ok(TypeClass::Routed, 16) && !type_ok(TypeClass::Routed, 11));
    assert!(type_ok(TypeClass::SolarDown, 11) && !type_ok(TypeClass::SolarDown, 16));
    assert!(type_ok(TypeClass::SolarGateUp, 16) && !type_ok(TypeClass::SolarGateUp, 11));
    assert!(type_ok(TypeClass::ExaoneQuant, 13) && !type_ok(TypeClass::ExaoneQuant, 30));
    assert_eq!(TypeClass::Exact(1).token(&type_names()), "exact:f16");
    assert_eq!(TypeClass::OptionalExact(9).token(&type_names()), "optional:unknown");
    assert_eq!(TypeClass::SolarGateUp.token(&type_names()), "solar-gateup");
}

#[test]
fn decay_vectors_may_be_padded() {
    let spec = LayoutSpec {
        name: "ssm_a".to_string(),
        class: TypeClass::SolarDecay,
        ndim: 2,
        dim: [1, 4, 0, 0],
    };
    let mut t = tensor(&spec);
    assert!(expect_tensor(&spec, Some(&t)).is_ok());
    t.ndim = 4;
    t.dim = [1, 4, 1, 1, 0, 0, 0, 0];
    assert!(expect_tensor(&spec, Some(&t)).is_ok());
    t.dim[3] = 2;
    assert!(matches!(expect_tensor(&spec, Some(&t)), Err(LayoutError::Dim(n)) if n == "ssm_a"));
}

#[test]
fn tables_as_text() {
    let c = catalog();
    let text = dump_expected_layouts_shape(&c.flash, &c.type_names);
    assert!(text.starts_with(
        "LAYOUT name=tiny family=1 variant=2 n_layer=3\n\
         SPEC token_embd.weight exact:f16 2 8,16\n\
         SPEC output_hc_base.weight exact:f32 1 2\n\
         SPEC output_hc_fn.weight exact:f16 2 16,2\n"
    ));
    let rows = text.lines().filter(|l| l.starts_with("SPEC ")).count();
    assert!(text.ends_with(&format!("COUNT n={rows}\n")));
    assert_eq!(rows, expected_layouts(&c.flash).len());
    assert!(text.contains("SPEC blk.0.hc_attn_fn.weight exact:f16 2 16,8\n"));
    assert!(text.contains("SPEC blk.0.attn_norm.weight exact:f32 1 8\n"));

    assert_eq!(dump_expected_layouts_variant("flash", &c), Some(text));
    assert!(dump_expected_layouts_variant("mtp", &c).unwrap().starts_with(
        "LAYOUT kind=mtp name=tiny family=1 variant=2\nSPEC "
    ));
    assert!(dump_expected_layouts_variant("dspark", &c).unwrap().starts_with(
        "LAYOUT kind=dspark name=tiny family=1 variant=2 markov_rank=6 n_layer=2\nSPEC "
    ));
    assert_eq!(dump_expected_layouts_variant("none", &c), None);
    assert_eq!(dump_expected_support(&c).matches("COUNT ").count(), 4);
    let all = dump_expected_layouts(&c);
    assert_eq!(all.matches("LAYOUT ").count(), 6);
    assert!(all.starts_with(&dump_expected_layouts_shape(&c.flash, &c.type_names)));
    assert!(all.ends_with(&dump_expected_layouts_shape(&c.dots3, &c.type_names)));
}

#[test]
fn padded_rows_show_their_own_dimensions() {
    let c = catalog();
    let text = dump_expected_layouts_shape(&c.solar, &c.type_names);
    for line in text.lines() {
        if line.contains(" solar-conv ") {
            assert_eq!(line.rsplit(' ').next().unwrap().split(',').count(), 3);
        }
        if line.contains(" solar-decay ") {
            assert_eq!(line.rsplit(' ').next().unwrap().split(',').count(), 2);
        }
    }
    assert!(text.contains(" solar-conv ") && text.contains(" solar-decay "));
}

fn inventory() -> TensorInventory {
    TensorInventory {
        tensors: Vec::new(),
        shards: vec![Shard { path: "/m.gguf".to_string(), size: 64, base: 0 }],
        data_pos: 32,
        alignment: 32,
        page: 4096,
    }
}

fn known<'a>(shape: &'a Shape) -> Result<Identified<'a>, IdentifyError> {
    Ok(Identified {
        shape,
        architecture: None,
        split_count: 0,
        n_kv: 0,
        n_tensors: 0,
        alignment: 32,
        version: 3,
    })
}

fn opening(mtp: bool, dspark: bool) -> Opening {
    let some = |on: bool, p: &str| if on { Some(p.to_string()) } else { None };
    Opening::new("/m.gguf".to_string(), some(mtp, "/mtp"), some(dspark, "/dspark"))
}

#[test]
fn a_model_is_opened_step_by_step() {
    let c = catalog();
    let mut o = opening(true, true);
    assert_eq!(o.stage, OpenStage::Identify);
    assert!(o.identified(&known(&c.flash)).is_ok());
    assert!(o.validated(&Ok(())).is_ok());
    assert!(o.vocab_loaded(&Ok(())).is_ok());
    assert_eq!(o.stage, OpenStage::Inventory);
    let inv = inventory();
    let p = plan(deepseek(), &expected_layouts(&deepseek()));
    let bound = o.bound(&Reading::Read(&inv, &p)).ok().unwrap();
    assert_eq!(bound.plan.slots.len(), p.slots.len());
    assert_eq!(bound.looks.len(), p.slots.len());
    assert_eq!(bound.dir.len(), 0);
    assert_eq!(o.stage, OpenStage::Mtp);
    let m = plan(deepseek(), &expected_mtp_layouts(&deepseek()));
    let support = o.support_bound(SupportCatalog::Mtp, "/mtp", &Reading::Read(&inv, &m), &c);
    assert_eq!(support.ok().unwrap().path, b"/mtp");
    assert_eq!(o.stage, OpenStage::Dspark);
    let d = plan(deepseek(), &expected_dspark_layouts(&deepseek(), 6, 2));
    assert!(o.support_bound(SupportCatalog::Dspark, "/dspark", &Reading::Read(&inv, &d), &c).is_ok());
    assert_eq!(o.stage, OpenStage::CheckPlan);
    assert_eq!(o.plan_checked(0, b"").unwrap(), b"/m.gguf");
    assert!(o.opened(0, b"", false).is_ok());
    assert_eq!(o.stage, OpenStage::Opened);
}

#[test]
fn each_step_reports_its_own_failure() {
    let c = catalog();
    let mut o = opening(false, false);
    let e = o.identified(&Err(IdentifyError::MissingKey("k"))).unwrap_err();
    assert_eq!((e.code, e.message.as_str()), (1, "identify failed: missing-key k"));
    assert_eq!(o.stage, OpenStage::Identify);
    let e = opening(true, false).identified(&known(&c.solar)).unwrap_err();
    assert_eq!(e.message, "MTP and DSpark support models are DeepSeek-only");
    assert!(o.identified(&known(&c.solar)).is_ok());
    let e = o.validated(&Err("bad".to_string())).unwrap_err();
    assert_eq!(e.message, "validate failed: bad");
    assert!(o.validated(&Ok(())).is_ok());
    let e = o.vocab_loaded(&Err("short".to_string())).unwrap_err();
    assert_eq!(e.message, "vocab failed: short");
    assert!(o.vocab_loaded(&Ok(())).is_ok());
    let e = o.bound(&Reading::Failed("io")).err().unwrap();
    assert_eq!(e.message, "tensor inventory failed: io");
    let inv = inventory();
    let mut p = plan(deepseek(), &expected_layouts(&deepseek()));
    p.slots[0].tensor = None;
    let e = o.bound(&Reading::Read(&inv, &p)).err().unwrap();
    assert_eq!(e.message, "required tensor is missing: token_embd.weight");
    let mut p = plan(deepseek(), &expected_layouts(&deepseek()));
    p.slots[0].tensor.as_mut().unwrap().typ = 0;
    let e = o.bound(&Reading::Read(&inv, &p)).err().unwrap();
    assert_eq!(e.message, "layout failed: type token_embd.weight");
    let p = plan(deepseek(), &expected_layouts(&deepseek()));
    assert!(o.bound(&Reading::Read(&inv, &p)).is_ok());
    assert_eq!(o.stage, OpenStage::CheckPlan);
    let e = o.plan_checked(9, b"no room\0").unwrap_err();
    assert_eq!((e.code, e.message.as_str()), (9, "no room"));
    assert!(o.plan_checked(0, b"").is_ok());
    assert_eq!(o.opened(0, b"", true).unwrap_err().message, "ds4_bridge_model_open returned NULL");
    assert_eq!(o.opened(4, b"gone\0", false).unwrap_err().code, 4);
}

#[test]
fn a_sibling_reports_under_its_name() {
    let c = catalog();
    let inv = inventory();
    let mut o = opening(false, true);
    o.stage = OpenStage::Dspark;
    let e = o.support_bound(SupportCatalog::Dspark, "/d", &Reading::Failed("io"), &c).err().unwrap();
    assert_eq!(e.message, "dspark tensor inventory failed: io");
    let mut d = plan(deepseek(), &expected_dspark_layouts(&deepseek(), 6, 2));
    d.slots[0].tensor = None;
    let name = d.slots[0].name.clone();
    let e = o.support_bound(SupportCatalog::Dspark, "/d", &Reading::Read(&inv, &d), &c).err().unwrap();
    assert_eq!(e.message, format!("dspark required tensor is missing: {name}"));
    let d = plan(deepseek(), &expected_dspark_layouts(&deepseek(), 6, 2));
    let e = o.support_bound(SupportCatalog::Dspark, "/d\0", &Reading::Read(&inv, &d), &c).err().unwrap();
    assert_eq!(e.message, "model path contains NUL");
}

#[test]
fn the_norm_flag_adds_norms_alone() {
    let a = shapes().remove(3);
    let mut b = shapes().remove(3);
    b.use_qk_norm = false;
    let texts = |specs: &[LayoutSpec]| specs.iter().map(|s| format!("{s:?}")).collect::<Vec<_>>();
    let (norms, rest): (Vec<LayoutSpec>, Vec<LayoutSpec>) = expected_layouts(&a)
        .into_iter()
        .partition(|s| {
            s.name.ends_with(".attn_q_norm.weight") || s.name.ends_with(".attn_k_norm.weight")
        });
    assert_eq!(texts(&rest), texts(&expected_layouts(&b)));
    let names: Vec<&str> = norms.iter().map(|s| s.name.as_str()).collect();
    assert_eq!(
        names,
        [
            "blk.0.attn_q_norm.weight",
            "blk.0.attn_k_norm.weight",
            "blk.1.attn_q_norm.weight",
            "blk.1.attn_k_norm.weight",
            "blk.2.attn_q_norm.weight",
            "blk.2.attn_k_norm.weight",
        ]
    );
    for s in &norms {
        assert_eq!((s.class, s.ndim, s.dim), (TypeClass::Exact(0), 1, [6, 0, 0, 0]));
    }
}

#[test]
fn entries_are_defined_where_their_table_is() {
    let mtp = Some(SupportCatalog::Mtp);
    let dspark = Some(SupportCatalog::Dspark);
    let mut c = catalog();
    for support in [None, mtp, dspark] {
        assert!(entry_defined(&c, support, Variant::Flash));
    }
    c.flash.n_out_group = 0;
    for support in [None, mtp, dspark] {
        assert!(!entry_defined(&c, support, Variant::Flash));
    }
    c.solar.n_out_group = 0;
    assert!(entry_defined(&c, None, c.solar.variant));
    c.dspark_layers = 0;
    assert!(entry_defined(&c, dspark, Variant::Flash));
}

#[test]
fn tables_are_defined_where_their_widths_are() {
    for s in shapes() {
        assert!(layouts_defined(&s));
    }
    let mut s = deepseek();
    s.layers.pop();
    assert!(!layouts_defined(&s));
    let mut s = deepseek();
    s.n_out_group = 0;
    assert!(!layouts_defined(&s));
    let mut s = shapes().remove(2);
    s.n_noise_head = s.n_head + 1;
    assert!(!layouts_defined(&s));
    let mut s = shapes().remove(2);
    (s.n_head_kv, s.n_head_dim, s.n_value_dim) = (u32::MAX, u32::MAX, u32::MAX);
    assert!(!layouts_defined(&s));
    let mut s = shapes().remove(3);
    s.n_nextn_predict = u32::MAX;
    assert!(!layouts_defined(&s));
    let mut s = shapes().remove(4);
    s.n_rot = s.n_swa_key_mla + 1;
    assert!(!layouts_defined(&s));
}
