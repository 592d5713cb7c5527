use ds4::gguf::{
    value_type_name, ArrayRef, FloatArray, FloatSource, GgufError, GgufFile, GGUF_MAGIC,
    GGUF_VALUE_ARRAY, GGUF_VALUE_BOOL, GGUF_VALUE_FLOAT32, GGUF_VALUE_FLOAT64, GGUF_VALUE_INT32,
    GGUF_VALUE_INT64, GGUF_VALUE_STRING, GGUF_VALUE_UINT16, GGUF_VALUE_UINT32, GGUF_VALUE_UINT64,
    GGUF_VALUE_UINT8, GGUF_VERSION,
};
use ds4::identify::{
    architecture, deepseek_dims, dump_parse, identify_file, identify_gguf, ArchRoute,
    IdentifyError,
};
use ds4::mapped::{MapError, MappedFile};
use ds4::shape::{Catalog, ModelFamily, Shape, TypeNames, Variant};

fn string(s: &[u8]) -> Vec<u8> {
    let mut out = (s.len() as u64).to_le_bytes().to_vec();
    out.extend_from_slice(s);
    out
}

fn entry(key: &str, typ: u32, value: &[u8]) -> Vec<u8> {
    let mut out = string(key.as_bytes());
    out.extend_from_slice(&typ.to_le_bytes());
    out.extend_from_slice(value);
    out
}

fn array(typ: u32, n: u64, items: &[u8]) -> Vec<u8> {
    let mut out = typ.to_le_bytes().to_vec();
    out.extend_from_slice(&n.to_le_bytes());
    out.extend_from_slice(items);
    out
}

fn file_with(magic: u32, version: u32, entries: &[Vec<u8>], behind: &[u8]) -> Vec<u8> {
    let mut out = magic.to_le_bytes().to_vec();
    out.extend_from_slice(&version.to_le_bytes());
    out.extend_from_slice(&5u64.to_le_bytes());
    out.extend_from_slice(&(entries.len() as u64).to_le_bytes());
    for e in entries {
        out.extend_from_slice(e);
    }
    out.extend_from_slice(behind);
    out
}

fn file(entries: &[Vec<u8>]) -> Vec<u8> {
    file_with(GGUF_MAGIC, GGUF_VERSION, entries, &[0; 32])
}

fn open(bytes: Vec<u8>) -> Result<GgufFile<'static>, GgufError> {
    GgufFile::open(MappedFile::from_bytes(bytes.leak()))
}

fn u32_entry(key: &str, v: u32) -> Vec<u8> {
    entry(key, GGUF_VALUE_UINT32, &v.to_le_bytes())
}

fn string_entry(key: &str, v: &str) -> Vec<u8> {
    entry(key, GGUF_VALUE_STRING, &string(v.as_bytes()))
}

#[test]
fn headers_and_entries() {
    let g = open(file(&[
        u32_entry("a", 7),
        entry("b", GGUF_VALUE_UINT16, &9u16.to_le_bytes()),
        entry("c", GGUF_VALUE_UINT64, &(1u64 << 40).to_le_bytes()),
        entry("d", GGUF_VALUE_BOOL, &[2]),
        string_entry("e", "text"),
        u32_entry("a", 8),
    ]))
    .ok()
    .unwrap();
    assert_eq!((g.version, g.n_tensors, g.n_kv, g.alignment), (3, 5, 6, 32));
    assert_eq!(g.kv_entries().len(), 6);
    assert_eq!(g.key_bytes(&g.kv_entries()[4]), b"e");
    assert_eq!(g.tensor_dir_pos, g.as_bytes().len() - 32);
    assert_eq!(g.get_u32("a"), Some(7));
    assert_eq!(g.get_u32("b"), None);
    assert_eq!(g.get_u16("b"), Some(9));
    assert_eq!(g.get_u64("a"), None);
    assert_eq!(g.get_u64_compat("a"), Some(7));
    assert_eq!(g.get_u64_compat("c"), Some(1 << 40));
    assert_eq!(g.get_u64_compat("b"), None);
    assert_eq!(g.get_bool("d"), Some(true));
    assert_eq!(g.get_bool("a"), None);
    assert_eq!(g.get_string("e"), Some(&b"text"[..]));
    assert_eq!(g.get_string("f"), None);
}

#[test]
fn the_alignment_is_that_of_the_last_entry_that_sets_it() {
    let alignment = |entries: &[Vec<u8>]| open(file(entries)).ok().unwrap().alignment;
    assert_eq!(alignment(&[u32_entry("general.alignment", 64)]), 64);
    assert_eq!(
        alignment(&[u32_entry("general.alignment", 64), u32_entry("general.alignment", 128)]),
        128
    );
    assert_eq!(
        alignment(&[u32_entry("general.alignment", 64), u32_entry("general.alignment", 0)]),
        64
    );
    assert_eq!(alignment(&[entry("general.alignment", GGUF_VALUE_UINT64, &64u64.to_le_bytes())]), 32);
}

#[test]
fn what_stands_behind_the_metadata_does_not_matter() {
    let entries = [u32_entry("a", 7), string_entry("b", "x")];
    let a = open(file_with(GGUF_MAGIC, GGUF_VERSION, &entries, &[0; 8])).ok().unwrap();
    let b = open(file_with(GGUF_MAGIC, GGUF_VERSION, &entries, &[9; 80])).ok().unwrap();
    assert_eq!(a.dump_header_kv(), b.dump_header_kv());
    assert_eq!(a.tensor_dir_pos, b.tensor_dir_pos);
}

#[test]
fn every_refusal() {
    let token = |bytes: Vec<u8>| open(bytes).err().unwrap().token();
    assert_eq!(GgufFile::open(Err(MapError::Io)).err().unwrap().token(), "io");
    assert_eq!(GgufFile::open(Err(MapError::TooLarge)).err().unwrap().token(), "too-small");
    assert_eq!(token(vec![0; 31]), "too-small");
    assert_eq!(token(vec![0; 40]), "not-gguf");
    assert_eq!(token(file_with(GGUF_MAGIC, 2, &[], &[0; 32])), "unsupported-version 2");
    let mut cut = file(&[u32_entry("abcdefgh", 1)]);
    cut.truncate(42);
    assert_eq!(token(cut), "truncated");
    assert_eq!(token(file(&[entry("a", 99, &[0; 8])])), "type");
    let mut nested = array(GGUF_VALUE_UINT8, 0, &[]);
    for _ in 0..8 {
        nested = array(GGUF_VALUE_ARRAY, 1, &nested);
    }
    assert!(open(file(&[entry("a", GGUF_VALUE_ARRAY, &nested)])).is_ok());
    nested = array(GGUF_VALUE_ARRAY, 1, &nested);
    assert_eq!(token(file(&[entry("a", GGUF_VALUE_ARRAY, &nested)])), "nest");
    let huge = array(GGUF_VALUE_UINT64, 1 << 61, &[]);
    assert_eq!(token(file(&[entry("a", GGUF_VALUE_ARRAY, &huge)])), "array-too-large");
    let long = array(GGUF_VALUE_UINT64, 1 << 60, &[]);
    assert_eq!(token(file(&[entry("a", GGUF_VALUE_ARRAY, &long)])), "truncated");
    assert_eq!(GgufError::from(MapError::TooSmall), GgufError::TooSmall);
    assert_eq!(GgufError::from(MapError::TooLarge), GgufError::Io);
    assert_eq!(GgufError::from(MapError::Io), GgufError::Io);
}

#[test]
fn arrays() {
    let mut strings = string(b"x");
    strings.extend_from_slice(&string(b""));
    let g = open(file(&[
        entry("s", GGUF_VALUE_ARRAY, &array(GGUF_VALUE_STRING, 2, &strings)),
        entry("u", GGUF_VALUE_ARRAY, &array(GGUF_VALUE_UINT32, 2, &[1, 0, 0, 0, 2, 1, 0, 0])),
        entry("i", GGUF_VALUE_ARRAY, &array(GGUF_VALUE_INT32, 1, &(-1i32).to_le_bytes())),
        entry("f", GGUF_VALUE_ARRAY, &array(GGUF_VALUE_FLOAT32, 1, &1.5f32.to_le_bytes())),
        entry("d", GGUF_VALUE_ARRAY, &array(GGUF_VALUE_FLOAT64, 1, &2.5f64.to_le_bytes())),
        entry("b", GGUF_VALUE_ARRAY, &array(GGUF_VALUE_BOOL, 3, &[0, 1, 7])),
        u32_entry("n", 1),
    ]))
    .ok()
    .unwrap();
    let get = |key: &str| g.get_array(key).unwrap();
    assert_eq!((get("s").typ, get("s").len), (GGUF_VALUE_STRING, 2));
    assert!(g.get_array("n").is_none());
    assert_eq!(g.array_strings(&get("s")).unwrap(), vec![&b"x"[..], &b""[..]]);
    assert_eq!(g.array_strings(&get("u")).unwrap_err(), GgufError::Type);
    assert_eq!(g.array_u32s(&get("u")).unwrap(), vec![1, 258]);
    assert_eq!(g.array_u32s(&get("i")).unwrap_err(), GgufError::Type);
    assert_eq!(g.array_le_u32s(&get("i")).unwrap(), vec![u32::MAX]);
    assert_eq!(g.array_le_u32s(&get("f")).unwrap_err(), GgufError::Type);
    assert!(matches!(g.array_f32_bits(&get("f")), Ok(FloatArray::Single(v)) if v == [1.5f32.to_bits()]));
    assert!(matches!(g.array_f32_bits(&get("d")), Ok(FloatArray::Double(v)) if v == [2.5f64.to_bits()]));
    assert!(matches!(g.array_f32_bits(&get("u")), Err(GgufError::Type)));
    assert_eq!(g.array_bools(&get("b")).unwrap(), vec![false, true, true]);
    assert_eq!(g.array_bools(&get("u")).unwrap_err(), GgufError::Type);
    let past = ArrayRef { typ: GGUF_VALUE_BOOL, len: 1, data_pos: g.as_bytes().len() };
    assert_eq!(g.array_bools(&past).unwrap_err(), GgufError::Truncated);
    let long = ArrayRef { typ: GGUF_VALUE_UINT32, len: u64::MAX, data_pos: 0 };
    assert_eq!(g.array_u32s(&long).unwrap_err(), GgufError::Truncated);
}

#[test]
fn float_sources_and_token_ids() {
    let g = open(file(&[
        entry("single", GGUF_VALUE_FLOAT32, &0.5f32.to_le_bytes()),
        entry("double", GGUF_VALUE_FLOAT64, &0.25f64.to_le_bytes()),
        u32_entry("u", 3_000_000_000),
        entry("i", GGUF_VALUE_INT32, &(-2i32).to_le_bytes()),
        entry("big", GGUF_VALUE_UINT64, &(1u64 << 31).to_le_bytes()),
        entry("id", GGUF_VALUE_INT64, &77i64.to_le_bytes()),
        u32_entry("most", i32::MAX as u32),
        entry("bool", GGUF_VALUE_BOOL, &[1]),
    ]))
    .ok()
    .unwrap();
    assert_eq!(g.get_f32_source("single"), Some(FloatSource::Single(0.5f32.to_bits())));
    assert_eq!(g.get_f32_source("double"), Some(FloatSource::Double(0.25f64.to_bits())));
    assert_eq!(g.get_f32_source("u"), Some(FloatSource::Unsigned(3_000_000_000)));
    assert_eq!(g.get_f32_source("i"), Some(FloatSource::Signed(-2i32 as u32)));
    assert_eq!(g.get_f32_source("bool"), None);
    assert_eq!(g.get_token_id("u"), None);
    assert_eq!(g.get_token_id("i"), None);
    assert_eq!(g.get_token_id("big"), None);
    assert_eq!(g.get_token_id("id"), Some(77));
    assert_eq!(g.get_token_id("most"), Some(i32::MAX));
    assert_eq!(g.get_token_id("single"), None);
}

#[test]
fn the_header_as_text() {
    let g = open(file(&[
        string_entry("general.architecture", "deepseek4"),
        entry("split.count", GGUF_VALUE_UINT16, &3u16.to_le_bytes()),
        entry("odd", GGUF_VALUE_ARRAY, &array(GGUF_VALUE_UINT8, 0, &[])),
    ]))
    .ok()
    .unwrap();
    assert_eq!(g.split_count(), 3);
    assert_eq!(
        g.dump_header_kv(),
        "HEADER version=3 n_tensors=5 n_kv=3 alignment=32\n\
         KV general.architecture STRING\n\
         KV split.count UINT16\n\
         KV odd ARRAY\n\
         SPLIT 3\n\
         ARCH deepseek4\n"
    );
    let bare = open(file(&[u32_entry("split.count", 4)])).ok().unwrap();
    assert_eq!(bare.split_count(), 4);
    assert!(bare.dump_header_kv().ends_with("SPLIT 4\nARCH missing\n"));
    assert_eq!(value_type_name(12), "FLOAT64");
    assert_eq!(value_type_name(13), "UNKNOWN");
}

fn shape(name: &str, family: ModelFamily, variant: Variant) -> Shape {
    Shape {
        name: name.to_string(),
        family,
        variant,
        family_code: 4,
        variant_code: 5,
        model_id: 6,
        n_layer: 0,
        n_embd: 8,
        n_vocab: 16,
        n_head: 2,
        n_head_kv: 1,
        n_head_dim: 4,
        n_value_dim: 4,
        n_rot: 2,
        n_lora_q: 4,
        n_lora_o: 4,
        n_out_group: 1,
        n_expert: 2,
        n_expert_used: 1,
        n_ff_exp: 8,
        n_ff_shexp: 8,
        n_ff_dense: 8,
        n_leading_dense: 0,
        n_hash_layer: 0,
        n_indexer_head: 1,
        n_indexer_head_dim: 4,
        n_hc: 1,
        n_noise_head: 0,
        n_kv_lora: 4,
        n_nextn_predict: 0,
        n_swa_head: 1,
        n_swa_kv_lora: 4,
        n_key_mla: 4,
        n_swa_key_mla: 4,
        n_value_mla: 4,
        n_kda_head_dim: 4,
        n_ssm_conv: 4,
        use_qk_norm: false,
        layers: Vec::new(),
    }
}

fn catalog() -> Catalog {
    Catalog {
        flash: shape("flash", ModelFamily::DeepSeek4, Variant::Flash),
        pro: shape("pro", ModelFamily::DeepSeek4, Variant::Pro),
        solar: shape("solar", ModelFamily::SolarOpen2, Variant::SolarOpen2_250B),
        motif3: shape("motif3", ModelFamily::Motif3, Variant::Motif3),
        kexaone: shape("kexaone", ModelFamily::ExaoneMoe, Variant::Kexaone236B),
        dots3: shape("dots3", ModelFamily::Dots3Note, Variant::Dots3NotePrev),
        type_names: TypeNames { known: Vec::new(), other: "?".to_string() },
        bind_names: Vec::new(),
        markov_rank: 0,
        dspark_layers: 0,
    }
}

const KEYS: [&str; 22] = [
    "deepseek4.block_count",
    "deepseek4.embedding_length",
    "deepseek4.vocab_size",
    "deepseek4.attention.head_count",
    "deepseek4.attention.head_count_kv",
    "deepseek4.attention.key_length",
    "deepseek4.attention.value_length",
    "deepseek4.rope.dimension_count",
    "deepseek4.attention.q_lora_rank",
    "deepseek4.attention.output_lora_rank",
    "deepseek4.attention.output_group_count",
    "deepseek4.expert_count",
    "deepseek4.expert_used_count",
    "deepseek4.expert_feed_forward_length",
    "deepseek4.expert_shared_count",
    "deepseek4.hash_layer_count",
    "deepseek4.attention.sliding_window",
    "deepseek4.attention.indexer.head_count",
    "deepseek4.attention.indexer.key_length",
    "deepseek4.attention.indexer.top_k",
    "deepseek4.hyper_connection.count",
    "deepseek4.hyper_connection.sinkhorn_iterations",
];

fn deepseek(n: usize) -> GgufFile<'static> {
    let mut entries = vec![string_entry("general.architecture", "deepseek4")];
    for (i, key) in KEYS.iter().take(n).enumerate() {
        entries.push(u32_entry(key, 100 + i as u32));
    }
    open(file(&entries)).ok().unwrap()
}

#[test]
fn dimensions_are_read_in_order() {
    let d = deepseek_dims(&deepseek(22)).ok().unwrap();
    assert_eq!((d.n_layer, d.n_vocab, d.n_rot, d.n_hc_sinkhorn_iter), (100, 102, 107, 121));
    assert_eq!((d.n_swa, d.n_indexer_top_k, d.n_hc), (116, 119, 120));
    for n in 0..22 {
        assert_eq!(
            deepseek_dims(&deepseek(n)).unwrap_err().token(),
            format!("missing-key {}", KEYS[n])
        );
    }
}

#[test]
fn models_are_identified() {
    let c = catalog();
    let g = deepseek(22);
    assert_eq!(architecture(&g), Some(b"deepseek4".to_vec()));
    let id = identify_file(&g, ArchRoute::DeepSeekSelect, Some(&c.pro), &c).ok().unwrap();
    assert_eq!(id.identify_line(), "IDENTIFY pro family=4 variant=5");
    assert_eq!(
        id.report_line("/m"),
        "identify path=/m name=pro family=4 variant=5 model_id=6 arch=deepseek4 n_layer=0 \
         n_embd=8 n_vocab=16 split_count=0 n_kv=23 n_tensors=5 alignment=32"
    );
    let fixed = identify_file(&g, ArchRoute::Fixed(Variant::Motif3), None, &c).ok().unwrap();
    assert_eq!(fixed.shape.name, "motif3");
    assert!(matches!(
        identify_file(&g, ArchRoute::DeepSeekSelect, None, &c),
        Err(IdentifyError::UnsupportedShape)
    ));
    let e = identify_file(&g, ArchRoute::Unsupported, None, &c).err().unwrap();
    assert_eq!(e.token(), "unsupported-arch deepseek4");
    let e = identify_gguf(&Err(GgufError::NotGguf), ArchRoute::Unsupported, None, &c).err().unwrap();
    assert_eq!(e.token(), "not-gguf");
    assert_eq!(IdentifyError::UnsupportedShape.token(), "unsupported");
}

#[test]
fn whole_files_as_text() {
    let c = catalog();
    let last = |g: Result<GgufFile, GgufError>, route, selected| {
        dump_parse(&g, route, selected, &c).lines().last().unwrap().to_string()
    };
    assert_eq!(
        last(Ok(deepseek(22)), ArchRoute::DeepSeekSelect, Some(&c.flash)),
        "IDENTIFY flash family=4 variant=5"
    );
    assert_eq!(last(Ok(deepseek(22)), ArchRoute::DeepSeekSelect, None), "IDENTIFY unsupported");
    assert_eq!(
        last(Ok(deepseek(1)), ArchRoute::DeepSeekSelect, None),
        "ERROR missing-key deepseek4.embedding_length"
    );
    assert_eq!(
        last(Ok(deepseek(0)), ArchRoute::Unsupported, None),
        "ERROR unsupported-arch deepseek4"
    );
    assert_eq!(dump_parse(&Err(GgufError::Nest), ArchRoute::Unsupported, None, &c), "ERROR nest\n");
}
