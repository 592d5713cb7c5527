//! Which model a file holds: its family and shape, from its metadata.
//!
//! The architecture string selects a route. DeepSeek files are told apart by
//! their dimensions; the other families have one pinned shape each.

use crate::bytes;
use crate::gguf::{GgufError, GgufFile, GGUF_VALUE_UINT32};
use crate::shape::{Catalog, Shape, Variant};
use crate::text;
use crate::text::{lossy, push_u64};
use vstd::prelude::*;
use vstd::slice::slice_to_vec;
use vstd::string::*;

verus! {

/// Where an architecture string leads.
#[derive(Clone, Copy, Debug, PartialEq, Eq, Structural)]
pub enum ArchRoute {
    /// The shape is selected by the file's dimensions.
    DeepSeekSelect,
    /// The shape is pinned.
    Fixed(Variant),
    Unsupported,
}

/// The dimensions that tell the DeepSeek shapes apart.
#[derive(Clone, Copy, Debug, PartialEq, Eq, Structural)]
pub struct DeepSeekDims {
    pub n_layer: u32,
    pub n_embd: u32,
    pub n_vocab: u32,
    pub n_head: u32,
    pub n_head_kv: u32,
    pub n_head_dim: u32,
    pub n_value_dim: u32,
    pub n_rot: u32,
    pub n_lora_q: u32,
    pub n_lora_o: u32,
    pub n_out_group: u32,
    pub n_expert: u32,
    pub n_expert_used: u32,
    pub n_ff_exp: u32,
    pub n_expert_shared: u32,
    pub n_hash_layer: u32,
    pub n_swa: u32,
    pub n_indexer_head: u32,
    pub n_indexer_head_dim: u32,
    pub n_indexer_top_k: u32,
    pub n_hc: u32,
    pub n_hc_sinkhorn_iter: u32,
}

/// Why a file was not identified.
#[derive(Debug)]
pub enum IdentifyError {
    Gguf(GgufError),
    MissingKey(&'static str),
    UnsupportedShape,
    UnsupportedArch(Vec<u8>),
}

impl IdentifyError {
    pub open spec fn spec_token(self) -> Seq<char> {
        match self {
            IdentifyError::Gguf(e) => e.spec_token(),
            IdentifyError::MissingKey(k) => "missing-key "@ + k@,
            IdentifyError::UnsupportedShape => "unsupported"@,
            IdentifyError::UnsupportedArch(a) => "unsupported-arch "@ + text::utf8_lossy(a@),
        }
    }

    /// The short form of the error.
    pub fn token(&self) -> (r: String)
        ensures
            r@ == self.spec_token(),
    {
        match self {
            IdentifyError::Gguf(e) => e.token(),
            IdentifyError::MissingKey(k) => {
                let mut r = String::from_str("missing-key ");
                r.append(*k);
                r
            },
            IdentifyError::UnsupportedShape => String::from_str("unsupported"),
            IdentifyError::UnsupportedArch(a) => {
                let mut r = String::from_str("unsupported-arch ");
                r.append(lossy(a.as_slice()).as_str());
                r
            },
        }
    }
}

/// A file's model, with what its header says.
pub struct Identified<'a> {
    pub shape: &'a Shape,
    pub architecture: Option<Vec<u8>>,
    pub split_count: u32,
    pub n_kv: u64,
    pub n_tensors: u64,
    pub alignment: u64,
    pub version: u32,
}

impl<'a> Identified<'a> {
    pub open spec fn spec_report_line(self, path: Seq<char>) -> Seq<char> {
        "identify path="@ + path + " name="@ + self.shape.name@ + " family="@ + text::decimal(
            self.shape.family_code as nat,
        ) + " variant="@ + text::decimal(self.shape.variant_code as nat) + " model_id="@
            + text::decimal(self.shape.model_id as nat) + " arch="@ + match self.architecture {
            Some(a) => text::utf8_lossy(a@),
            None => "-"@,
        } + " n_layer="@ + text::decimal(self.shape.n_layer as nat) + " n_embd="@ + text::decimal(
            self.shape.n_embd as nat,
        ) + " n_vocab="@ + text::decimal(self.shape.n_vocab as nat) + " split_count="@
            + text::decimal(self.split_count as nat) + " n_kv="@ + text::decimal(self.n_kv as nat)
            + " n_tensors="@ + text::decimal(self.n_tensors as nat) + " alignment="@
            + text::decimal(self.alignment as nat)
    }

    /// One line that reports the file at `path`.
    pub fn report_line(&self, path: &str) -> (r: String)
        ensures
            r@ == self.spec_report_line(path@),
    {
        let mut r = String::from_str("identify path=");
        r.append(path);
        r.append(" name=");
        r.append(self.shape.name.as_str());
        r.append(" family=");
        push_u64(&mut r, self.shape.family_code as u64);
        r.append(" variant=");
        push_u64(&mut r, self.shape.variant_code as u64);
        r.append(" model_id=");
        push_u64(&mut r, self.shape.model_id as u64);
        r.append(" arch=");
        match &self.architecture {
            Some(a) => r.append(lossy(a.as_slice()).as_str()),
            None => r.append("-"),
        }
        r.append(" n_layer=");
        push_u64(&mut r, self.shape.n_layer as u64);
        r.append(" n_embd=");
        push_u64(&mut r, self.shape.n_embd as u64);
        r.append(" n_vocab=");
        push_u64(&mut r, self.shape.n_vocab as u64);
        r.append(" split_count=");
        push_u64(&mut r, self.split_count as u64);
        r.append(" n_kv=");
        push_u64(&mut r, self.n_kv);
        r.append(" n_tensors=");
        push_u64(&mut r, self.n_tensors);
        r.append(" alignment=");
        push_u64(&mut r, self.alignment);
        r
    }

    /// One line with the model's name, family and variant.
    pub fn identify_line(&self) -> (r: String)
        ensures
            r@ == shape_line(*self.shape),
    {
        let mut r = String::from_str("IDENTIFY ");
        r.append(self.shape.name.as_str());
        r.append(" family=");
        push_u64(&mut r, self.shape.family_code as u64);
        r.append(" variant=");
        push_u64(&mut r, self.shape.variant_code as u64);
        r
    }
}

/// The line that names a shape.
pub open spec fn shape_line(s: Shape) -> Seq<char> {
    "IDENTIFY "@ + s.name@ + " family="@ + text::decimal(s.family_code as nat) + " variant="@
        + text::decimal(s.variant_code as nat)
}

/// The number of keys that a DeepSeek file gives its dimensions under.
pub const N_DS_KEYS: usize = 22;

/// The metadata key of dimension `i`.
pub open spec fn ds_key(i: int) -> Seq<char> {
    if i == 0 {
        "deepseek4.block_count"@
    } else if i == 1 {
        "deepseek4.embedding_length"@
    } else if i == 2 {
        "deepseek4.vocab_size"@
    } else if i == 3 {
        "deepseek4.attention.head_count"@
    } else if i == 4 {
        "deepseek4.attention.head_count_kv"@
    } else if i == 5 {
        "deepseek4.attention.key_length"@
    } else if i == 6 {
        "deepseek4.attention.value_length"@
    } else if i == 7 {
        "deepseek4.rope.dimension_count"@
    } else if i == 8 {
        "deepseek4.attention.q_lora_rank"@
    } else if i == 9 {
        "deepseek4.attention.output_lora_rank"@
    } else if i == 10 {
        "deepseek4.attention.output_group_count"@
    } else if i == 11 {
        "deepseek4.expert_count"@
    } else if i == 12 {
        "deepseek4.expert_used_count"@
    } else if i == 13 {
        "deepseek4.expert_feed_forward_length"@
    } else if i == 14 {
        "deepseek4.expert_shared_count"@
    } else if i == 15 {
        "deepseek4.hash_layer_count"@
    } else if i == 16 {
        "deepseek4.attention.sliding_window"@
    } else if i == 17 {
        "deepseek4.attention.indexer.head_count"@
    } else if i == 18 {
        "deepseek4.attention.indexer.key_length"@
    } else if i == 19 {
        "deepseek4.attention.indexer.top_k"@
    } else if i == 20 {
        "deepseek4.hyper_connection.count"@
    } else {
        "deepseek4.hyper_connection.sinkhorn_iterations"@
    }
}

fn ds_key_name(i: usize) -> (r: &'static str)
    requires
        i < N_DS_KEYS,
    ensures
        r@ == ds_key(i as int),
{
    match i {
        0 => "deepseek4.block_count",
        1 => "deepseek4.embedding_length",
        2 => "deepseek4.vocab_size",
        3 => "deepseek4.attention.head_count",
        4 => "deepseek4.attention.head_count_kv",
        5 => "deepseek4.attention.key_length",
        6 => "deepseek4.attention.value_length",
        7 => "deepseek4.rope.dimension_count",
        8 => "deepseek4.attention.q_lora_rank",
        9 => "deepseek4.attention.output_lora_rank",
        10 => "deepseek4.attention.output_group_count",
        11 => "deepseek4.expert_count",
        12 => "deepseek4.expert_used_count",
        13 => "deepseek4.expert_feed_forward_length",
        14 => "deepseek4.expert_shared_count",
        15 => "deepseek4.hash_layer_count",
        16 => "deepseek4.attention.sliding_window",
        17 => "deepseek4.attention.indexer.head_count",
        18 => "deepseek4.attention.indexer.key_length",
        19 => "deepseek4.attention.indexer.top_k",
        20 => "deepseek4.hyper_connection.count",
        _ => "deepseek4.hyper_connection.sinkhorn_iterations",
    }
}

impl DeepSeekDims {
    /// The dimension `i`, in the order of the keys.
    pub open spec fn dim(self, i: int) -> u32 {
        if i == 0 {
            self.n_layer
        } else if i == 1 {
            self.n_embd
        } else if i == 2 {
            self.n_vocab
        } else if i == 3 {
            self.n_head
        } else if i == 4 {
            self.n_head_kv
        } else if i == 5 {
            self.n_head_dim
        } else if i == 6 {
            self.n_value_dim
        } else if i == 7 {
            self.n_rot
        } else if i == 8 {
            self.n_lora_q
        } else if i == 9 {
            self.n_lora_o
        } else if i == 10 {
            self.n_out_group
        } else if i == 11 {
            self.n_expert
        } else if i == 12 {
            self.n_expert_used
        } else if i == 13 {
            self.n_ff_exp
        } else if i == 14 {
            self.n_expert_shared
        } else if i == 15 {
            self.n_hash_layer
        } else if i == 16 {
            self.n_swa
        } else if i == 17 {
            self.n_indexer_head
        } else if i == 18 {
            self.n_indexer_head_dim
        } else if i == 19 {
            self.n_indexer_top_k
        } else if i == 20 {
            self.n_hc
        } else {
            self.n_hc_sinkhorn_iter
        }
    }
}

/// The dimension `i` that the file gives.
pub open spec fn file_dim(g: GgufFile, i: int) -> Option<int> {
    match g.scalar(ds_key(i), GGUF_VALUE_UINT32, 4) {
        Some(at) => Some(bytes::le32(g.data(), at)),
        None => None,
    }
}

/// The first dimension from `i` on that the file does not give.
pub open spec fn first_absent(g: GgufFile, i: int) -> Option<int>
    decreases N_DS_KEYS - i,
{
    if i >= N_DS_KEYS {
        None
    } else if file_dim(g, i) is None {
        Some(i)
    } else {
        first_absent(g, i + 1)
    }
}

/// The dimensions of a DeepSeek file, or the first key that it lacks.
pub fn deepseek_dims(g: &GgufFile) -> (r: Result<DeepSeekDims, IdentifyError>)
    requires
        g.well_formed(),
    ensures
        match (first_absent(*g, 0), r) {
            (None, Ok(d)) => forall|i: int|
                0 <= i < N_DS_KEYS ==> #[trigger] file_dim(*g, i) == Some(d.dim(i) as int),
            (Some(i), Err(IdentifyError::MissingKey(k))) => k@ == ds_key(i),
            _ => false,
        },
{
    let mut v: Vec<u32> = Vec::new();
    let mut i: usize = 0;
    while i < N_DS_KEYS
        invariant
            i <= N_DS_KEYS,
            g.well_formed(),
            v@.len() == i,
            forall|k: int| 0 <= k < i ==> #[trigger] file_dim(*g, k) == Some(v@[k] as int),
            first_absent(*g, 0) == first_absent(*g, i as int),
        decreases N_DS_KEYS - i,
    {
        let key = ds_key_name(i);
        match g.get_u32(key) {
            Some(x) => v.push(x),
            None => {
                assert(file_dim(*g, i as int) is None);
                return Err(IdentifyError::MissingKey(key));
            },
        }
        assert(file_dim(*g, i as int) == Some(v@[i as int] as int));
        i += 1;
    }
    let d = DeepSeekDims {
        n_layer: v[0],
        n_embd: v[1],
        n_vocab: v[2],
        n_head: v[3],
        n_head_kv: v[4],
        n_head_dim: v[5],
        n_value_dim: v[6],
        n_rot: v[7],
        n_lora_q: v[8],
        n_lora_o: v[9],
        n_out_group: v[10],
        n_expert: v[11],
        n_expert_used: v[12],
        n_ff_exp: v[13],
        n_expert_shared: v[14],
        n_hash_layer: v[15],
        n_swa: v[16],
        n_indexer_head: v[17],
        n_indexer_head_dim: v[18],
        n_indexer_top_k: v[19],
        n_hc: v[20],
        n_hc_sinkhorn_iter: v[21],
    };
    Ok(d)
}

/// The architecture string of the file.
pub open spec fn architecture_of(g: GgufFile) -> Option<Seq<u8>> {
    g.string("general.architecture"@)
}

/// The architecture string of the file.
pub fn architecture(g: &GgufFile) -> (r: Option<Vec<u8>>)
    requires
        g.well_formed(),
    ensures
        match (architecture_of(*g), r) {
            (Some(a), Some(v)) => v@ == a,
            (None, None) => true,
            _ => false,
        },
{
    match g.get_string("general.architecture") {
        Some(a) => Some(slice_to_vec(a)),
        None => None,
    }
}

/// `r` is the identification of `g`. `route` is where its architecture string
/// leads and `selected` the shape that its dimensions select.
pub open spec fn identified(
    g: GgufFile,
    route: ArchRoute,
    selected: Option<&Shape>,
    catalog: Catalog,
    r: Result<Identified, IdentifyError>,
) -> bool {
    match route {
        ArchRoute::DeepSeekSelect => match first_absent(g, 0) {
            Some(i) => r matches Err(IdentifyError::MissingKey(k)) && k@ == ds_key(i),
            None => match selected {
                None => r matches Err(IdentifyError::UnsupportedShape),
                Some(s) => identified_as(g, *s, r),
            },
        },
        ArchRoute::Fixed(v) => identified_as(g, catalog.shape_of(v), r),
        ArchRoute::Unsupported => {
            &&& r matches Err(IdentifyError::UnsupportedArch(a))
            &&& a@ == match architecture_of(g) {
                Some(x) => x,
                None => seq![],
            }
        },
    }
}

/// `r` is a model of shape `s`, with the header fields of `g`.
pub open spec fn identified_as(g: GgufFile, s: Shape, r: Result<Identified, IdentifyError>) -> bool {
    &&& r matches Ok(id)
    &&& *id.shape == s
    &&& id.architecture is Some == architecture_of(g) is Some
    &&& id.architecture matches Some(a) ==> architecture_of(g) == Some(a@)
    &&& id.split_count == g.splits()
    &&& id.n_kv == g.n_kv
    &&& id.n_tensors == g.n_tensors
    &&& id.alignment == g.alignment
    &&& id.version == g.version
}

/// Identifies the model of a file. `route` is where its architecture string
/// leads and `selected` the shape that its dimensions select.
pub fn identify_file<'a>(
    g: &GgufFile,
    route: ArchRoute,
    selected: Option<&'a Shape>,
    catalog: &'a Catalog,
) -> (r: Result<Identified<'a>, IdentifyError>)
    requires
        g.well_formed(),
    ensures
        identified(*g, route, selected, *catalog, r),
{
    let arch = architecture(g);
    let shape = match route {
        ArchRoute::DeepSeekSelect => {
            match deepseek_dims(g) {
                Ok(_) => {},
                Err(e) => {
                    return Err(e);
                },
            }
            match selected {
                Some(s) => s,
                None => {
                    return Err(IdentifyError::UnsupportedShape);
                },
            }
        },
        ArchRoute::Fixed(v) => catalog.shape_for_variant(v),
        ArchRoute::Unsupported => {
            return Err(
                IdentifyError::UnsupportedArch(
                    match arch {
                        Some(a) => a,
                        None => Vec::new(),
                    },
                ),
            );
        },
    };
    Ok(
        Identified {
            shape,
            architecture: arch,
            split_count: g.split_count(),
            n_kv: g.n_kv,
            n_tensors: g.n_tensors,
            alignment: g.alignment,
            version: g.version,
        },
    )
}

/// Identifies the model of a file that was opened with the outcome `g`.
pub fn identify_gguf<'a>(
    g: &Result<GgufFile, GgufError>,
    route: ArchRoute,
    selected: Option<&'a Shape>,
    catalog: &'a Catalog,
) -> (r: Result<Identified<'a>, IdentifyError>)
    requires
        g matches Ok(f) ==> f.well_formed(),
    ensures
        match *g {
            Ok(f) => identified(f, route, selected, *catalog, r),
            Err(e) => r matches Err(IdentifyError::Gguf(x)) && x == e,
        },
{
    match g {
        Ok(f) => identify_file(f, route, selected, catalog),
        Err(e) => Err(IdentifyError::Gguf(*e)),
    }
}

/// The last line of the text form of a file: its model, or why it has none.
pub open spec fn model_line(
    g: GgufFile,
    route: ArchRoute,
    selected: Option<&Shape>,
    catalog: Catalog,
) -> Seq<char> {
    match route {
        ArchRoute::DeepSeekSelect => match first_absent(g, 0) {
            Some(i) => "ERROR "@ + ("missing-key "@ + ds_key(i)) + "\n"@,
            None => match selected {
                None => "IDENTIFY unsupported\n"@,
                Some(s) => shape_line(*s) + "\n"@,
            },
        },
        ArchRoute::Fixed(v) => shape_line(catalog.shape_of(v)) + "\n"@,
        ArchRoute::Unsupported => "ERROR "@ + ("unsupported-arch "@ + text::utf8_lossy(
            match architecture_of(g) {
                Some(x) => x,
                None => seq![],
            },
        )) + "\n"@,
    }
}

/// The text form of a file: its header and entries, then its model.
pub fn dump_parse(
    g: &Result<GgufFile, GgufError>,
    route: ArchRoute,
    selected: Option<&Shape>,
    catalog: &Catalog,
) -> (r: String)
    requires
        g matches Ok(f) ==> f.well_formed(),
    ensures
        match *g {
            Ok(f) => r@ == f.header_text() + model_line(f, route, selected, *catalog),
            Err(e) => r@ == "ERROR "@ + e.spec_token() + "\n"@,
        },
{
    match g {
        Ok(f) => {
            let mut out = f.dump_header_kv();
            let id = identify_file(f, route, selected, catalog);
            let tail = match &id {
                Ok(i) => {
                    let mut t = i.identify_line();
                    t.append("\n");
                    t
                },
                Err(IdentifyError::UnsupportedShape) => String::from_str("IDENTIFY unsupported\n"),
                Err(e) => {
                    let mut t = String::from_str("ERROR ");
                    t.append(e.token().as_str());
                    t.append("\n");
                    t
                },
            };
            assert(tail@ == model_line(*f, route, selected, *catalog));
            out.append(tail.as_str());
            out
        },
        Err(e) => {
            let mut t = String::from_str("ERROR ");
            t.append(e.token().as_str());
            t.append("\n");
            t
        },
    }
}

} // verus!
