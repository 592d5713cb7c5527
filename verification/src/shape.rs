//! Model shapes, tensor records and the bind plan: the plain data that the
//! layout tables and the identification of a model file read.

use crate::text::str_eq;
use vstd::prelude::*;

verus! {

/// The architecture families.
#[derive(Clone, Copy, Debug, PartialEq, Eq, Structural)]
pub enum ModelFamily {
    DeepSeek4,
    SolarOpen2,
    Motif3,
    ExaoneMoe,
    Dots3Note,
}

/// The pinned models.
#[allow(non_camel_case_types)]
#[derive(Clone, Copy, Debug, PartialEq, Eq, Structural)]
pub enum Variant {
    Flash,
    Pro,
    SolarOpen2_250B,
    Motif3,
    Kexaone236B,
    Dots3NotePrev,
}

/// What the shape catalogue says of one layer.
#[derive(Clone, Copy, Debug, PartialEq, Eq, Structural)]
pub struct LayerRule {
    /// dots3: the layer attends to the whole context.
    pub full_attention: bool,
    /// Solar: the layer uses grouped-query attention.
    pub gqa: bool,
    /// DeepSeek: the compression ratio, 0 for none.
    pub compress_ratio: u32,
}

/// The dimensions of a model.
#[derive(Debug)]
pub struct Shape {
    pub name: String,
    pub family: ModelFamily,
    pub variant: Variant,
    /// The number under which the catalogue knows the family.
    pub family_code: u32,
    /// The number under which the catalogue knows the variant.
    pub variant_code: u32,
    pub model_id: u32,
    pub n_layer: u32,
    pub n_embd: u32,
    pub n_vocab: u32,
    pub n_head: u32,
    pub n_head_kv: u32,
    pub n_head_dim: u32,
    pub n_value_dim: u32,
    pub n_rot: u32,
    pub n_lora_q: u32,
    pub n_lora_o: u32,
    pub n_out_group: u32,
    pub n_expert: u32,
    pub n_expert_used: u32,
    pub n_ff_exp: u32,
    pub n_ff_shexp: u32,
    pub n_ff_dense: u32,
    pub n_leading_dense: u32,
    pub n_hash_layer: u32,
    pub n_indexer_head: u32,
    pub n_indexer_head_dim: u32,
    pub n_hc: u32,
    pub n_noise_head: u32,
    pub n_kv_lora: u32,
    pub n_nextn_predict: u32,
    pub n_swa_head: u32,
    pub n_swa_kv_lora: u32,
    pub n_key_mla: u32,
    pub n_swa_key_mla: u32,
    pub n_value_mla: u32,
    pub n_kda_head_dim: u32,
    pub n_ssm_conv: u32,
    pub use_qk_norm: bool,
    /// One rule per layer.
    pub layers: Vec<LayerRule>,
}

impl Shape {
    /// Every layer has its rule.
    pub open spec fn well_formed(self) -> bool {
        self.layers@.len() == self.n_layer
    }
}

/// One tensor of a model file.
#[derive(Debug)]
pub struct TensorInfo {
    pub name: String,
    pub ndim: u32,
    pub dim: [u64; 8],
    pub typ: u32,
    pub rel_offset: u64,
    pub abs_offset: u64,
    pub elements: u64,
    pub bytes: u64,
    pub shard: u32,
}

/// One tensor that a model needs, with the tensor found for it.
#[derive(Debug)]
pub struct BindSlot {
    pub name: String,
    pub required: bool,
    pub index: Option<u32>,
    pub tensor: Option<TensorInfo>,
}

/// The tensors of a model, matched to the names that its shape asks for.
#[derive(Debug)]
pub struct BindPlan {
    pub shape: Shape,
    pub slots: Vec<BindSlot>,
}

/// The sibling models that have a bind catalogue of their own.
#[derive(Clone, Copy, Debug, PartialEq, Eq, Structural)]
pub enum SupportCatalog {
    Mtp,
    Dspark,
}

/// The names of the tensor types.
#[derive(Debug)]
pub struct TypeNames {
    /// The names of the types 0, 1, 2, and so on.
    pub known: Vec<String>,
    /// The name of every type past those.
    pub other: String,
}

impl TypeNames {
    pub open spec fn spec_name(self, t: u32) -> Seq<char> {
        if t < self.known@.len() {
            self.known@[t as int]@
        } else {
            self.other@
        }
    }

    /// The name of type `t`.
    pub fn tensor_type_name(&self, t: u32) -> (r: &str)
        ensures
            r@ == self.spec_name(t),
    {
        if (t as usize) < self.known.len() {
            self.known[t as usize].as_str()
        } else {
            self.other.as_str()
        }
    }
}

/// A name under which a bind catalogue is asked for.
#[derive(Debug)]
pub struct BindName {
    pub name: String,
    pub support: Option<SupportCatalog>,
    pub variant: Variant,
}

/// The shape catalogue: the pinned shapes and the constants that go with them.
#[derive(Debug)]
pub struct Catalog {
    pub flash: Shape,
    pub pro: Shape,
    pub solar: Shape,
    pub motif3: Shape,
    pub kexaone: Shape,
    pub dots3: Shape,
    pub type_names: TypeNames,
    pub bind_names: Vec<BindName>,
    /// The rank of the drafter's Markov head.
    pub markov_rank: u32,
    /// The number of blocks of the drafter.
    pub dspark_layers: u32,
}

impl Catalog {
    pub open spec fn shape_of(self, v: Variant) -> Shape {
        match v {
            Variant::Flash => self.flash,
            Variant::Pro => self.pro,
            Variant::SolarOpen2_250B => self.solar,
            Variant::Motif3 => self.motif3,
            Variant::Kexaone236B => self.kexaone,
            Variant::Dots3NotePrev => self.dots3,
        }
    }

    /// The pinned shape of `v`.
    pub fn shape_for_variant(&self, v: Variant) -> (r: &Shape)
        ensures
            *r == self.shape_of(v),
    {
        match v {
            Variant::Flash => &self.flash,
            Variant::Pro => &self.pro,
            Variant::SolarOpen2_250B => &self.solar,
            Variant::Motif3 => &self.motif3,
            Variant::Kexaone236B => &self.kexaone,
            Variant::Dots3NotePrev => &self.dots3,
        }
    }

    /// What `name` asks for: the first entry of that name from `i` on.
    pub open spec fn bind_entry(self, name: Seq<char>, i: int) -> Option<
        (Option<SupportCatalog>, Variant),
    >
        decreases self.bind_names@.len() - i,
    {
        if i < 0 || i >= self.bind_names@.len() {
            None
        } else if self.bind_names@[i].name@ == name {
            Some((self.bind_names@[i].support, self.bind_names@[i].variant))
        } else {
            self.bind_entry(name, i + 1)
        }
    }

    /// The catalogue entry that `name` asks for.
    pub fn catalog_from_bind_name(&self, name: &str) -> (r: Option<
        (Option<SupportCatalog>, Variant),
    >)
        ensures
            r == self.bind_entry(name@, 0),
    {
        let mut i: usize = 0;
        while i < self.bind_names.len()
            invariant
                i <= self.bind_names@.len(),
                self.bind_entry(name@, 0) == self.bind_entry(name@, i as int),
            decreases self.bind_names@.len() - i,
        {
            if str_eq(self.bind_names[i].name.as_str(), name) {
                return Some((self.bind_names[i].support, self.bind_names[i].variant));
            }
            i += 1;
        }
        None
    }
}

/// The tensor bound under `name`: that of the last slot of that name which
/// has one.
pub open spec fn tensor_named(slots: Seq<BindSlot>, name: Seq<char>) -> Option<TensorInfo>
    decreases slots.len(),
{
    if slots.len() == 0 {
        None
    } else if slots.last().tensor is Some && slots.last().name@ == name {
        slots.last().tensor
    } else {
        tensor_named(slots.drop_last(), name)
    }
}

/// A tensor is found under a name exactly where some slot of that name has one,
/// and it is then the tensor of the last such slot.
pub proof fn law_tensor_of_the_last_slot(slots: Seq<BindSlot>, name: Seq<char>, i: int)
    requires
        0 <= i < slots.len(),
        slots[i].name@ == name,
        slots[i].tensor is Some,
        forall|j: int|
            i < j < slots.len() ==> (#[trigger] slots[j]).name@ != name || slots[j].tensor is None,
    ensures
        tensor_named(slots, name) == slots[i].tensor,
    decreases slots.len(),
{
    if i < slots.len() - 1 {
        assert(slots.last() == slots[slots.len() - 1]);
        law_tensor_of_the_last_slot(slots.drop_last(), name, i);
    }
}

/// No tensor is found under a name that no slot with a tensor has.
pub proof fn law_no_tensor_without_a_slot(slots: Seq<BindSlot>, name: Seq<char>)
    requires
        forall|j: int|
            0 <= j < slots.len() ==> (#[trigger] slots[j]).name@ != name || slots[j].tensor is None,
    ensures
        tensor_named(slots, name) is None,
    decreases slots.len(),
{
    if slots.len() > 0 {
        assert(slots.last() == slots[slots.len() - 1]);
        law_no_tensor_without_a_slot(slots.drop_last(), name);
    }
}

/// The index of the first slot from `i` on that is required and has no tensor.
pub open spec fn first_missing(slots: Seq<BindSlot>, i: int) -> Option<int>
    decreases slots.len() - i,
{
    if i < 0 || i >= slots.len() {
        None
    } else if slots[i].required && slots[i].tensor is None {
        Some(i)
    } else {
        first_missing(slots, i + 1)
    }
}

impl BindPlan {
    /// The tensor bound under `name`, if any.
    pub fn tensor(&self, name: &str) -> (r: Option<&TensorInfo>)
        ensures
            r is Some == tensor_named(self.slots@, name@) is Some,
            r matches Some(t) ==> tensor_named(self.slots@, name@) == Some(*t),
    {
        let mut i: usize = self.slots.len();
        assert(self.slots@.take(i as int) =~= self.slots@);
        while i > 0
            invariant
                i <= self.slots@.len(),
                tensor_named(self.slots@, name@) == tensor_named(self.slots@.take(i as int), name@),
            decreases i,
        {
            let ghost head = self.slots@.take(i as int);
            proof {
                assert(head.last() == self.slots@[i - 1]);
                assert(head.drop_last() =~= self.slots@.take(i - 1));
            }
            i -= 1;
            if let Some(t) = &self.slots[i].tensor {
                if str_eq(self.slots[i].name.as_str(), name) {
                    return Some(t);
                }
            }
        }
        None
    }

    /// The name of the first required tensor that the plan has not found.
    pub fn missing_required(&self) -> (r: Option<&String>)
        ensures
            match (first_missing(self.slots@, 0), r) {
                (Some(k), Some(name)) => *name == self.slots@[k].name,
                (None, None) => true,
                _ => false,
            },
    {
        let mut i: usize = 0;
        while i < self.slots.len()
            invariant
                i <= self.slots@.len(),
                first_missing(self.slots@, 0) == first_missing(self.slots@, i as int),
            decreases self.slots@.len() - i,
        {
            if self.slots[i].required && self.slots[i].tensor.is_none() {
                return Some(&self.slots[i].name);
            }
            i += 1;
        }
        None
    }
}

} // verus!
