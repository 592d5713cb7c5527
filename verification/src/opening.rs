//! Opening a model, step by step.
//!
//! The file is identified, its metadata validated, its vocabulary loaded, its
//! tensors bound and held to the layout table; sibling models likewise; then
//! the engine checks the plan and opens the model. [`Opening`] says at each
//! step what comes next and which failure ends it.

use crate::identify::{IdentifyError, Identified};
use crate::layout;
use crate::layout::{validate_dspark_layouts, validate_layouts, validate_mtp_layouts};
use crate::layout::check::LayoutFault;
use crate::layout::deepseek;
use crate::model;
use crate::model::{
    check_created, cstring_path, fail, pack_bind_plan, pack_host_bind_map, pack_tensor_dir, BindLook, DirRow,
    Error, PackedPlan, TensorInventory,
};
use crate::shape;
use crate::shape::{BindPlan, Catalog, ModelFamily, SupportCatalog};
use crate::text;
use vstd::prelude::*;
use vstd::string::*;
use vstd::utf8::*;

verus! {

/// What an opening waits for.
#[derive(Clone, Copy, Debug, PartialEq, Eq, Structural)]
pub enum OpenStage {
    Identify,
    Validate,
    Vocab,
    Inventory,
    Mtp,
    Dspark,
    CheckPlan,
    Native,
    Opened,
}

/// A model being opened, with its sibling models.
pub struct Opening {
    pub path: String,
    pub mtp: Option<String>,
    pub dspark: Option<String>,
    pub stage: OpenStage,
}

/// What reading a model's tensors gave: the token of a failure, or the tensors
/// with the plan that binds them.
pub enum Reading<'a> {
    Failed(&'a str),
    Read(&'a TensorInventory, &'a BindPlan),
}

/// What the engine takes of a model's tensors.
pub struct Bound {
    pub plan: PackedPlan,
    pub looks: Vec<BindLook>,
    pub dir: Vec<DirRow>,
}

/// What the engine takes of a sibling model.
pub struct Support {
    pub path: Vec<u8>,
    pub looks: Vec<BindLook>,
}

/// `first` followed by `second`.
fn joined(first: &str, second: &str) -> (r: String)
    ensures
        r@ == first@ + second@,
{
    let mut r = String::from_str(first);
    r.append(second);
    r
}

fn host_error(first: &str, second: &str) -> (e: Error)
    ensures
        e.says(first@ + second@),
{
    Error { code: 1, message: joined(first, second) }
}

/// The word for a sibling in messages.
pub open spec fn kind_word(kind: SupportCatalog) -> Seq<char> {
    match kind {
        SupportCatalog::Mtp => "mtp"@,
        SupportCatalog::Dspark => "dspark"@,
    }
}

fn kind_name(kind: SupportCatalog) -> (r: &'static str)
    ensures
        r@ == kind_word(kind),
{
    match kind {
        SupportCatalog::Mtp => "mtp",
        SupportCatalog::Dspark => "dspark",
    }
}

/// What is wrong with the plan `plan`: a required tensor that is missing, then
/// the layout `fault`.
pub open spec fn plan_message(
    prefix: Seq<char>,
    plan: BindPlan,
    fault: Option<LayoutFault>,
) -> Option<Seq<char>> {
    match shape::first_missing(plan.slots@, 0) {
        Some(k) => Some(prefix + "required tensor is missing: "@ + plan.slots@[k].name@),
        None => match fault {
            Some(f) => Some(prefix + "layout failed: "@ + f.token()),
            None => None,
        },
    }
}

impl Opening {
    pub open spec fn same_paths(self, after: Opening) -> bool {
        &&& after.path@ == self.path@
        &&& after.mtp == self.mtp
        &&& after.dspark == self.dspark
    }

    /// The stage after the siblings from `kind` on: those that are asked for
    /// come before the plan is checked.
    pub open spec fn after_inventory(self) -> OpenStage {
        if self.mtp is Some {
            OpenStage::Mtp
        } else {
            self.after_mtp()
        }
    }

    pub open spec fn after_mtp(self) -> OpenStage {
        if self.dspark is Some {
            OpenStage::Dspark
        } else {
            OpenStage::CheckPlan
        }
    }

    /// `after` is `self` moved on to `stage`, or `self` as it was where
    /// `r` failed.
    pub open spec fn advanced<T>(
        self,
        stage: OpenStage,
        r: Result<T, Error>,
        after: Opening,
    ) -> bool {
        &&& self.same_paths(after)
        &&& after.stage == if r is Ok {
            stage
        } else {
            self.stage
        }
    }

    /// Begins with the identification of the file.
    pub fn new(path: String, mtp: Option<String>, dspark: Option<String>) -> (r: Opening)
        ensures
            r.path@ == path@,
            r.mtp == mtp,
            r.dspark == dspark,
            r.stage == OpenStage::Identify,
    {
        Opening { path, mtp, dspark, stage: OpenStage::Identify }
    }

    /// The file has been identified. Sibling models go with DeepSeek only.
    pub fn identified(&mut self, id: &Result<Identified, IdentifyError>) -> (r: Result<(), Error>)
        requires
            old(self).stage == OpenStage::Identify,
        ensures
            old(self).advanced(OpenStage::Validate, r, *final(self)),
            match *id {
                Err(x) => r matches Err(e) && e.says("identify failed: "@ + x.spec_token()),
                Ok(i) => if (old(self).mtp is Some || old(self).dspark is Some) && i.shape.family
                    != ModelFamily::DeepSeek4 {
                    r matches Err(e) && e.says("MTP and DSpark support models are DeepSeek-only"@)
                } else {
                    r is Ok
                },
            },
    {
        match id {
            Err(e) => Err(host_error("identify failed: ", e.token().as_str())),
            Ok(i) => {
                if (self.mtp.is_some() || self.dspark.is_some()) && i.shape.family
                    != ModelFamily::DeepSeek4 {
                    return Err(Error::host("MTP and DSpark support models are DeepSeek-only"));
                }
                self.stage = OpenStage::Validate;
                Ok(())
            },
        }
    }

    /// The metadata has been validated, with the token of a failure.
    pub fn validated(&mut self, outcome: &Result<(), String>) -> (r: Result<(), Error>)
        requires
            old(self).stage == OpenStage::Validate,
        ensures
            old(self).advanced(OpenStage::Vocab, r, *final(self)),
            match *outcome {
                Err(x) => r matches Err(e) && e.says("validate failed: "@ + x@),
                Ok(_) => r is Ok,
            },
    {
        match outcome {
            Err(e) => Err(host_error("validate failed: ", e.as_str())),
            Ok(()) => {
                self.stage = OpenStage::Vocab;
                Ok(())
            },
        }
    }

    /// The vocabulary has been loaded, with the text of a failure.
    pub fn vocab_loaded(&mut self, outcome: &Result<(), String>) -> (r: Result<(), Error>)
        requires
            old(self).stage == OpenStage::Vocab,
        ensures
            old(self).advanced(OpenStage::Inventory, r, *final(self)),
            match *outcome {
                Err(x) => r matches Err(e) && e.says("vocab failed: "@ + x@),
                Ok(_) => r is Ok,
            },
    {
        match outcome {
            Err(e) => Err(host_error("vocab failed: ", e.as_str())),
            Ok(()) => {
                self.stage = OpenStage::Inventory;
                Ok(())
            },
        }
    }

    /// The tensors have been read: every required one must be there, all must
    /// meet the layout table, and no name or path may hold a NUL.
    pub fn bound(&mut self, reading: &Reading) -> (r: Result<Bound, Error>)
        requires
            old(self).stage == OpenStage::Inventory,
            reading matches Reading::Read(_, plan) ==> layout::layouts_fit(plan.shape),
        ensures
            old(self).advanced(old(self).after_inventory(), r, *final(self)),
            match *reading {
                Reading::Failed(x) => r matches Err(e) && e.says("tensor inventory failed: "@ + x@),
                Reading::Read(inv, plan) => match plan_message(
                    ""@,
                    *plan,
                    layout::layout_fault(*plan),
                ) {
                    Some(m) => r matches Err(e) && e.says(m),
                    None => if model::slot_name_nul(plan.slots@) {
                        r matches Err(e) && e.says("bind slot name contains NUL"@)
                    } else if model::shard_path_nul(inv.shards@) {
                        r matches Err(e) && e.says("shard path contains NUL"@)
                    } else if model::tensor_name_nul(inv.tensors@) {
                        r matches Err(e) && e.says("tensor name contains NUL"@)
                    } else {
                        &&& r matches Ok(b)
                        &&& b.plan.slots@.len() == plan.slots@.len()
                        &&& forall|i: int|
                            0 <= i < plan.slots@.len() ==> model::plans(
                                #[trigger] b.plan.slots@[i],
                                plan.slots@[i],
                            )
                        &&& b.plan.shards@.len() == inv.shards@.len()
                        &&& forall|i: int|
                            0 <= i < inv.shards@.len() ==> (#[trigger] b.plan.shards@[i]).path@
                                == encode_utf8(inv.shards@[i].path@) && b.plan.shards@[i].size
                                == inv.shards@[i].size && b.plan.shards@[i].base
                                == inv.shards@[i].base
                        &&& b.plan.data_pos == inv.data_pos
                        &&& b.plan.alignment == inv.alignment
                        &&& b.plan.page == inv.page
                        &&& b.looks@.len() == plan.slots@.len()
                        &&& forall|i: int|
                            0 <= i < plan.slots@.len() ==> model::looks_like(
                                #[trigger] b.looks@[i],
                                plan.slots@[i],
                            )
                        &&& b.dir@.len() == inv.tensors@.len()
                        &&& forall|i: int|
                            0 <= i < inv.tensors@.len() ==> model::lists(
                                #[trigger] b.dir@[i],
                                inv.tensors@[i],
                            )
                    },
                },
            },
    {
        match reading {
            Reading::Failed(token) => Err(host_error("tensor inventory failed: ", *token)),
            Reading::Read(inventory, plan) => {
                proof {
                    lemma_empty_prefix("required tensor is missing: "@);
                    lemma_empty_prefix("layout failed: "@);
                }
                match plan.missing_required() {
                    Some(name) => {
                        return Err(host_error("required tensor is missing: ", name.as_str()));
                    },
                    None => {},
                }
                match validate_layouts(plan) {
                    Ok(()) => {},
                    Err(e) => {
                        return Err(host_error("layout failed: ", e.token().as_str()));
                    },
                }
                let packed = match pack_bind_plan(plan, inventory) {
                    Ok(p) => p,
                    Err(e) => {
                        return Err(e);
                    },
                };
                let looks = match pack_host_bind_map(plan) {
                    Ok(l) => l,
                    Err(e) => {
                        return Err(e);
                    },
                };
                let dir = match pack_tensor_dir(inventory) {
                    Ok(d) => d,
                    Err(e) => {
                        return Err(e);
                    },
                };
                self.stage = if self.mtp.is_some() {
                    OpenStage::Mtp
                } else if self.dspark.is_some() {
                    OpenStage::Dspark
                } else {
                    OpenStage::CheckPlan
                };
                Ok(Bound { plan: packed, looks, dir })
            },
        }
    }

    /// The layout fault of a sibling's plan.
    pub open spec fn sibling_fault(
        kind: SupportCatalog,
        plan: BindPlan,
        markov_rank: u32,
        n_blocks: u32,
    ) -> Option<LayoutFault> {
        match kind {
            SupportCatalog::Mtp => layout::mtp_fault(plan),
            SupportCatalog::Dspark => layout::dspark_fault(plan, markov_rank, n_blocks),
        }
    }

    /// The tensors of the sibling at `path` have been read; they are held to
    /// the sibling's table as the model's were to its own.
    pub fn support_bound(
        &mut self,
        kind: SupportCatalog,
        path: &str,
        reading: &Reading,
        catalog: &Catalog,
    ) -> (r: Result<Support, Error>)
        requires
            old(self).stage == match kind {
                SupportCatalog::Mtp => OpenStage::Mtp,
                SupportCatalog::Dspark => OpenStage::Dspark,
            },
            reading matches Reading::Read(_, plan) ==> (kind == SupportCatalog::Mtp
                || catalog.dspark_layers > 0) ==> deepseek::deepseek_fits(plan.shape),
        ensures
            old(self).advanced(
                match kind {
                    SupportCatalog::Mtp => old(self).after_mtp(),
                    SupportCatalog::Dspark => OpenStage::CheckPlan,
                },
                r,
                *final(self),
            ),
            match *reading {
                Reading::Failed(x) => r matches Err(e) && e.says(
                    kind_word(kind) + " tensor inventory failed: "@ + x@,
                ),
                Reading::Read(_, plan) => match plan_message(
                    kind_word(kind) + " "@,
                    *plan,
                    Self::sibling_fault(
                        kind,
                        *plan,
                        catalog.markov_rank,
                        catalog.dspark_layers,
                    ),
                ) {
                    Some(m) => r matches Err(e) && e.says(m),
                    None => if model::has_nul(encode_utf8(path@)) {
                        r matches Err(e) && e.says("model path contains NUL"@)
                    } else if model::slot_name_nul(plan.slots@) {
                        r matches Err(e) && e.says("bind slot name contains NUL"@)
                    } else {
                        &&& r matches Ok(s)
                        &&& s.path@ == encode_utf8(path@)
                        &&& s.looks@.len() == plan.slots@.len()
                        &&& forall|i: int|
                            0 <= i < plan.slots@.len() ==> model::looks_like(
                                #[trigger] s.looks@[i],
                                plan.slots@[i],
                            )
                    },
                },
            },
    {
        let word = kind_name(kind);
        match reading {
            Reading::Failed(token) => {
                let m = joined(word, " tensor inventory failed: ");
                Err(host_error(m.as_str(), *token))
            },
            Reading::Read(_, plan) => {
                let head = joined(word, " ");
                match plan.missing_required() {
                    Some(name) => {
                        let m = joined(head.as_str(), "required tensor is missing: ");
                        return Err(host_error(m.as_str(), name.as_str()));
                    },
                    None => {},
                }
                let checked = match kind {
                    SupportCatalog::Mtp => validate_mtp_layouts(plan),
                    SupportCatalog::Dspark => validate_dspark_layouts(
                        plan,
                        catalog.markov_rank,
                        catalog.dspark_layers,
                    ),
                };
                match checked {
                    Ok(()) => {},
                    Err(e) => {
                        let m = joined(head.as_str(), "layout failed: ");
                        return Err(host_error(m.as_str(), e.token().as_str()));
                    },
                }
                let c_path = match cstring_path(path) {
                    Ok(p) => p,
                    Err(e) => {
                        return Err(e);
                    },
                };
                let looks = match pack_host_bind_map(plan) {
                    Ok(l) => l,
                    Err(e) => {
                        return Err(e);
                    },
                };
                self.stage = match kind {
                    SupportCatalog::Mtp => if self.dspark.is_some() {
                        OpenStage::Dspark
                    } else {
                        OpenStage::CheckPlan
                    },
                    SupportCatalog::Dspark => OpenStage::CheckPlan,
                };
                Ok(Support { path: c_path, looks })
            },
        }
    }

    /// The engine has checked the plan with code `rc` and text `err`. The
    /// path, as the engine takes it, is what opens the model.
    pub fn plan_checked(&mut self, rc: i32, err: &[u8]) -> (r: Result<Vec<u8>, Error>)
        requires
            old(self).stage == OpenStage::CheckPlan,
        ensures
            old(self).advanced(OpenStage::Native, r, *final(self)),
            if rc != 0 {
                r matches Err(e) && e.code == rc && e.message@ == text::utf8_lossy(
                    model::c_prefix(err@),
                )
            } else if model::has_nul(encode_utf8(old(self).path@)) {
                r matches Err(e) && e.says("model path contains NUL"@)
            } else {
                r matches Ok(p) && p@ == encode_utf8(old(self).path@)
            },
    {
        if rc != 0 {
            return Err(fail(rc, err));
        }
        match cstring_path(self.path.as_str()) {
            Ok(p) => {
                self.stage = OpenStage::Native;
                Ok(p)
            },
            Err(e) => Err(e),
        }
    }

    /// The engine has opened the model with code `rc` and text `err`; `null`
    /// where it handed nothing back.
    pub fn opened(&mut self, rc: i32, err: &[u8], null: bool) -> (r: Result<(), Error>)
        requires
            old(self).stage == OpenStage::Native,
        ensures
            old(self).advanced(OpenStage::Opened, r, *final(self)),
            if rc != 0 {
                r matches Err(e) && e.code == rc && e.message@ == text::utf8_lossy(
                    model::c_prefix(err@),
                )
            } else if null {
                r matches Err(e) && e.says("ds4_bridge_model_open returned NULL"@)
            } else {
                r is Ok
            },
    {
        proof {
            reveal_strlit("ds4_bridge_model_open");
            reveal_strlit(" returned NULL");
            reveal_strlit("ds4_bridge_model_open returned NULL");
            assert("ds4_bridge_model_open"@ + " returned NULL"@
                =~= "ds4_bridge_model_open returned NULL"@);
        }
        match check_created("ds4_bridge_model_open", rc, err, null) {
            Ok(()) => {},
            Err(e) => {
                return Err(e);
            },
        }
        self.stage = OpenStage::Opened;
        Ok(())
    }
}

/// How far an opening has come.
pub open spec fn rank(stage: OpenStage) -> int {
    match stage {
        OpenStage::Identify => 0,
        OpenStage::Validate => 1,
        OpenStage::Vocab => 2,
        OpenStage::Inventory => 3,
        OpenStage::Mtp => 4,
        OpenStage::Dspark => 5,
        OpenStage::CheckPlan => 6,
        OpenStage::Native => 7,
        OpenStage::Opened => 8,
    }
}

/// A step that succeeds goes forward, one that fails stays where it was, and
/// no sibling that is asked for is skipped on the way to the plan's check.
pub proof fn law_no_step_is_skipped<T>(
    o: Opening,
    stage: OpenStage,
    r: Result<T, Error>,
    after: Opening,
)
    requires
        o.advanced(stage, r, after),
        rank(o.stage) < rank(stage),
    ensures
        r is Ok ==> rank(o.stage) < rank(after.stage),
        r is Err ==> after.stage == o.stage,
        after.after_inventory() == o.after_inventory(),
        after.after_mtp() == o.after_mtp(),
        rank(OpenStage::Inventory) < rank(o.after_inventory()) <= rank(OpenStage::CheckPlan),
        rank(OpenStage::Mtp) < rank(o.after_mtp()) <= rank(OpenStage::CheckPlan),
        o.mtp is Some ==> o.after_inventory() == OpenStage::Mtp,
        o.dspark is Some ==> o.after_mtp() == OpenStage::Dspark,
{
}

proof fn lemma_empty_prefix(s: Seq<char>)
    ensures
        ""@ + s == s,
{
    reveal_strlit("");
    assert(""@ + s =~= s);
}

} // verus!
