//! The memory governor: leases, claims, and the quote that answers a claim.
//!
//! The evaluator is a function of the ledger, an observation and a claim. The
//! class cap comes first, the live floor second; arithmetic that does not fit
//! is a fault and never an admission.

use crate::mem::{MEMC_COUNT, MEMD_COUNT};
use crate::text::str_eq;
use std::sync::atomic::{AtomicU64, Ordering};
use vstd::prelude::*;

verus! {

/// `std::sync::atomic::fence` orders the memory accesses around it. Nothing is
/// claimed of it.
#[verifier::external_body]
fn full_barrier() {
    std::sync::atomic::fence(Ordering::SeqCst);
}

/// The number of consumers that hold a lease.
pub const GOVC_COUNT: usize = 5;

/// The consumers of memory.
#[derive(Clone, Copy, Debug, PartialEq, Eq, Structural)]
pub enum GovConsumer {
    EngineBoot,
    Prewarm,
    BatchBankPlan,
    SerialSession,
    StaticBatch,
}

impl GovConsumer {
    /// The number of the consumer.
    pub open spec fn code(self) -> int {
        match self {
            GovConsumer::EngineBoot => 0,
            GovConsumer::Prewarm => 1,
            GovConsumer::BatchBankPlan => 2,
            GovConsumer::SerialSession => 3,
            GovConsumer::StaticBatch => 4,
        }
    }

    /// The consumer of number `v`.
    pub fn from_i32(v: i32) -> (r: Option<GovConsumer>)
        ensures
            r is Some == (0 <= v < GOVC_COUNT),
            r matches Some(c) ==> c.code() == v,
    {
        match v {
            0 => Some(GovConsumer::EngineBoot),
            1 => Some(GovConsumer::Prewarm),
            2 => Some(GovConsumer::BatchBankPlan),
            3 => Some(GovConsumer::SerialSession),
            4 => Some(GovConsumer::StaticBatch),
            _ => None,
        }
    }
}

/// What one consumer holds: what it means to use, what it has, what is set
/// aside for it.
#[derive(Clone, Copy, Debug, PartialEq, Eq, Structural)]
pub struct GovLease {
    pub intent: u64,
    pub resident: u64,
    pub reservation: u64,
}

impl Default for GovLease {
    fn default() -> (r: GovLease)
        ensures
            r == (GovLease { intent: 0, resident: 0, reservation: 0 }),
    {
        GovLease { intent: 0, resident: 0, reservation: 0 }
    }
}

/// The leases of all consumers, with the floor that stays free.
#[derive(Clone, Copy, Debug, PartialEq, Eq)]
pub struct GovLedger {
    pub lease: [GovLease; 5],
    pub floor_bytes: u64,
    pub substrate_outstanding: u64,
    pub epoch: u64,
}

impl Default for GovLedger {
    fn default() -> (r: GovLedger)
        ensures
            forall|c: int|
                0 <= c < GOVC_COUNT ==> #[trigger] r.lease@[c] == (GovLease {
                    intent: 0,
                    resident: 0,
                    reservation: 0,
                }),
            r.floor_bytes == 0,
            r.substrate_outstanding == 0,
            r.epoch == 0,
    {
        GovLedger {
            lease: [GovLease::default();5],
            floor_bytes: 0,
            substrate_outstanding: 0,
            epoch: 0,
        }
    }
}

/// A request for memory: `requester` means to hold `proposed_outstanding`.
#[derive(Clone, Copy, Debug, PartialEq, Eq, Structural)]
pub struct GovClaim {
    pub requester: i32,
    pub memc: i32,
    pub domain: i32,
    pub proposed_outstanding: u64,
    pub operation_transient: u64,
    pub class_limit: u64,
}

impl Default for GovClaim {
    fn default() -> (r: GovClaim)
        ensures
            r == (GovClaim {
                requester: 0,
                memc: 0,
                domain: 0,
                proposed_outstanding: 0,
                operation_transient: 0,
                class_limit: 0,
            }),
    {
        GovClaim {
            requester: 0,
            memc: 0,
            domain: 0,
            proposed_outstanding: 0,
            operation_transient: 0,
            class_limit: 0,
        }
    }
}

/// Whether an observation succeeded.
#[derive(Clone, Copy, Debug, PartialEq, Eq, Structural)]
pub enum MemObsStatus {
    Valid,
    Unsupported,
    QueryError,
}

impl MemObsStatus {
    pub open spec fn spec_code(self) -> i32 {
        match self {
            MemObsStatus::Valid => 0,
            MemObsStatus::Unsupported => 1,
            MemObsStatus::QueryError => 2,
        }
    }

    /// The number of the status.
    pub fn code(self) -> (r: i32)
        ensures
            r == self.spec_code(),
    {
        match self {
            MemObsStatus::Valid => 0,
            MemObsStatus::Unsupported => 1,
            MemObsStatus::QueryError => 2,
        }
    }
}

/// Where an observation comes from.
#[derive(Clone, Copy, Debug, PartialEq, Eq, Structural)]
pub enum MemObsSource {
    NoSource,
    CudaFree,
    MeminfoAvailable,
}

impl MemObsSource {
    pub open spec fn spec_code(self) -> i32 {
        match self {
            MemObsSource::NoSource => 0,
            MemObsSource::CudaFree => 1,
            MemObsSource::MeminfoAvailable => 2,
        }
    }

    /// The number of the source.
    pub fn code(self) -> (r: i32)
        ensures
            r == self.spec_code(),
    {
        match self {
            MemObsSource::NoSource => 0,
            MemObsSource::CudaFree => 1,
            MemObsSource::MeminfoAvailable => 2,
        }
    }
}

/// What the system reports as free.
#[derive(Clone, Copy, Debug, PartialEq, Eq, Structural)]
pub struct MemObservation {
    pub status: MemObsStatus,
    pub source: MemObsSource,
    pub free_bytes: u64,
    pub total_bytes: u64,
}

/// The verdict on a claim.
#[derive(Clone, Copy, Debug, PartialEq, Eq, Structural)]
pub enum GovStatus {
    Admit,
    RefuseClass,
    RefuseLive,
    RetryObs,
    Unsupported,
    Fault,
}

impl GovStatus {
    pub open spec fn spec_code(self) -> i32 {
        match self {
            GovStatus::Admit => 0,
            GovStatus::RefuseClass => 1,
            GovStatus::RefuseLive => 2,
            GovStatus::RetryObs => 3,
            GovStatus::Unsupported => 4,
            GovStatus::Fault => 5,
        }
    }

    /// The number of the verdict.
    pub fn code(self) -> (r: i32)
        ensures
            r == self.spec_code(),
    {
        match self {
            GovStatus::Admit => 0,
            GovStatus::RefuseClass => 1,
            GovStatus::RefuseLive => 2,
            GovStatus::RetryObs => 3,
            GovStatus::Unsupported => 4,
            GovStatus::Fault => 5,
        }
    }
}

/// How two verdicts on one claim compare.
#[derive(Clone, Copy, Debug, PartialEq, Eq, Structural)]
pub enum GovCmp {
    Agree,
    LiveStricter,
    ShadowStricter,
    VerdictClass,
    ObsPolicy,
    Fault,
}

/// What the governor does with its verdicts.
#[derive(Clone, Copy, Debug, PartialEq, Eq, Structural)]
pub enum GovMode {
    Off,
    Observe,
    Enforce,
}

/// The answer to a claim, with the figures that it rests on.
#[derive(Clone, Copy, Debug, PartialEq, Eq, Structural)]
pub struct GovQuote {
    pub status: i32,
    pub retryable: i32,
    pub requester: i32,
    pub memc: i32,
    pub domain: i32,
    pub obs_status: i32,
    pub obs_source: i32,
    pub obs_free: u64,
    pub obs_total: u64,
    pub class_limit: u64,
    pub proposed_class_bytes: u64,
    pub floor_bytes: u64,
    pub other_reservations: u64,
    pub substrate_outstanding: u64,
    pub old_intent: u64,
    pub proposed_intent: u64,
    pub total_prospective_intent: u64,
    pub operation_transient: u64,
    pub available: u64,
    pub required: u64,
    pub deficit: u64,
    pub epoch: u64,
}

impl GovQuote {
    /// The quote with every field 0.
    pub open spec fn zero() -> GovQuote {
        GovQuote {
            status: 0,
            retryable: 0,
            requester: 0,
            memc: 0,
            domain: 0,
            obs_status: 0,
            obs_source: 0,
            obs_free: 0,
            obs_total: 0,
            class_limit: 0,
            proposed_class_bytes: 0,
            floor_bytes: 0,
            other_reservations: 0,
            substrate_outstanding: 0,
            old_intent: 0,
            proposed_intent: 0,
            total_prospective_intent: 0,
            operation_transient: 0,
            available: 0,
            required: 0,
            deficit: 0,
            epoch: 0,
        }
    }

    pub open spec fn verdict(self) -> GovStatus {
        if self.status == 0 {
            GovStatus::Admit
        } else if self.status == 1 {
            GovStatus::RefuseClass
        } else if self.status == 2 {
            GovStatus::RefuseLive
        } else if self.status == 3 {
            GovStatus::RetryObs
        } else if self.status == 4 {
            GovStatus::Unsupported
        } else {
            GovStatus::Fault
        }
    }

    /// The verdict; a number that stands for none is a fault.
    pub fn status(self) -> (r: GovStatus)
        ensures
            r == self.verdict(),
    {
        match self.status {
            0 => GovStatus::Admit,
            1 => GovStatus::RefuseClass,
            2 => GovStatus::RefuseLive,
            3 => GovStatus::RetryObs,
            4 => GovStatus::Unsupported,
            _ => GovStatus::Fault,
        }
    }
}

impl Default for GovQuote {
    fn default() -> (r: GovQuote)
        ensures
            r == GovQuote::zero(),
    {
        GovQuote {
            status: 0,
            retryable: 0,
            requester: 0,
            memc: 0,
            domain: 0,
            obs_status: 0,
            obs_source: 0,
            obs_free: 0,
            obs_total: 0,
            class_limit: 0,
            proposed_class_bytes: 0,
            floor_bytes: 0,
            other_reservations: 0,
            substrate_outstanding: 0,
            old_intent: 0,
            proposed_intent: 0,
            total_prospective_intent: 0,
            operation_transient: 0,
            available: 0,
            required: 0,
            deficit: 0,
            epoch: 0,
        }
    }
}

/// How `live` and `shadow` compare: a shadow fault or a missing observation
/// says nothing of the live verdict; two different refusals are told from a
/// refusal beside an admission.
pub open spec fn comparison(live: GovStatus, shadow: GovStatus) -> GovCmp {
    match shadow {
        GovStatus::Fault => GovCmp::Fault,
        GovStatus::RetryObs => GovCmp::ObsPolicy,
        GovStatus::Unsupported => GovCmp::ObsPolicy,
        _ => if live == shadow {
            GovCmp::Agree
        } else if live is Admit {
            GovCmp::ShadowStricter
        } else if shadow is Admit {
            GovCmp::LiveStricter
        } else {
            GovCmp::VerdictClass
        },
    }
}

/// Compares the live verdict with the shadow verdict on the same claim.
pub fn gov_compare(live_status: GovStatus, shadow_status: GovStatus) -> (r: GovCmp)
    ensures
        r == comparison(live_status, shadow_status),
{
    if shadow_status == GovStatus::Fault {
        return GovCmp::Fault;
    }
    if shadow_status == GovStatus::RetryObs || shadow_status == GovStatus::Unsupported {
        return GovCmp::ObsPolicy;
    }
    if live_status == shadow_status {
        return GovCmp::Agree;
    }
    if live_status == GovStatus::Admit {
        return GovCmp::ShadowStricter;
    }
    if shadow_status == GovStatus::Admit {
        return GovCmp::LiveStricter;
    }
    GovCmp::VerdictClass
}

pub open spec fn mode_word(mode: GovMode) -> Seq<char> {
    match mode {
        GovMode::Off => "off"@,
        GovMode::Observe => "observe"@,
        GovMode::Enforce => "enforce"@,
    }
}

/// The mode that the word `s` names: exact words only.
pub open spec fn mode_named(s: Seq<char>) -> Option<GovMode> {
    if s == "off"@ {
        Some(GovMode::Off)
    } else if s == "observe"@ {
        Some(GovMode::Observe)
    } else if s == "enforce"@ {
        Some(GovMode::Enforce)
    } else {
        None
    }
}

/// The mode that the word `s` names.
pub fn gov_mode_parse(s: &str) -> (r: Option<GovMode>)
    ensures
        r == mode_named(s@),
{
    if str_eq(s, "off") {
        Some(GovMode::Off)
    } else if str_eq(s, "observe") {
        Some(GovMode::Observe)
    } else if str_eq(s, "enforce") {
        Some(GovMode::Enforce)
    } else {
        None
    }
}

/// The word for `mode`.
pub fn gov_mode_name(mode: GovMode) -> (r: &'static str)
    ensures
        r@ == mode_word(mode),
{
    match mode {
        GovMode::Off => "off",
        GovMode::Observe => "observe",
        GovMode::Enforce => "enforce",
    }
}

/// Naming a mode and reading the name gives the mode back.
pub proof fn law_mode_round_trip(mode: GovMode)
    ensures
        mode_named(mode_word(mode)) == Some(mode),
{
    reveal_strlit("off");
    reveal_strlit("observe");
    reveal_strlit("enforce");
    assert("off"@.len() == 3);
    assert("observe"@.len() == 7);
    assert("enforce"@.len() == 7);
    assert("observe"@[0] == 'o');
    assert("enforce"@[0] == 'e');
}

/// Only the three words name a mode.
pub proof fn law_mode_words_are_exact(s: Seq<char>)
    ensures
        mode_named(s) matches Some(mode) ==> s == mode_word(mode),
{
}

/// `n` where it fits a word, the largest word where it does not.
pub open spec fn saturated(n: int) -> u64 {
    if n <= u64::MAX {
        n as u64
    } else {
        u64::MAX
    }
}

/// Adds, counting a fault where the sum does not fit.
fn sat_add(a: u64, b: u64, faults: &mut u64) -> (r: u64)
    requires
        *old(faults) < u64::MAX,
    ensures
        r == saturated(a + b),
        *final(faults) == *old(faults) + if a + b > u64::MAX {
            1int
        } else {
            0int
        },
{
    match a.checked_add(b) {
        Some(sum) => sum,
        None => {
            *faults += 1;
            u64::MAX
        },
    }
}

/// The ledger with the lease of `consumer` replaced.
pub open spec fn published(
    lg: GovLedger,
    consumer: int,
    lease: GovLease,
    after: GovLedger,
) -> bool {
    &&& after.lease@ == lg.lease@.update(consumer, lease)
    &&& after.floor_bytes == lg.floor_bytes
    &&& after.substrate_outstanding == lg.substrate_outstanding
    &&& after.epoch == lg.epoch
}

/// The lease can be published: the consumer exists, and holds no more than it
/// means to.
pub open spec fn publishable(consumer: i32, intent: u64, resident: u64) -> bool {
    0 <= consumer < GOVC_COUNT && resident <= intent
}

/// Replaces the lease of `consumer`. An unknown consumer, or one that holds
/// more than it means to, is refused and counted as a fault.
pub fn gov_lease_publish(
    lg: &mut GovLedger,
    consumer: i32,
    intent: u64,
    resident: u64,
    reservation: u64,
    faults: &mut u64,
) -> (r: bool)
    requires
        *old(faults) < u64::MAX,
    ensures
        r == publishable(consumer, intent, resident),
        r ==> published(
            *old(lg),
            consumer as int,
            (GovLease { intent, resident, reservation }),
            *final(lg),
        ) && *final(faults) == *old(faults),
        !r ==> *final(lg) == *old(lg) && *final(faults) == *old(faults) + 1,
{
    if consumer < 0 || consumer >= GOVC_COUNT as i32 || resident > intent {
        *faults += 1;
        return false;
    }
    lg.lease[consumer as usize] = GovLease { intent, resident, reservation };
    true
}

/// No consumer holds more than it means to.
pub open spec fn sane(lg: GovLedger) -> bool {
    forall|c: int|
        0 <= c < GOVC_COUNT ==> (#[trigger] lg.lease@[c]).resident <= lg.lease@[c].intent
}

/// The first consumer from `c` on that holds more than it means to.
pub open spec fn first_insane(lg: GovLedger, c: int) -> int
    decreases GOVC_COUNT - c,
{
    if c < 0 || c >= GOVC_COUNT || lg.lease@[c].resident > lg.lease@[c].intent {
        c
    } else {
        first_insane(lg, c + 1)
    }
}

/// What the first `n` consumers but `requester` have set aside.
pub open spec fn reserved_by_others(lg: GovLedger, requester: int, n: int) -> int
    decreases n,
{
    if n <= 0 {
        0
    } else {
        reserved_by_others(lg, requester, n - 1) + if n - 1 == requester {
            0
        } else {
            lg.lease@[n - 1].reservation as int
        }
    }
}

/// What the first `n` consumers but `requester` mean to use and do not have.
pub open spec fn unfunded_of_others(lg: GovLedger, requester: int, n: int) -> int
    decreases n,
{
    if n <= 0 {
        0
    } else {
        unfunded_of_others(lg, requester, n - 1) + if n - 1 == requester {
            0
        } else {
            lg.lease@[n - 1].intent - lg.lease@[n - 1].resident
        }
    }
}

/// What the first `n` consumers would mean to use if the claim were granted.
pub open spec fn prospective_intent(lg: GovLedger, cl: GovClaim, n: int) -> int
    decreases n,
{
    if n <= 0 {
        0
    } else {
        prospective_intent(lg, cl, n - 1) + if n - 1 == cl.requester {
            cl.proposed_outstanding as int
        } else {
            lg.lease@[n - 1].intent as int
        }
    }
}

/// What the requester would use beyond what it has.
pub open spec fn own_unfunded(lg: GovLedger, cl: GovClaim) -> int {
    let resident = lg.lease@[cl.requester as int].resident;
    if cl.proposed_outstanding > resident {
        cl.proposed_outstanding - resident
    } else {
        0
    }
}

/// The free memory that granting the claim asks for.
pub open spec fn required_bytes(lg: GovLedger, cl: GovClaim) -> int {
    lg.floor_bytes + lg.substrate_outstanding + reserved_by_others(
        lg,
        cl.requester as int,
        GOVC_COUNT as int,
    ) + unfunded_of_others(lg, cl.requester as int, GOVC_COUNT as int) + own_unfunded(lg, cl)
        + cl.operation_transient
}

/// The claim names a consumer, a class and a domain.
pub open spec fn claim_valid(cl: GovClaim) -> bool {
    &&& 0 <= cl.requester < GOVC_COUNT
    &&& 0 <= cl.memc < MEMC_COUNT
    &&& 0 <= cl.domain < MEMD_COUNT
}

/// The sums over the leases fit a word.
pub open spec fn sums_fit(lg: GovLedger, cl: GovClaim) -> bool {
    &&& reserved_by_others(lg, cl.requester as int, GOVC_COUNT as int) <= u64::MAX
    &&& unfunded_of_others(lg, cl.requester as int, GOVC_COUNT as int) <= u64::MAX
    &&& prospective_intent(lg, cl, GOVC_COUNT as int) <= u64::MAX
}

/// The figures of a quote on a valid claim, before its status: those of the
/// claim and the ledger, and the sums over the leases up to the first that is
/// impossible.
pub open spec fn figures(lg: GovLedger, obs: MemObservation, cl: GovClaim) -> GovQuote {
    let n = first_insane(lg, 0);
    GovQuote {
        requester: cl.requester,
        memc: cl.memc,
        domain: cl.domain,
        epoch: lg.epoch,
        obs_status: obs.status.spec_code(),
        obs_source: obs.source.spec_code(),
        class_limit: cl.class_limit,
        proposed_class_bytes: cl.proposed_outstanding,
        floor_bytes: lg.floor_bytes,
        substrate_outstanding: lg.substrate_outstanding,
        operation_transient: cl.operation_transient,
        old_intent: lg.lease@[cl.requester as int].intent,
        proposed_intent: cl.proposed_outstanding,
        other_reservations: saturated(reserved_by_others(lg, cl.requester as int, n)),
        total_prospective_intent: saturated(prospective_intent(lg, cl, n)),
        ..GovQuote::zero()
    }
}

/// The answer to a claim.
pub open spec fn quote(lg: GovLedger, obs: MemObservation, cl: GovClaim) -> GovQuote {
    let f = figures(lg, obs, cl);
    let seen = GovQuote {
        obs_free: obs.free_bytes,
        obs_total: obs.total_bytes,
        available: obs.free_bytes,
        ..f
    };
    let costed = GovQuote { required: saturated(required_bytes(lg, cl)), ..seen };
    if !claim_valid(cl) {
        GovQuote { status: GovStatus::Fault.spec_code(), ..GovQuote::zero() }
    } else if !sane(lg) || !sums_fit(lg, cl) {
        GovQuote { status: GovStatus::Fault.spec_code(), ..f }
    } else if obs.status is Unsupported {
        GovQuote { status: GovStatus::Unsupported.spec_code(), ..f }
    } else if obs.status is QueryError {
        GovQuote { status: GovStatus::RetryObs.spec_code(), retryable: 1, ..f }
    } else if cl.class_limit != 0 && cl.proposed_outstanding > cl.class_limit {
        GovQuote { status: GovStatus::RefuseClass.spec_code(), ..seen }
    } else if required_bytes(lg, cl) > u64::MAX {
        GovQuote { status: GovStatus::Fault.spec_code(), ..costed }
    } else if obs.free_bytes >= required_bytes(lg, cl) {
        GovQuote { status: GovStatus::Admit.spec_code(), ..costed }
    } else {
        GovQuote {
            status: GovStatus::RefuseLive.spec_code(),
            retryable: 1,
            deficit: (required_bytes(lg, cl) - obs.free_bytes) as u64,
            ..costed
        }
    }
}

proof fn lemma_first_insane(lg: GovLedger, c: int)
    requires
        0 <= c <= GOVC_COUNT,
        forall|k: int| 0 <= k < c ==> (#[trigger] lg.lease@[k]).resident <= lg.lease@[k].intent,
    ensures
        c <= first_insane(lg, c) <= GOVC_COUNT,
        sane(lg) == (first_insane(lg, c) == GOVC_COUNT),
    decreases GOVC_COUNT - c,
{
    if c < GOVC_COUNT && lg.lease@[c].resident <= lg.lease@[c].intent {
        lemma_first_insane(lg, c + 1);
    }
}

proof fn lemma_sums_grow(lg: GovLedger, cl: GovClaim, n: int)
    requires
        0 <= n <= GOVC_COUNT,
        forall|k: int| 0 <= k < n ==> (#[trigger] lg.lease@[k]).resident <= lg.lease@[k].intent,
    ensures
        reserved_by_others(lg, cl.requester as int, n) >= 0,
        unfunded_of_others(lg, cl.requester as int, n) >= 0,
        prospective_intent(lg, cl, n) >= 0,
    decreases n,
{
    if n > 0 {
        lemma_sums_grow(lg, cl, n - 1);
    }
}

/// The sums over the leases, with the number of additions that did not fit.
struct LeaseSums {
    reservations: u64,
    unfunded: u64,
    intent: u64,
    overflow: u64,
    /// The leases added: all of them, or those before the first that is
    /// impossible.
    count: usize,
}

fn sum_leases(lg: &GovLedger, cl: &GovClaim) -> (r: LeaseSums)
    requires
        claim_valid(*cl),
    ensures
        r.count == first_insane(*lg, 0) <= GOVC_COUNT,
        r.reservations == saturated(reserved_by_others(*lg, cl.requester as int, r.count as int)),
        r.unfunded == saturated(unfunded_of_others(*lg, cl.requester as int, r.count as int)),
        r.intent == saturated(prospective_intent(*lg, *cl, r.count as int)),
        r.overflow <= 15,
        r.count == GOVC_COUNT ==> (r.overflow == 0) == sums_fit(*lg, *cl),
        (r.count == GOVC_COUNT) == sane(*lg),
{
    let mut s = LeaseSums { reservations: 0, unfunded: 0, intent: 0, overflow: 0, count: 0 };
    let requester: usize = cl.requester as usize;
    proof {
        lemma_first_insane(*lg, 0);
    }
    while s.count < GOVC_COUNT
        invariant
            s.count <= GOVC_COUNT,
            claim_valid(*cl),
            requester == cl.requester,
            forall|k: int|
                0 <= k < s.count ==> (#[trigger] lg.lease@[k]).resident <= lg.lease@[k].intent,
            first_insane(*lg, 0) == first_insane(*lg, s.count as int),
            s.reservations == saturated(
                reserved_by_others(*lg, requester as int, s.count as int),
            ),
            s.unfunded == saturated(unfunded_of_others(*lg, requester as int, s.count as int)),
            s.intent == saturated(prospective_intent(*lg, *cl, s.count as int)),
            s.overflow <= 3 * s.count,
            (s.overflow == 0) == (reserved_by_others(*lg, requester as int, s.count as int)
                <= u64::MAX && unfunded_of_others(*lg, requester as int, s.count as int)
                <= u64::MAX && prospective_intent(*lg, *cl, s.count as int) <= u64::MAX),
            sane(*lg) == (first_insane(*lg, 0) == GOVC_COUNT),
        decreases GOVC_COUNT - s.count,
    {
        let c: usize = s.count;
        let l = lg.lease[c];
        proof {
            lemma_sums_grow(*lg, *cl, c as int);
        }
        if l.resident > l.intent {
            return s;
        }
        if c != requester {
            s.reservations = sat_add(s.reservations, l.reservation, &mut s.overflow);
            s.unfunded = sat_add(s.unfunded, l.intent - l.resident, &mut s.overflow);
        }
        let term: u64 = if c == requester {
            cl.proposed_outstanding
        } else {
            l.intent
        };
        s.intent = sat_add(s.intent, term, &mut s.overflow);
        s.count = c + 1;
    }
    s
}

/// Answers a claim. The class cap comes first, the live floor second; a sum
/// that does not fit or an impossible lease is a fault.
pub fn gov_evaluate(lg: &GovLedger, obs: &MemObservation, cl: &GovClaim) -> (r: GovQuote)
    ensures
        r == quote(*lg, *obs, *cl),
{
    let mut q = GovQuote::default();
    if GovConsumer::from_i32(cl.requester).is_none() || cl.memc < 0 || cl.memc >= MEMC_COUNT as i32
        || cl.domain < 0 || cl.domain >= MEMD_COUNT as i32 {
        q.status = GovStatus::Fault.code();
        return q;
    }
    q.requester = cl.requester;
    q.memc = cl.memc;
    q.domain = cl.domain;
    q.epoch = lg.epoch;
    q.obs_status = obs.status.code();
    q.obs_source = obs.source.code();
    q.class_limit = cl.class_limit;
    q.proposed_class_bytes = cl.proposed_outstanding;
    q.floor_bytes = lg.floor_bytes;
    q.substrate_outstanding = lg.substrate_outstanding;
    q.operation_transient = cl.operation_transient;
    q.old_intent = lg.lease[cl.requester as usize].intent;
    q.proposed_intent = cl.proposed_outstanding;
    let sums = sum_leases(lg, cl);
    q.other_reservations = sums.reservations;
    q.total_prospective_intent = sums.intent;
    if sums.count < GOVC_COUNT || sums.overflow != 0 {
        q.status = GovStatus::Fault.code();
        return q;
    }
    if obs.status == MemObsStatus::Unsupported {
        q.status = GovStatus::Unsupported.code();
        return q;
    }
    if obs.status != MemObsStatus::Valid {
        q.status = GovStatus::RetryObs.code();
        q.retryable = 1;
        return q;
    }
    q.obs_free = obs.free_bytes;
    q.obs_total = obs.total_bytes;
    q.available = obs.free_bytes;
    if cl.class_limit != 0 && cl.proposed_outstanding > cl.class_limit {
        q.status = GovStatus::RefuseClass.code();
        return q;
    }
    proof {
        lemma_sums_grow(*lg, *cl, GOVC_COUNT as int);
    }
    let resident: u64 = lg.lease[cl.requester as usize].resident;
    let unfunded: u64 = cl.proposed_outstanding.saturating_sub(resident);
    let mut ovf: u64 = 0;
    let mut req: u64 = sat_add(lg.floor_bytes, lg.substrate_outstanding, &mut ovf);
    req = sat_add(req, q.other_reservations, &mut ovf);
    req = sat_add(req, sums.unfunded, &mut ovf);
    req = sat_add(req, unfunded, &mut ovf);
    req = sat_add(req, cl.operation_transient, &mut ovf);
    q.required = req;
    if ovf != 0 {
        q.status = GovStatus::Fault.code();
        return q;
    }
    if q.available >= q.required {
        q.status = GovStatus::Admit.code();
        return q;
    }
    q.status = GovStatus::RefuseLive.code();
    q.retryable = 1;
    q.deficit = q.required - q.available;
    q
}

/// A claim is admitted exactly where it is valid, the ledger is sane, the sums
/// fit, the observation succeeded, the class cap holds, and the free memory
/// covers what the claim asks for: never through a sum that wrapped.
pub proof fn law_admission(lg: GovLedger, obs: MemObservation, cl: GovClaim)
    ensures
        quote(lg, obs, cl).verdict() is Admit <==> {
            &&& claim_valid(cl)
            &&& sane(lg)
            &&& sums_fit(lg, cl)
            &&& obs.status is Valid
            &&& cl.class_limit == 0 || cl.proposed_outstanding <= cl.class_limit
            &&& required_bytes(lg, cl) <= obs.free_bytes
        },
{
}

/// The whole answer, from the ledger, the observation and the claim alone. A
/// valid claim asks for the floor, what the substrate still takes, what every
/// other consumer has set aside and still means to take, what the requester
/// lacks, and what the operation takes for a while. The first of these decides:
/// the claim, an impossible lease or a sum that does not fit, the observation,
/// the class cap, a requirement that does not fit, the free memory.
pub proof fn law_quote_from_the_leases(lg: GovLedger, obs: MemObservation, cl: GovClaim)
    ensures
        ({
            let q = quote(lg, obs, cl);
            let l = lg.lease@;
            let r = cl.requester as int;
            let aside = |c: int| if c == r { 0int } else { l[c].reservation as int };
            let lacks = |c: int| if c == r { 0int } else { l[c].intent - l[c].resident };
            let means = |c: int|
                if c == r { cl.proposed_outstanding as int } else { l[c].intent as int };
            let set_aside = aside(0) + aside(1) + aside(2) + aside(3) + aside(4);
            let lacking = lacks(0) + lacks(1) + lacks(2) + lacks(3) + lacks(4);
            let meant = means(0) + means(1) + means(2) + means(3) + means(4);
            let own = if cl.proposed_outstanding > l[r].resident {
                cl.proposed_outstanding - l[r].resident
            } else {
                0
            };
            let needed = lg.floor_bytes + lg.substrate_outstanding + set_aside + lacking + own
                + cl.operation_transient;
            if r < 0 || r > 4 || cl.memc < 0 || cl.memc > 16 || cl.domain < 0 || cl.domain > 1 {
                q.status == 5 && q.retryable == 0 && q.required == 0 && q.deficit == 0
            } else if l[0].resident > l[0].intent || l[1].resident > l[1].intent || l[2].resident
                > l[2].intent || l[3].resident > l[3].intent || l[4].resident > l[4].intent
                || set_aside > u64::MAX || lacking > u64::MAX || meant > u64::MAX {
                q.status == 5 && q.retryable == 0 && q.required == 0 && q.deficit == 0
            } else {
                &&& q.other_reservations == set_aside
                &&& q.total_prospective_intent == meant
                &&& if obs.status is Unsupported {
                    q.status == 4 && q.retryable == 0 && q.required == 0 && q.deficit == 0
                } else if obs.status is QueryError {
                    q.status == 3 && q.retryable == 1 && q.required == 0 && q.deficit == 0
                } else {
                    &&& q.obs_free == obs.free_bytes
                    &&& q.obs_total == obs.total_bytes
                    &&& q.available == obs.free_bytes
                    &&& if cl.class_limit > 0 && cl.proposed_outstanding > cl.class_limit {
                        q.status == 1 && q.retryable == 0 && q.required == 0 && q.deficit == 0
                    } else if needed > u64::MAX {
                        q.status == 5 && q.retryable == 0 && q.deficit == 0
                    } else if needed <= obs.free_bytes {
                        q.status == 0 && q.retryable == 0 && q.required == needed && q.deficit == 0
                    } else {
                        q.status == 2 && q.retryable == 1 && q.required == needed && q.deficit
                            == needed - obs.free_bytes
                    }
                }
            }
        }),
{
    reveal_with_fuel(reserved_by_others, 6);
    reveal_with_fuel(unfunded_of_others, 6);
    reveal_with_fuel(prospective_intent, 6);
    lemma_first_insane(lg, 0);
}

/// A quote on a valid claim repeats what it was asked and what the ledger says.
pub proof fn law_quote_repeats_the_claim(lg: GovLedger, obs: MemObservation, cl: GovClaim)
    requires
        0 <= cl.requester <= 4,
        0 <= cl.memc <= 16,
        0 <= cl.domain <= 1,
    ensures
        ({
            let q = quote(lg, obs, cl);
            &&& q.requester == cl.requester
            &&& q.memc == cl.memc
            &&& q.domain == cl.domain
            &&& q.epoch == lg.epoch
            &&& q.class_limit == cl.class_limit
            &&& q.proposed_class_bytes == cl.proposed_outstanding
            &&& q.proposed_intent == cl.proposed_outstanding
            &&& q.old_intent == lg.lease@[cl.requester as int].intent
            &&& q.floor_bytes == lg.floor_bytes
            &&& q.substrate_outstanding == lg.substrate_outstanding
            &&& q.operation_transient == cl.operation_transient
            &&& q.obs_status == match obs.status {
                MemObsStatus::Valid => 0int,
                MemObsStatus::Unsupported => 1,
                MemObsStatus::QueryError => 2,
            }
            &&& q.obs_source == match obs.source {
                MemObsSource::NoSource => 0int,
                MemObsSource::CudaFree => 1,
                MemObsSource::MeminfoAvailable => 2,
            }
        }),
{
}

/// Whichever other consumer means to take `d` bytes more, or sets `d` bytes
/// more aside, the claim asks for exactly `d` bytes more; and for exactly as
/// many less as the consumer comes to hold of what it means to take.
pub proof fn law_every_other_lease_counts(
    lg: GovLedger,
    obs: MemObservation,
    cl: GovClaim,
    c: int,
    after: GovLedger,
)
    requires
        0 <= c <= 4,
        c != cl.requester,
        after.lease@.len() == 5,
        forall|k: int| 0 <= k <= 4 && k != c ==> after.lease@[k] == #[trigger] lg.lease@[k],
        after.floor_bytes == lg.floor_bytes,
        after.substrate_outstanding == lg.substrate_outstanding,
        quote(lg, obs, cl).status == 0 || quote(lg, obs, cl).status == 2,
        quote(after, obs, cl).status == 0 || quote(after, obs, cl).status == 2,
    ensures
        quote(after, obs, cl).required - quote(lg, obs, cl).required == (after.lease@[c].intent
            - lg.lease@[c].intent) - (after.lease@[c].resident - lg.lease@[c].resident) + (
        after.lease@[c].reservation - lg.lease@[c].reservation),
{
    law_quote_from_the_leases(lg, obs, cl);
    law_quote_from_the_leases(after, obs, cl);
}

/// How two verdicts compare says which of them is the stricter: never that they
/// agree where they differ, and nothing of the live verdict where the shadow
/// verdict rests on no observation or on a fault.
pub proof fn law_comparison_names_the_stricter(live: GovStatus, shadow: GovStatus)
    ensures
        (comparison(live, shadow) is Fault) == (shadow is Fault),
        (comparison(live, shadow) is ObsPolicy) == (shadow is RetryObs || shadow is Unsupported),
        (comparison(live, shadow) is Agree) == (live == shadow && (shadow is Admit
            || shadow is RefuseClass || shadow is RefuseLive)),
        (comparison(live, shadow) is ShadowStricter) == (live is Admit && (shadow is RefuseClass
            || shadow is RefuseLive)),
        (comparison(live, shadow) is LiveStricter) == (!(live is Admit) && shadow is Admit),
{
}

/// More free memory never turns an admission into anything else.
pub proof fn law_admission_is_monotone(
    lg: GovLedger,
    obs: MemObservation,
    cl: GovClaim,
    free_bytes: u64,
)
    requires
        quote(lg, obs, cl).verdict() is Admit,
        obs.free_bytes <= free_bytes,
    ensures
        quote(lg, (MemObservation { free_bytes, ..obs }), cl).verdict() is Admit,
{
}

/// Exactly the verdicts that time can change are retryable, and a refusal for
/// want of memory says by how much.
pub proof fn law_retry_and_deficit(lg: GovLedger, obs: MemObservation, cl: GovClaim)
    ensures
        (quote(lg, obs, cl).retryable == 1) == (quote(lg, obs, cl).verdict() is RefuseLive
            || quote(lg, obs, cl).verdict() is RetryObs),
        quote(lg, obs, cl).verdict() is RefuseLive ==> quote(lg, obs, cl).deficit > 0
            && quote(lg, obs, cl).available + quote(lg, obs, cl).deficit == quote(
            lg,
            obs,
            cl,
        ).required,
        !(quote(lg, obs, cl).verdict() is RefuseLive) ==> quote(lg, obs, cl).deficit == 0,
{
}

/// Publishing the lease that stands leaves the ledger as it is, and publishing
/// a lease twice is publishing it once.
pub proof fn law_publish_is_idempotent(
    lg: GovLedger,
    consumer: int,
    lease: GovLease,
    once: GovLedger,
    twice: GovLedger,
)
    requires
        0 <= consumer < GOVC_COUNT,
        published(lg, consumer, lease, once),
        published(once, consumer, lease, twice),
    ensures
        twice.lease@ == once.lease@,
        twice.floor_bytes == once.floor_bytes,
        twice.substrate_outstanding == once.substrate_outstanding,
        twice.epoch == once.epoch,
        lg.lease@[consumer] == lease ==> once.lease@ == lg.lease@,
{
    assert(twice.lease@ =~= once.lease@);
    if lg.lease@[consumer] == lease {
        assert(once.lease@ =~= lg.lease@);
    }
}

/// Every consumer may hold up to what it means to, and no consumer more; what is
/// published is then the lease of that consumer, and all else stays.
pub proof fn law_publish_replaces_one_lease(
    lg: GovLedger,
    consumer: i32,
    lease: GovLease,
    after: GovLedger,
)
    requires
        published(lg, consumer as int, lease, after),
        0 <= consumer <= 4,
    ensures
        publishable(consumer, lease.intent, lease.resident) == (lease.resident <= lease.intent),
        after.lease@.len() == 5,
        after.lease@[consumer as int] == lease,
        forall|c: int| 0 <= c <= 4 && c != consumer ==> after.lease@[c] == #[trigger] lg.lease@[c],
        after.floor_bytes == lg.floor_bytes,
        after.substrate_outstanding == lg.substrate_outstanding,
        after.epoch == lg.epoch,
{
}

/// A sane ledger stays sane whatever is published.
pub proof fn law_publish_keeps_sane(
    lg: GovLedger,
    consumer: i32,
    lease: GovLease,
    after: GovLedger,
)
    requires
        sane(lg),
        publishable(consumer, lease.intent, lease.resident),
        published(lg, consumer as int, lease, after),
    ensures
        sane(after),
{
    assert forall|c: int| 0 <= c < GOVC_COUNT implies (#[trigger] after.lease@[c]).resident
        <= after.lease@[c].intent by {
        if c != consumer {
            assert(after.lease@[c] == lg.lease@[c]);
        }
    }
}

/// A write is in flight at epoch `e`.
pub open spec fn in_flight(e: u64) -> bool {
    e % 2 == 1
}

/// The epoch after `e`.
pub open spec fn next_epoch(e: u64) -> u64 {
    if e == u64::MAX {
        0
    } else {
        (e + 1) as u64
    }
}

/// A copy begun at epoch `began` and checked at epoch `now` is coherent.
pub open spec fn coherent(began: u64, now: u64) -> bool {
    now == began && !in_flight(began)
}

/// The step that begins a write at epoch `e`: the next epoch, and whether a
/// write was already in flight.
pub fn write_begin_step(e: u64) -> (r: (u64, bool))
    ensures
        r.0 == next_epoch(e),
        r.1 == in_flight(e),
{
    (e.wrapping_add(1), e % 2 == 1)
}

/// The step that ends a write at epoch `e`: the next epoch, and whether no
/// write was in flight.
pub fn write_end_step(e: u64) -> (r: (u64, bool))
    ensures
        r.0 == next_epoch(e),
        r.1 == !in_flight(e),
{
    (e.wrapping_add(1), e % 2 == 0)
}

/// Whether a copy begun at epoch `began` and checked at epoch `now` is
/// coherent.
pub fn read_is_coherent(began: u64, now: u64) -> (r: bool)
    ensures
        r == coherent(began, now),
{
    now == began && began % 2 == 0
}

/// The fault count after `faults`, with one more where `fault`.
pub open spec fn counted(faults: u64, fault: bool) -> int {
    if fault {
        faults + 1
    } else {
        faults as int
    }
}

/// Begins a write: the epoch that is found is advanced by
/// [`write_begin_step`]. A write that was already in flight is a fault. Gives
/// the epoch that was found. Other threads may advance the atomic too, so
/// nothing is claimed of what it holds before or after.
pub fn gov_epoch_write_begin(epoch: &AtomicU64, faults: &mut u64) -> (found: u64)
    requires
        *old(faults) < u64::MAX,
    ensures
        *final(faults) == counted(*old(faults), in_flight(found)),
{
    let found: u64 = epoch.load(Ordering::Relaxed);
    let step = write_begin_step(found);
    if step.1 {
        *faults += 1;
    }
    epoch.store(step.0, Ordering::Relaxed);
    full_barrier();
    found
}

/// Ends a write: the epoch that is found is advanced by [`write_end_step`]. A
/// write that was not in flight is a fault. Gives the epoch that was found.
/// Other threads may advance the atomic too, so nothing is claimed of what it
/// holds before or after.
pub fn gov_epoch_write_end(epoch: &AtomicU64, faults: &mut u64) -> (found: u64)
    requires
        *old(faults) < u64::MAX,
    ensures
        *final(faults) == counted(*old(faults), !in_flight(found)),
{
    full_barrier();
    let found: u64 = epoch.load(Ordering::Relaxed);
    let step = write_end_step(found);
    if step.1 {
        *faults += 1;
    }
    epoch.store(step.0, Ordering::Relaxed);
    found
}

/// The epoch at which a copy begins. Other threads may advance it at any time,
/// so nothing is claimed of the value.
pub fn gov_epoch_read_begin(epoch: &AtomicU64) -> u64 {
    epoch.load(Ordering::Acquire)
}

/// Whether a copy begun at epoch `began` is coherent with the epoch found now,
/// as [`read_is_coherent`] says.
pub fn gov_epoch_read_verify(epoch: &AtomicU64, began: u64) -> (r: bool)
    ensures
        r ==> !in_flight(began),
{
    full_barrier();
    read_is_coherent(began, epoch.load(Ordering::Relaxed))
}

/// A write that begins and ends at rest comes to rest again, at another epoch,
/// without a fault; a copy begun before it is not coherent after it, nor one
/// begun within it.
pub proof fn law_write_breaks_reads(e: u64)
    requires
        !in_flight(e),
    ensures
        in_flight(next_epoch(e)),
        !in_flight(next_epoch(next_epoch(e))),
        !coherent(e, next_epoch(next_epoch(e))),
        forall|now: u64| !coherent(next_epoch(e), now),
        coherent(e, e),
{
}

} // verus!
