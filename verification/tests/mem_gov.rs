//! The memory governor.

use ds4::mem::{snapshot_mem, MemCell, MemCensus, MemObserve, MEMC_COUNT, MEMD_COUNT};
use ds4::mem_gov::{
    gov_compare, gov_epoch_read_begin, gov_epoch_read_verify, gov_epoch_write_begin,
    gov_epoch_write_end, gov_evaluate, gov_lease_publish, gov_mode_name, gov_mode_parse, GovClaim,
    GovCmp, GovConsumer, GovLedger, GovMode, GovStatus, MemObsSource, MemObsStatus, MemObservation,
    GOVC_COUNT,
};
use std::sync::atomic::AtomicU64;

const MEMC_BATCH_BANK: i32 = 12;
const MEMC_SESSION_TENSORS: i32 = 10;
const MEMD_UNIFIED: i32 = 0;

fn test_ledger() -> GovLedger {
    let mut lg = GovLedger::default();
    let mut faults = 0;
    assert!(gov_lease_publish(
        &mut lg,
        GovConsumer::EngineBoot as i32,
        10000,
        10000,
        0,
        &mut faults
    ));
    assert!(gov_lease_publish(
        &mut lg,
        GovConsumer::Prewarm as i32,
        200,
        200,
        0,
        &mut faults
    ));
    assert!(gov_lease_publish(
        &mut lg,
        GovConsumer::BatchBankPlan as i32,
        1200,
        1000,
        0,
        &mut faults
    ));
    assert!(gov_lease_publish(
        &mut lg,
        GovConsumer::SerialSession as i32,
        0,
        0,
        200,
        &mut faults
    ));
    assert_eq!(faults, 0);
    lg.floor_bytes = 600;
    lg.substrate_outstanding = 50;
    lg.epoch = 42;
    lg
}

fn test_obs(free_bytes: u64) -> MemObservation {
    MemObservation {
        status: MemObsStatus::Valid,
        source: MemObsSource::MeminfoAvailable,
        free_bytes,
        total_bytes: 20000,
    }
}

fn bank_claim(proposed: u64, class_limit: u64) -> GovClaim {
    GovClaim {
        requester: GovConsumer::BatchBankPlan as i32,
        memc: MEMC_BATCH_BANK,
        domain: MEMD_UNIFIED,
        proposed_outstanding: proposed,
        operation_transient: 0,
        class_limit,
    }
}

#[test]
fn evaluate_verdicts_match_c() {
    let lg = test_ledger();
    let mut cl = bank_claim(1500, 2000);
    let q = gov_evaluate(&lg, &test_obs(1350), &cl);
    assert_eq!(q.status(), GovStatus::Admit);
    assert_eq!((q.required, q.available, q.deficit), (1350, 1350, 0));
    assert_eq!((q.old_intent, q.proposed_intent), (1200, 1500));
    assert_eq!(q.other_reservations, 200);
    assert_eq!(q.total_prospective_intent, 10000 + 200 + 1500);
    assert_eq!(q.epoch, 42);
    assert_eq!(q.obs_source, MemObsSource::MeminfoAvailable as i32);

    let q = gov_evaluate(&lg, &test_obs(1349), &cl);
    assert_eq!(q.status(), GovStatus::RefuseLive);
    assert_eq!(q.retryable, 1);
    assert_eq!(q.deficit, 1);

    cl.proposed_outstanding = 2500;
    let q = gov_evaluate(&lg, &test_obs(u64::MAX / 2), &cl);
    assert_eq!(q.status(), GovStatus::RefuseClass);
    assert_eq!(q.retryable, 0);
    assert_eq!((q.proposed_class_bytes, q.class_limit), (2500, 2000));

    cl.class_limit = 0;
    let q = gov_evaluate(&lg, &test_obs(u64::MAX / 2), &cl);
    assert_eq!(q.status(), GovStatus::Admit);

    cl.proposed_outstanding = 1500;
    cl.class_limit = 2000;
    cl.operation_transient = 100;
    let q = gov_evaluate(&lg, &test_obs(1449), &cl);
    assert_eq!(q.status(), GovStatus::RefuseLive);
    assert_eq!(q.deficit, 1);
}

#[test]
fn serial_window_lease_matches_c() {
    let mut lg = test_ledger();
    let mut faults = 0;
    let cl = bank_claim(1500, 0);
    let o = test_obs(1350);
    let q = gov_evaluate(&lg, &o, &cl);
    assert_eq!(q.status(), GovStatus::Admit);
    assert_eq!(q.required, 1350);

    assert!(gov_lease_publish(
        &mut lg,
        GovConsumer::SerialSession as i32,
        5000,
        0,
        200,
        &mut faults
    ));
    let q = gov_evaluate(&lg, &o, &cl);
    assert_eq!(q.status(), GovStatus::RefuseLive);
    assert_eq!((q.required, q.deficit), (1350 + 5000, 5000));

    assert!(gov_lease_publish(
        &mut lg,
        GovConsumer::SerialSession as i32,
        5000,
        5000,
        200,
        &mut faults
    ));
    let q = gov_evaluate(&lg, &o, &cl);
    assert_eq!(q.status(), GovStatus::Admit);
    assert_eq!(q.required, 1350);

    assert!(gov_lease_publish(
        &mut lg,
        GovConsumer::SerialSession as i32,
        0,
        0,
        200,
        &mut faults
    ));
    let q = gov_evaluate(&lg, &o, &cl);
    assert_eq!(q.status(), GovStatus::Admit);
    assert_eq!(q.required, 1350);
    assert_eq!(faults, 0);
}

#[test]
fn requester_asymmetry_matches_c() {
    let lg = test_ledger();
    let mut cl = GovClaim {
        requester: GovConsumer::SerialSession as i32,
        memc: MEMC_SESSION_TENSORS,
        domain: MEMD_UNIFIED,
        proposed_outstanding: 700,
        operation_transient: 0,
        class_limit: 0,
    };
    let qs = gov_evaluate(&lg, &test_obs(1550), &cl);
    assert_eq!(qs.status(), GovStatus::Admit);
    assert_eq!(qs.required, 1550);
    assert_eq!(qs.other_reservations, 0);

    cl.requester = GovConsumer::StaticBatch as i32;
    let qb = gov_evaluate(&lg, &test_obs(1550), &cl);
    assert_eq!(qb.status(), GovStatus::RefuseLive);
    assert_eq!((qb.required, qb.deficit), (1550 + 200, 200));
    assert_eq!(qb.other_reservations, 200);
}

#[test]
fn absolute_replacement_is_idempotent() {
    let lg = test_ledger();
    let mut cl = bank_claim(1500, 2000);
    let o = test_obs(1350);
    assert_eq!(gov_evaluate(&lg, &o, &cl), gov_evaluate(&lg, &o, &cl));

    cl.proposed_outstanding = 900;
    let qs = gov_evaluate(&lg, &test_obs(850), &cl);
    assert_eq!(qs.status(), GovStatus::Admit);
    assert_eq!(qs.required, 850);

    let mut after = test_ledger();
    let before = after;
    let mut faults = 0;
    assert!(gov_lease_publish(
        &mut after,
        GovConsumer::BatchBankPlan as i32,
        1200,
        1000,
        0,
        &mut faults
    ));
    assert_eq!(before, after);
    assert_eq!(faults, 0);
}

#[test]
fn observation_policy_matches_c() {
    let lg = test_ledger();
    let cl = bank_claim(1500, 0);
    let mut o = test_obs(1350);
    o.status = MemObsStatus::Unsupported;
    let q = gov_evaluate(&lg, &o, &cl);
    assert_eq!(q.status(), GovStatus::Unsupported);
    assert_eq!(q.retryable, 0);
    assert_eq!((q.obs_free, q.available), (0, 0));
    assert_eq!(q.requester, GovConsumer::BatchBankPlan as i32);
    assert_eq!(q.epoch, 42);

    o.status = MemObsStatus::QueryError;
    let q = gov_evaluate(&lg, &o, &cl);
    assert_eq!(q.status(), GovStatus::RetryObs);
    assert_eq!(q.retryable, 1);
}

#[test]
fn checked_arithmetic_fails_closed() {
    let cl = bank_claim(1500, 0);
    let o = test_obs(1350);
    let mut lg = test_ledger();
    assert_eq!(
        gov_evaluate(&lg, &o, &GovClaim { requester: 5, ..cl }).status(),
        GovStatus::Fault
    );
    assert_eq!(
        gov_evaluate(
            &lg,
            &o,
            &GovClaim {
                memc: MEMC_COUNT as i32,
                ..cl
            }
        )
        .status(),
        GovStatus::Fault
    );
    assert_eq!(
        gov_evaluate(&lg, &o, &GovClaim { domain: -1, ..cl }).status(),
        GovStatus::Fault
    );

    lg.lease[GovConsumer::EngineBoot as usize].resident =
        lg.lease[GovConsumer::EngineBoot as usize].intent + 1;
    assert_eq!(gov_evaluate(&lg, &o, &cl).status(), GovStatus::Fault);

    lg = test_ledger();
    lg.floor_bytes = u64::MAX;
    assert_eq!(
        gov_evaluate(&lg, &test_obs(u64::MAX), &cl).status(),
        GovStatus::Fault
    );
    lg = test_ledger();
    lg.lease[GovConsumer::EngineBoot as usize].intent = u64::MAX;
    lg.lease[GovConsumer::EngineBoot as usize].resident = u64::MAX;
    assert_eq!(
        gov_evaluate(&lg, &test_obs(u64::MAX), &cl).status(),
        GovStatus::Fault
    );

    let before = test_ledger();
    let mut after = before;
    let mut faults = 0;
    assert!(!gov_lease_publish(
        &mut after,
        GOVC_COUNT as i32,
        1,
        1,
        0,
        &mut faults
    ));
    assert!(!gov_lease_publish(
        &mut after,
        GovConsumer::Prewarm as i32,
        100,
        101,
        0,
        &mut faults
    ));
    assert_eq!(faults, 2);
    assert_eq!(before, after);
}

#[test]
fn state_machine_matches_c() {
    let mut lg = test_ledger();
    let mut faults = 0;
    let cl = bank_claim(1500, 2000);
    let o = test_obs(1350);
    assert_eq!(gov_evaluate(&lg, &o, &cl).status(), GovStatus::Admit);
    assert!(gov_lease_publish(
        &mut lg,
        GovConsumer::BatchBankPlan as i32,
        1500,
        1500,
        0,
        &mut faults
    ));
    let q = gov_evaluate(&lg, &o, &cl);
    assert_eq!(q.status(), GovStatus::Admit);
    assert_eq!(q.required, 850);
    assert!(gov_lease_publish(
        &mut lg,
        GovConsumer::BatchBankPlan as i32,
        0,
        0,
        0,
        &mut faults
    ));
    let q = gov_evaluate(&lg, &o, &cl);
    assert_eq!((q.old_intent, q.required), (0, 850 + 1500));
    assert_eq!(q.status(), GovStatus::RefuseLive);
    assert_eq!(q.deficit, 1000);
    assert_eq!(faults, 0);
}

#[test]
fn epoch_protocol_matches_c() {
    let epoch = AtomicU64::new(0);
    let mut faults = 0;
    let mut began = gov_epoch_read_begin(&epoch);
    assert!(gov_epoch_read_verify(&epoch, began));

    gov_epoch_write_begin(&epoch, &mut faults);
    began = gov_epoch_read_begin(&epoch);
    assert_ne!(began & 1, 0);
    assert!(!gov_epoch_read_verify(&epoch, began));
    gov_epoch_write_end(&epoch, &mut faults);
    assert_eq!(faults, 0);

    began = gov_epoch_read_begin(&epoch);
    gov_epoch_write_begin(&epoch, &mut faults);
    gov_epoch_write_end(&epoch, &mut faults);
    assert!(!gov_epoch_read_verify(&epoch, began));

    began = gov_epoch_read_begin(&epoch);
    assert!(gov_epoch_read_verify(&epoch, began));
    assert_eq!(faults, 0);

    gov_epoch_write_begin(&epoch, &mut faults);
    gov_epoch_write_begin(&epoch, &mut faults);
    assert_eq!(faults, 1);
    gov_epoch_write_end(&epoch, &mut faults);
    assert_eq!(faults, 2);
    gov_epoch_write_end(&epoch, &mut faults);
    assert_eq!(faults, 2);
    began = gov_epoch_read_begin(&epoch);
    assert_eq!(began & 1, 0);
    assert!(gov_epoch_read_verify(&epoch, began));
}

#[test]
fn compare_classes_are_closed() {
    assert_eq!(
        gov_compare(GovStatus::Admit, GovStatus::Admit),
        GovCmp::Agree
    );
    assert_eq!(
        gov_compare(GovStatus::RefuseLive, GovStatus::RefuseLive),
        GovCmp::Agree
    );
    assert_eq!(
        gov_compare(GovStatus::RefuseLive, GovStatus::Admit),
        GovCmp::LiveStricter
    );
    assert_eq!(
        gov_compare(GovStatus::Admit, GovStatus::RefuseLive),
        GovCmp::ShadowStricter
    );
    assert_eq!(
        gov_compare(GovStatus::RefuseClass, GovStatus::RefuseLive),
        GovCmp::VerdictClass
    );
    assert_eq!(
        gov_compare(GovStatus::Admit, GovStatus::RetryObs),
        GovCmp::ObsPolicy
    );
    assert_eq!(
        gov_compare(GovStatus::RefuseLive, GovStatus::Unsupported),
        GovCmp::ObsPolicy
    );
    assert_eq!(
        gov_compare(GovStatus::Admit, GovStatus::Fault),
        GovCmp::Fault
    );
}

#[test]
fn mode_parse_is_exact() {
    assert_eq!(gov_mode_parse("off"), Some(GovMode::Off));
    assert_eq!(gov_mode_parse("observe"), Some(GovMode::Observe));
    assert_eq!(gov_mode_parse("enforce"), Some(GovMode::Enforce));
    assert_eq!(gov_mode_parse(""), None);
    assert_eq!(gov_mode_parse("obs"), None);
    assert_eq!(gov_mode_parse("observed"), None);
    assert_eq!(gov_mode_parse("Enforce"), None);
    assert_eq!(gov_mode_parse("offx"), None);
    for mode in [GovMode::Off, GovMode::Observe, GovMode::Enforce] {
        assert_eq!(gov_mode_parse(gov_mode_name(mode)), Some(mode));
    }
}

#[test]
fn a_failed_census_is_empty() {
    let observe = MemObserve {
        status: 0,
        source: 2,
        free_bytes: 7,
        total_bytes: 9,
        cuda_free_bytes: 1,
        meminfo_avail_bytes: 2,
    };
    let failed = snapshot_mem(1, MemCensus::default(), observe, 5);
    let fine = snapshot_mem(0, MemCensus::default(), observe, 5);
    assert_eq!(fine.substrate_outstanding, 5);
    assert_eq!(fine.observe.free_bytes, 7);
    assert!(!failed.census.supported);
    assert_eq!(MEMC_COUNT, 17);
    assert_eq!(MEMD_COUNT, 2);
}

#[test]
fn consumers_have_the_numbers_from_zero() {
    assert_eq!(GovConsumer::from_i32(0), Some(GovConsumer::EngineBoot));
    assert_eq!(GovConsumer::from_i32(4), Some(GovConsumer::StaticBatch));
    assert_eq!(GovConsumer::from_i32(5), None);
    assert_eq!(GovConsumer::from_i32(-1), None);
}

#[test]
fn census_abi_layout() {
    assert_eq!(std::mem::size_of::<MemCell>(), 48);
    assert_eq!(std::mem::align_of::<MemCensus>(), 8);
    assert_eq!(MEMC_COUNT, 17);
    assert_eq!(MEMD_COUNT, 2);
}

#[test]
fn a_fault_is_told_by_the_epoch_that_is_found() {
    let epoch = AtomicU64::new(u64::MAX - 1);
    let mut faults = 0;
    assert_eq!(gov_epoch_write_begin(&epoch, &mut faults), u64::MAX - 1);
    assert_eq!(faults, 0);
    assert_eq!(gov_epoch_write_begin(&epoch, &mut faults), u64::MAX);
    assert_eq!(faults, 1);
    assert_eq!(gov_epoch_write_end(&epoch, &mut faults), 0);
    assert_eq!(faults, 2);
    assert_eq!(gov_epoch_write_end(&epoch, &mut faults), 1);
    assert_eq!(faults, 2);
    assert_eq!(gov_epoch_read_begin(&epoch), 2);
}
