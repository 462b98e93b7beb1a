//! Quota charges, intents and reservations.

use smesh_authority::crypto::text_digest;
use smesh_authority::fault::Fault;
use smesh_authority::quota::{
    adjust_capacity, apply_quota_intent, apply_replay_request_charges, charge_bucket, decide_quota_intent,
    can_charge, expected_intent, has_dimension, live_usage, plan_charge, plan_charges, quota_algorithm_name,
    stored_bucket, window_start, Bucket, BucketRow, Charge,
    ChargeFacts, ExecutionBudget, ExpectedIntent, LiveUsage, Meter, OverrideLimits, PolicyIdentity,
    QuotaAlgorithm, QuotaApplication, QuotaDimension, QuotaIntent, QuotaLeaseKind, QuotaOperation, QuotaPath,
    QuotaScopeKind, StoredIntent, TokenState,
};
use smesh_authority::reservation::{
    acquire_quota_lease, append_quota_denial_audit, bind_execution_reservation, charge_quota_egress,
    charge_quota_request, copy_reservation, denial_audit, effective_now, execution_reservation_key,
    finalize_quota_result, holds_quota_lease, insert_quota_reservation, lease_until, read_reservation,
    reclaim_expired_quota_leases, reclaimed_count, released_usage, renew_quota_lease,
    replay_execution_reservation, same_reservation, settle_execution_reservation, BoundExecution,
    ExecutionReservation, Measurement, QuotaReport, QuotaReservationInput, ReplayedExecution, ReservationAction,
    ReservationColumns, ReservationState, Settlement, SettlingReceipt, SettlingReservation, StoredQuotaLease,
    StoredReservation,
};

fn charge(dimension: QuotaDimension, algorithm: QuotaAlgorithm, window: Option<u64>, units: u64) -> Charge {
    Charge {
        scope_kind: QuotaScopeKind::Tenant,
        scope_id: "t".to_string(),
        dimension,
        algorithm,
        window_millis: window,
        units,
    }
}

fn requests(units: u64) -> Charge {
    charge(QuotaDimension::RequestCount, QuotaAlgorithm::FixedWindow, Some(1_000), units)
}

fn window(used: i64) -> Bucket {
    Bucket { window_start: 2_000, capacity: 10, used, meter: Meter::Window, updated_at: 2_100 }
}

fn tokens(available: i64, remainder: i64) -> Bucket {
    Bucket {
        window_start: 0,
        capacity: 10,
        used: 10 - available,
        meter: Meter::Token(TokenState {
            available,
            last_refill_at: 1_000,
            refill_numerator: 10,
            refill_period: 1_000,
            refill_remainder: remainder,
        }),
        updated_at: 1_000,
    }
}

#[test]
fn windows_hold_their_time() {
    let fixed = requests(1);
    assert_eq!(window_start(&fixed, 2_345), 2_000);
    assert_eq!(window_start(&fixed, 2_000), 2_000);
    assert_eq!(window_start(&fixed, -1), -1_000);
    assert_eq!(window_start(&charge(QuotaDimension::InputBytes, QuotaAlgorithm::TokenBucket, Some(7), 1), 50), 0);
    assert_eq!(window_start(&charge(QuotaDimension::InputBytes, QuotaAlgorithm::FixedWindow, Some(u64::MAX), 1), 50), 0);
}

#[test]
fn window_charges_add_up() {
    let once = charge_bucket(window(0), 7, 10, 2_200).unwrap();
    assert_eq!(once.used, 7);
    assert_eq!(once.updated_at, 2_200);
    let twice = charge_bucket(charge_bucket(window(0), 3, 10, 2_150).unwrap(), 4, 10, 2_200).unwrap();
    assert_eq!(once, twice);
    assert_eq!(charge_bucket(once, 4, 10, 2_300), Err(Fault::QuotaExceeded));
    assert_eq!(charge_bucket(once, 1, 11, 2_300), Err(Fault::QuotaExceeded));
}

#[test]
fn tokens_refill_over_time() {
    let charged = charge_bucket(tokens(0, 0), 1, 10, 1_250).unwrap();
    let Meter::Token(state) = charged.meter else { panic!("a token bucket stays one") };
    assert_eq!(state.available, 1);
    assert_eq!(state.refill_remainder, 500);
    assert_eq!(state.last_refill_at, 1_250);
    assert_eq!(charged.used, 9);
    assert_eq!(state.available + charged.used, 10);
    assert_eq!(charge_bucket(tokens(0, 0), 3, 10, 1_250), Err(Fault::QuotaExceeded));
    let full = charge_bucket(tokens(9, 999), 0, 10, 9_000).unwrap();
    assert!(matches!(full.meter, Meter::Token(TokenState { available: 10, refill_remainder: 0, .. })));
}

#[test]
fn clocks_that_go_back_refill_nothing() {
    let charged = charge_bucket(tokens(5, 7), 1, 10, 500).unwrap();
    assert!(matches!(
        charged.meter,
        Meter::Token(TokenState { available: 4, refill_remainder: 7, last_refill_at: 1_000, .. })
    ));
    assert_eq!(charged.updated_at, 1_000);
}

#[test]
fn capacity_follows_the_policy() {
    assert_eq!(adjust_capacity(window(8), 5, 3_000), window(8));
    assert_eq!(adjust_capacity(window(4), 5, 3_000), Bucket { capacity: 5, updated_at: 3_000, ..window(4) });
    let gauge = Bucket { meter: Meter::Gauge, ..window(8) };
    assert_eq!(adjust_capacity(gauge, 5, 3_000).used, 5);
    let cut = adjust_capacity(tokens(8, 0), 5, 3_000);
    assert_eq!(cut.used, 0);
    assert!(matches!(cut.meter, Meter::Token(TokenState { available: 5, refill_numerator: 5, .. })));
}

#[test]
fn charges_are_planned_within_their_limits() {
    let facts = |stored| ChargeFacts { limit: 10, stored, live: None };
    let written = plan_charge(&requests(3), &facts(None), true, 2_345).unwrap();
    assert_eq!(written.bucket.window_start, 2_000);
    assert_eq!(written.bucket.used, 3);
    assert!(!written.allocate);
    assert_eq!(plan_charge(&requests(3), &facts(Some(window(8))), true, 2_345), Err(Fault::QuotaExceeded));
    assert_eq!(plan_charge(&requests(u64::MAX), &facts(None), true, 2_345), Err(Fault::InvalidQuotaUnits));
    let unbounded = ChargeFacts { limit: u64::MAX, stored: None, live: None };
    assert_eq!(plan_charge(&requests(1), &unbounded, true, 2_345), Err(Fault::InvalidQuotaCapacity));
}

#[test]
fn gauges_follow_live_usage() {
    let streams = charge(QuotaDimension::ConcurrentStreams, QuotaAlgorithm::Gauge, None, 1);
    let facts = |live| ChargeFacts { limit: 2, stored: None, live: Some(live) };
    assert!(plan_charge(&streams, &facts(1), true, 0).unwrap().allocate);
    assert!(!plan_charge(&streams, &facts(1), false, 0).unwrap().allocate);
    assert_eq!(plan_charge(&streams, &facts(2), true, 0), Err(Fault::QuotaExceeded));
}

#[test]
fn one_refused_charge_refuses_the_request() {
    let charges = vec![requests(1), requests(11)];
    let facts = vec![ChargeFacts { limit: 10, stored: None, live: None }; 2];
    assert_eq!(plan_charges(&charges, &facts, false, 2_345).err(), Some(Fault::QuotaExceeded));
    let charges = vec![requests(1), charge(QuotaDimension::InputBytes, QuotaAlgorithm::FixedWindow, Some(1_000), 10)];
    assert_eq!(plan_charges(&charges, &facts, false, 2_345).unwrap().len(), 2);
}

#[test]
fn charges_on_one_bucket_add_up() {
    let facts = vec![ChargeFacts { limit: 10, stored: Some(window(4)), live: None }; 2];
    let both = plan_charges(&vec![requests(2), requests(4)], &facts, false, 2_345).unwrap();
    assert_eq!((both[0].bucket.used, both[1].bucket.used), (6, 10));
    assert_eq!(plan_charges(&vec![requests(2), requests(5)], &facts, false, 2_345).err(), Some(Fault::QuotaExceeded));
    let again = apply_replay_request_charges(&vec![requests(2), requests(4)], &facts, 2_345).unwrap();
    assert_eq!((again[0].bucket.used, again[1].bucket.used), (6, 10));
    let mut elsewhere = requests(5);
    elsewhere.scope_id = "other".to_string();
    let apart = plan_charges(&vec![requests(2), elsewhere], &facts, false, 2_345).unwrap();
    assert_eq!((apart[0].bucket.used, apart[1].bucket.used), (6, 9));
}

#[test]
fn allocations_count_as_live_at_once() {
    let work = || charge(QuotaDimension::ConcurrentActiveWork, QuotaAlgorithm::Gauge, None, 1);
    let facts = |live| vec![ChargeFacts { limit: 2, stored: None, live: Some(live) }; 2];
    assert_eq!(plan_charges(&vec![work(), work()], &facts(0), true, 0).unwrap().len(), 2);
    assert_eq!(plan_charges(&vec![work(), work()], &facts(1), true, 0).err(), Some(Fault::QuotaExceeded));
    assert_eq!(plan_charges(&vec![work(), work()], &facts(1), false, 0).unwrap().len(), 2);
}

#[test]
fn charges_need_their_facts() {
    let facts = |n| vec![ChargeFacts { limit: 10, stored: Some(window(4)), live: None }; n];
    assert!(can_charge(&vec![requests(1), requests(2)], &facts(2), 2_345));
    assert!(!can_charge(&vec![requests(1)], &facts(2), 2_345));
    let metered = |algorithm, window| charge(QuotaDimension::RequestCount, algorithm, window, 1);
    assert!(!can_charge(&vec![metered(QuotaAlgorithm::Gauge, None)], &facts(1), 2_345));
    assert!(!can_charge(&vec![metered(QuotaAlgorithm::FixedWindow, Some(0))], &facts(1), 2_345));
    let unread = vec![ChargeFacts { limit: 10, stored: None, live: None }; 2];
    let mixed = vec![metered(QuotaAlgorithm::FixedWindow, None), metered(QuotaAlgorithm::Gauge, None)];
    assert!(!can_charge(&mixed, &unread, 2_345));
    assert!(!can_charge(&vec![metered(QuotaAlgorithm::TokenBucket, None)], &vec![unread[0]], 2_345));
    assert!(!can_charge(&vec![metered(QuotaAlgorithm::FixedWindow, Some(1_000))], &vec![unread[0]], i64::MIN));
    assert!(can_charge(&vec![metered(QuotaAlgorithm::FixedWindow, Some(1_000))], &vec![unread[0]], -1));
}

#[test]
fn stored_buckets_keep_their_rules() {
    let row = || BucketRow {
        window_start: 2_000,
        capacity: 10,
        used: 4,
        available: None,
        last_refill_at: None,
        refill_numerator: None,
        refill_period: None,
        refill_remainder: None,
        updated_at: 2_100,
    };
    let read = stored_bucket(&row(), QuotaAlgorithm::FixedWindow).unwrap();
    assert_eq!((read.window_start, read.capacity, read.used, read.updated_at), (2_000, 10, 4, 2_100));
    assert_eq!(read.meter, Meter::Window);
    assert_eq!(stored_bucket(&row(), QuotaAlgorithm::Gauge).unwrap().meter, Meter::Gauge);
    assert_eq!(stored_bucket(&row(), QuotaAlgorithm::TokenBucket), None);
    assert_eq!(stored_bucket(&BucketRow { used: 11, ..row() }, QuotaAlgorithm::FixedWindow), None);
    let tokens = |period, remainder| BucketRow {
        available: Some(6),
        last_refill_at: Some(1),
        refill_numerator: Some(10),
        refill_period: Some(period),
        refill_remainder: Some(remainder),
        ..row()
    };
    match stored_bucket(&tokens(1_000, 999), QuotaAlgorithm::TokenBucket).unwrap().meter {
        Meter::Token(state) => assert_eq!((state.available, state.refill_period), (6, 1_000)),
        _ => panic!("it is a token bucket"),
    }
    assert_eq!(stored_bucket(&tokens(1_000, 1_000), QuotaAlgorithm::TokenBucket), None);
    assert_eq!(stored_bucket(&tokens(0, 0), QuotaAlgorithm::TokenBucket), None);
    assert_eq!(quota_algorithm_name(QuotaAlgorithm::TokenBucket), "tokenBucket");
    assert_eq!(quota_algorithm_name(QuotaAlgorithm::FixedWindow), "fixedWindow");
    assert_eq!(quota_algorithm_name(QuotaAlgorithm::Gauge), "gauge");
}

#[test]
fn replays_pay_for_the_request_alone() {
    let charges = vec![
        requests(2),
        charge(QuotaDimension::ConcurrentActiveWork, QuotaAlgorithm::Gauge, None, 1),
        charge(QuotaDimension::InputBytes, QuotaAlgorithm::FixedWindow, Some(1_000), 5),
    ];
    let facts = vec![
        ChargeFacts { limit: 10, stored: None, live: None },
        ChargeFacts { limit: 20, stored: None, live: None },
    ];
    let written = apply_replay_request_charges(&charges, &facts, 2_345).unwrap();
    assert_eq!(written.iter().map(|w| w.capacity).collect::<Vec<i64>>(), vec![10, 20]);
    assert_eq!(written.iter().map(|w| w.units).collect::<Vec<i64>>(), vec![2, 5]);
    assert!(written.iter().all(|w| !w.allocate));
}

#[test]
fn live_usage_is_counted_by_dimension() {
    assert_eq!(live_usage(QuotaDimension::RequestCount, QuotaOperation::TaskGet), LiveUsage::NotTracked);
    assert_ne!(
        live_usage(QuotaDimension::ConcurrentStreams, QuotaOperation::SendStream),
        live_usage(QuotaDimension::RequestCount, QuotaOperation::SendStream)
    );
}

fn intent() -> QuotaIntent {
    QuotaIntent {
        tenant_scope: "t".to_string(),
        account_id: "a".to_string(),
        principal_scope: "p".to_string(),
        operation: QuotaOperation::TaskCreate,
        semantic_id: "s".to_string(),
        policy_id: "policy".to_string(),
        policy_revision: 4,
        policy_digest: "digest".to_string(),
        binding_digest: "binding".to_string(),
        charges: vec![requests(1)],
        execution_budget: Some(ExecutionBudget { max_output_bytes: 100, max_event_count: 10 }),
    }
}

fn policy() -> PolicyIdentity {
    PolicyIdentity { policy_id: "policy".to_string(), revision: 4, digest: "digest".to_string() }
}

fn application() -> QuotaApplication {
    QuotaApplication {
        policy: Some(policy()),
        overrides: vec![OverrideLimits { old_limit: 1, new_limit: 2 }],
        tenant: "t".to_string(),
        account: "a".to_string(),
        task_id: Some("task".to_string()),
        subject_valid: true,
        expected: Some(intent()),
        stored: None,
        stored_policy: None,
        stored_intent: None,
        insert_if_missing: true,
    }
}

fn stored() -> StoredIntent {
    StoredIntent {
        binding_digest: "binding".to_string(),
        account_id: "a".to_string(),
        principal_scope: "p".to_string(),
        operation: Some(QuotaOperation::TaskCreate),
        semantic_id: "s".to_string(),
        task_id: Some("task".to_string()),
        policy_id: "policy".to_string(),
        policy_revision: 4,
        policy_digest: "digest".to_string(),
    }
}

#[test]
fn intents_are_bound_to_their_policy() {
    assert_eq!(decide_quota_intent(&application(), &intent()), Ok(QuotaPath::Charge));
    let mut off = application();
    off.policy = None;
    assert_eq!(decide_quota_intent(&off, &intent()), Err(Fault::QuotaAuthorityUnavailable));
    let mut other = intent();
    other.tenant_scope = "u".to_string();
    assert_eq!(decide_quota_intent(&application(), &other), Err(Fault::QuotaIntentBindingMismatch));
    let mut a = application();
    a.subject_valid = false;
    assert_eq!(decide_quota_intent(&a, &intent()), Err(Fault::QuotaIntentBindingMismatch));
    let mut a = application();
    a.insert_if_missing = false;
    assert_eq!(decide_quota_intent(&a, &intent()), Err(Fault::QuotaIntentRequiredForReplay));
    let mut a = application();
    a.overrides[0].new_limit = u64::MAX;
    assert_eq!(decide_quota_intent(&a, &intent()), Err(Fault::InvalidQuotaOverride));
}

#[test]
fn stored_intents_are_replayed_once_they_match() {
    let mut a = application();
    a.stored = Some(stored());
    assert_eq!(decide_quota_intent(&a, &intent()), Err(Fault::QuotaAuthorityUnavailable));
    a.stored_policy = Some(policy());
    assert_eq!(decide_quota_intent(&a, &intent()), Err(Fault::QuotaIntentBindingMismatch));
    a.stored_intent = Some(intent());
    assert_eq!(decide_quota_intent(&a, &intent()), Ok(QuotaPath::Replay));
    let facts = vec![ChargeFacts { limit: 10, stored: Some(window(3)), live: None }];
    let written = apply_quota_intent(&a, &intent(), &facts, 2_345).unwrap();
    assert_eq!(written.path, QuotaPath::Replay);
    assert_eq!(written.writes[0].bucket.used, 4);
    a.stored.as_mut().unwrap().semantic_id = "x".to_string();
    assert_eq!(decide_quota_intent(&a, &intent()), Err(Fault::QuotaIntentKeyConflict));
}

#[test]
fn fresh_intents_are_charged() {
    let facts = vec![ChargeFacts { limit: 10, stored: None, live: None }];
    let written = apply_quota_intent(&application(), &intent(), &facts, 2_345).unwrap();
    assert_eq!(written.path, QuotaPath::Charge);
    assert_eq!(written.writes.len(), 1);
    assert!(intent().same(&intent()));
    let mut other = intent();
    other.charges[0].units = 2;
    assert!(!intent().same(&other));
}

#[test]
fn the_expected_intent_follows_the_operation() {
    assert_eq!(expected_intent(&intent(), 7), ExpectedIntent::Operation { input_bytes: 7 });
    let mut egress = intent();
    egress.operation = QuotaOperation::PublicEgress;
    egress.charges = vec![
        charge(QuotaDimension::EventCount, QuotaAlgorithm::FixedWindow, Some(1), 3),
        charge(QuotaDimension::OutputBytes, QuotaAlgorithm::FixedWindow, Some(1), 9),
    ];
    assert_eq!(expected_intent(&egress, 7), ExpectedIntent::Egress { bytes: 9, events: 3 });
    let mut lease = intent();
    lease.operation = QuotaOperation::Reconnect;
    lease.charges = vec![charge(QuotaDimension::ConcurrentStreams, QuotaAlgorithm::Gauge, None, 1)];
    assert!(has_dimension(&lease.charges, QuotaDimension::ConcurrentStreams));
    assert_eq!(
        expected_intent(&lease, 7),
        ExpectedIntent::Lease { kind: QuotaLeaseKind::MessageStream, reconnect: true }
    );
}

fn reservation() -> QuotaReservationInput {
    QuotaReservationInput {
        tenant_scope: "t".to_string(),
        account_id: "a".to_string(),
        principal_scope: "p".to_string(),
        operation: "o".to_string(),
        dimension: "d".to_string(),
        units: 3,
        reservation_id: "r".to_string(),
        expires_at: 100,
        metadata: None,
    }
}

fn reserved() -> StoredReservation {
    StoredReservation {
        account_id: "a".to_string(),
        principal_scope: "p".to_string(),
        operation: "o".to_string(),
        dimension: "d".to_string(),
        units: 3,
        task_id: "task".to_string(),
        expires_at: 100,
        metadata: None,
    }
}

#[test]
fn reservations_bind_to_one_task() {
    let bind = |quota: Option<QuotaReservationInput>, stored: Option<StoredReservation>, now, insert| {
        insert_quota_reservation(&quota, "t", "a", "task", &stored, false, now, insert)
    };
    assert_eq!(bind(None, None, 0, true), Ok(ReservationAction::Nothing));
    assert_eq!(bind(Some(reservation()), None, 0, true), Ok(ReservationAction::Insert));
    assert_eq!(bind(Some(reservation()), Some(reserved()), 0, true), Ok(ReservationAction::AlreadyBound));
    assert_eq!(bind(Some(reservation()), None, 100, true), Err(Fault::QuotaReservationExpired));
    assert_eq!(bind(Some(reservation()), None, 0, false), Err(Fault::QuotaReservationNotBound));
    let mut elsewhere = reserved();
    elsewhere.task_id = "other".to_string();
    assert_eq!(bind(Some(reservation()), Some(elsewhere), 0, true), Err(Fault::QuotaReservationKeyConflict));
    let mut other = reservation();
    other.tenant_scope = "u".to_string();
    assert_eq!(bind(Some(other), None, 0, true), Err(Fault::QuotaReservationScopeMismatch));
    let mut large = reservation();
    large.units = u64::MAX;
    assert_eq!(bind(Some(large), None, 0, true), Err(Fault::InvalidQuotaUnits));
    assert_eq!(
        insert_quota_reservation(&None, "t", "a", "task", &None, true, 0, true),
        Err(Fault::QuotaReservationRequiredForReplay)
    );
}

fn bound() -> BoundExecution {
    BoundExecution {
        binding_digest: "binding".to_string(),
        policy_id: "policy".to_string(),
        policy_revision: 4,
        policy_digest: "digest".to_string(),
        account_id: "a".to_string(),
        principal_scope: "p".to_string(),
        operation: Some(QuotaOperation::TaskCreate),
        task_id: "task".to_string(),
        message_id: "m".to_string(),
        dispatch_id: "d".to_string(),
        reserved_output_bytes: 100,
        reserved_event_count: 10,
        reservation_version: 1,
    }
}

#[test]
fn executions_are_reserved_under_a_derived_key() {
    assert_eq!(execution_reservation_key(&intent()), "sha256:97d9243369793fb506b3dec62f26a3dc81484c92cbd8a49cfd79e8417f651974");
    let fresh = bind_execution_reservation(&None, &intent(), "task", "m", "d").unwrap();
    assert!(fresh.insert);
    assert_eq!(fresh.reservation_id, "sha256:97d9243369793fb506b3dec62f26a3dc81484c92cbd8a49cfd79e8417f651974");
    assert_eq!(fresh.budget, ExecutionBudget { max_output_bytes: 100, max_event_count: 10 });
    assert!(!bind_execution_reservation(&Some(bound()), &intent(), "task", "m", "d").unwrap().insert);
    assert_eq!(
        bind_execution_reservation(&Some(bound()), &intent(), "task", "m", "e").err(),
        Some(Fault::ExecutionReservationKeyConflict)
    );
    let mut unbudgeted = intent();
    unbudgeted.execution_budget = None;
    assert_eq!(
        bind_execution_reservation(&None, &unbudgeted, "task", "m", "d").err(),
        Some(Fault::ExecutionBudgetMissing)
    );
    let mut wide = intent();
    wide.execution_budget = Some(ExecutionBudget { max_output_bytes: u64::MAX, max_event_count: 1 });
    assert_eq!(bind_execution_reservation(&None, &wide, "task", "m", "d").err(), Some(Fault::InvalidOutputBudget));
    wide.execution_budget = Some(ExecutionBudget { max_output_bytes: 1, max_event_count: u64::MAX });
    assert_eq!(bind_execution_reservation(&None, &wide, "task", "m", "d").err(), Some(Fault::InvalidEventBudget));
    wide.policy_revision = u64::MAX;
    assert_eq!(bind_execution_reservation(&None, &wide, "task", "m", "d").err(), Some(Fault::InvalidQuotaRevision));
}

fn replayed() -> ReplayedExecution {
    ReplayedExecution {
        reservation_id: "r".to_string(),
        reserved_output_bytes: 7,
        reserved_event_count: 3,
        account_id: "a".to_string(),
        principal_scope: "p".to_string(),
        operation: Some(QuotaOperation::TaskCreate),
        task_id: "task".to_string(),
        message_id: "m".to_string(),
        dispatch_id: "d".to_string(),
        budget_accepted: true,
    }
}

#[test]
fn replayed_executions_keep_their_budget() {
    let replay = |change: fn(&mut ReplayedExecution)| {
        let mut row = replayed();
        change(&mut row);
        replay_execution_reservation(&Some(row), &intent(), "task", "m", "d")
    };
    let kept = replay(|_| ()).unwrap();
    assert_eq!(kept.reservation_id, "r");
    assert_eq!(kept.budget, ExecutionBudget { max_output_bytes: 7, max_event_count: 3 });
    assert!(!kept.insert);
    assert_eq!(replay(|row| row.reserved_output_bytes = -1).err(), Some(Fault::StoredOutputBudgetCorrupt));
    assert_eq!(replay(|row| row.reserved_event_count = -1).err(), Some(Fault::StoredEventBudgetCorrupt));
    assert_eq!(replay(|row| row.budget_accepted = false).err(), Some(Fault::StoredExecutionBudgetCorrupt));
    assert_eq!(replay(|row| row.operation = None).err(), Some(Fault::ExecutionReservationKeyConflict));
    assert_eq!(
        replay_execution_reservation(&None, &intent(), "task", "m", "d").err(),
        Some(Fault::ExecutionReservationRequiredForReplay)
    );
}

fn execution() -> ExecutionReservation {
    ExecutionReservation {
        reservation_id: "r".to_string(),
        reservation_version: 1,
        binding_digest: "binding".to_string(),
        policy_id: "policy".to_string(),
        policy_revision: 4,
        policy_digest: "digest".to_string(),
        budget: ExecutionBudget { max_output_bytes: 100, max_event_count: 10 },
    }
}

fn columns() -> ReservationColumns {
    ReservationColumns {
        binding_digest: Some("binding".to_string()),
        reservation_id: Some("r".to_string()),
        reservation_version: Some(1),
        reserved_output_bytes: Some(100),
        reserved_event_count: Some(10),
        policy_id: Some("policy".to_string()),
        policy_revision: Some(4),
        policy_digest: Some("digest".to_string()),
        budget_accepted: true,
    }
}

#[test]
fn reservations_are_read_whole_or_not_at_all() {
    let read = |change: fn(&mut ReservationColumns)| {
        let mut c = columns();
        change(&mut c);
        read_reservation(&c).err()
    };
    let whole = read_reservation(&columns()).unwrap();
    assert!(same_reservation(&whole, &Some(execution())));
    assert!(same_reservation(&copy_reservation(&whole), &whole));
    assert!(!same_reservation(&whole, &None));
    assert_eq!(read(|c| c.policy_id = None), Some(Fault::ExecutionReservationIncomplete));
    assert_eq!(read(|c| c.reservation_version = Some(-1)), Some(Fault::ExecutionReservationVersionCorrupt));
    assert_eq!(read(|c| c.policy_revision = Some(-1)), Some(Fault::ExecutionReservationPolicyCorrupt));
    assert_eq!(read(|c| c.reserved_output_bytes = Some(-1)), Some(Fault::ExecutionOutputBudgetCorrupt));
    assert_eq!(read(|c| c.reserved_event_count = Some(-1)), Some(Fault::ExecutionEventBudgetCorrupt));
    assert_eq!(read(|c| c.budget_accepted = false), Some(Fault::ExecutionReservationBudgetCorrupt));
}

fn settling() -> SettlingReservation {
    SettlingReservation {
        state: ReservationState::Reserved,
        actual_output_bytes: None,
        actual_event_count: None,
        binding_digest: "binding".to_string(),
        reserved_output_bytes: 100,
        reserved_event_count: 10,
    }
}

/// The receipts of three scopes, each with one of output and one of events.
fn receipts(used: Option<i64>) -> Vec<SettlingReceipt> {
    (0..3)
        .flat_map(|_| {
            [
                SettlingReceipt { counts_output: true, units: 100, bucket_used: used },
                SettlingReceipt { counts_output: false, units: 10, bucket_used: None },
            ]
        })
        .collect()
}

const MEASURED: Measurement = Measurement { completed: true, output_bytes: Some(30), event_count: Some(10) };

#[test]
fn unused_budget_is_returned() {
    let receipts = receipts(Some(150));
    match settle_execution_reservation(&Some(execution()), true, &Some(MEASURED), &settling(), &receipts).unwrap() {
        Settlement::Settle { output_bytes, event_count, new_usage } => {
            assert_eq!((output_bytes, event_count), (30, 10));
            assert_eq!(new_usage, vec![Some(80), None, Some(80), None, Some(80), None]);
        }
        _ => panic!("the reservation was open"),
    }
}

#[test]
fn settlements_are_measured_and_bound() {
    let settle = |measured: Option<Measurement>, change: fn(&mut SettlingReservation), used: Option<i64>| {
        let mut row = settling();
        change(&mut row);
        settle_execution_reservation(&Some(execution()), true, &measured, &row, &receipts(used)).err()
    };
    assert_eq!(settle(None, |_| (), Some(150)), Some(Fault::ReceiverMeasurementAbsent));
    assert_eq!(
        settle(Some(Measurement { completed: false, ..MEASURED }), |_| (), Some(150)),
        Some(Fault::ReceiverMeasurementIncomplete)
    );
    assert_eq!(
        settle(Some(Measurement { output_bytes: None, ..MEASURED }), |_| (), Some(150)),
        Some(Fault::ReceiverOutputMeasurementMissing)
    );
    assert_eq!(
        settle(Some(Measurement { event_count: None, ..MEASURED }), |_| (), Some(150)),
        Some(Fault::ReceiverEventMeasurementMissing)
    );
    assert_eq!(
        settle(Some(MEASURED), |row| row.reserved_event_count = 9, Some(150)),
        Some(Fault::ExecutionSettlementBindingCorrupt)
    );
    assert_eq!(settle(Some(MEASURED), |_| (), Some(69)), Some(Fault::ExecutionRefundFenceStale));
    assert_eq!(settle(Some(MEASURED), |_| (), None), Some(Fault::ExecutionRefundFenceStale));
}

#[test]
fn settled_reservations_stay_settled() {
    let mut row = settling();
    row.state = ReservationState::Settled;
    row.actual_output_bytes = Some(30);
    row.actual_event_count = Some(10);
    assert!(matches!(
        settle_execution_reservation(&Some(execution()), true, &Some(MEASURED), &row, &Vec::new()),
        Ok(Settlement::AlreadySettled)
    ));
    row.actual_event_count = Some(9);
    assert_eq!(
        settle_execution_reservation(&Some(execution()), true, &Some(MEASURED), &row, &Vec::new()).err(),
        Some(Fault::ExecutionSettlementConflict)
    );
    row.state = ReservationState::Other;
    assert_eq!(
        settle_execution_reservation(&Some(execution()), true, &Some(MEASURED), &row, &receipts(Some(150))).err(),
        Some(Fault::ExecutionSettlementFenceStale)
    );
    assert_eq!(
        settle_execution_reservation(&Some(execution()), true, &Some(MEASURED), &row, &Vec::new()).err(),
        Some(Fault::ExecutionReceiptsCorrupt)
    );
    assert!(matches!(
        settle_execution_reservation(&None, false, &None, &settling(), &Vec::new()),
        Ok(Settlement::NotReserved)
    ));
    assert_eq!(
        settle_execution_reservation(&None, true, &None, &settling(), &Vec::new()).err(),
        Some(Fault::ExecutionReservationAbsent)
    );
}

#[test]
fn expired_leases_are_reclaimed_in_batches() {
    assert_eq!(reclaim_expired_quota_leases(1), Ok(1));
    assert_eq!(reclaim_expired_quota_leases(0), Err(Fault::QuotaLeaseReclaimBatch));
    assert_eq!(reclaim_expired_quota_leases(1_001), Err(Fault::QuotaLeaseReclaimBatch));
    assert_eq!(reclaimed_count(4), Ok(4));
    assert_eq!(reclaimed_count(-1), Err(Fault::QuotaLeaseReclaimCountCorrupt));
    assert_eq!(released_usage(5, 3), 2);
    assert_eq!(released_usage(2, 3), 0);
}

#[test]
fn requests_and_egress_are_charged_apart() {
    assert_eq!(charge_quota_request(true, &intent()), Ok(()));
    assert!(charge_quota_request(false, &intent()).is_err());
    assert!(charge_quota_egress(true, &intent()).is_err());
    let mut concurrent = intent();
    concurrent.charges = vec![charge(QuotaDimension::ConcurrentStreams, QuotaAlgorithm::Gauge, None, 1)];
    assert!(charge_quota_request(true, &concurrent).is_err());
}

#[test]
fn leases_are_held_by_token_and_epoch() {
    assert_eq!(QuotaLeaseKind::TaskSubscription.dimension(), QuotaDimension::ConcurrentSubscriptions);
    assert_eq!(lease_until(5, 10, Fault::QuotaLeaseTimeOverflow), Ok(15));
    assert_eq!(lease_until(i64::MAX, 1, Fault::QuotaLeaseTimeOverflow), Err(Fault::QuotaLeaseTimeOverflow));
    assert_eq!(renew_quota_lease(5, 1_000), Ok(1_005));
    assert_eq!(renew_quota_lease(5, 999), Err(Fault::InvalidQuotaLeaseDuration));
    let row = StoredQuotaLease {
        lease_id: "l".to_string(),
        lease_token: "k".to_string(),
        lease_epoch: 3,
        active: true,
        lease_until: 10,
    };
    assert!(holds_quota_lease(&row, "l", "k", 3, 9));
    assert!(!holds_quota_lease(&row, "l", "k", 3, 10));
    assert!(!holds_quota_lease(&row, "l", "k", 4, 9));
    assert!(!holds_quota_lease(&row, "l", "x", 3, 9));
    let mut lease = intent();
    lease.charges = vec![charge(QuotaDimension::ConcurrentStreams, QuotaAlgorithm::Gauge, None, 1)];
    let resource = text_digest("r");
    assert_eq!(acquire_quota_lease(true, &lease, QuotaLeaseKind::MessageStream, &resource, 1_000), Ok(()));
    assert!(acquire_quota_lease(true, &lease, QuotaLeaseKind::TaskSubscription, &resource, 1_000).is_err());
    assert!(acquire_quota_lease(true, &lease, QuotaLeaseKind::MessageStream, &resource, 0).is_err());
}

#[test]
fn denials_are_recorded_once() {
    let audit = denial_audit(&intent(), "task_create", 60);
    assert_eq!(audit.policy_digest, "digest");
    assert_eq!(audit.bucket_digest, text_digest("digest\0task_create\0binding"));
    assert_eq!(audit.reason_digest, text_digest("quota-exhausted"));
    assert_eq!(
        audit.content_digest,
        text_digest(&format!("digest\0{}\0{}\060", audit.bucket_digest, audit.reason_digest))
    );
    assert_eq!(append_quota_denial_audit(&audit, &denial_audit(&intent(), "task_create", 60)), Ok(()));
    assert!(append_quota_denial_audit(&audit, &denial_audit(&intent(), "task_create", 61)).is_err());
}

#[test]
fn results_are_reported_by_kind() {
    assert_eq!(finalize_quota_result(true, None), QuotaReport::Granted);
    assert_eq!(
        finalize_quota_result(true, Some(Fault::QuotaExceeded)),
        QuotaReport::Denied { reason: Fault::QuotaExceeded }
    );
    assert_eq!(
        finalize_quota_result(false, Some(Fault::QuotaExceeded)),
        QuotaReport::Failed { reason: Fault::QuotaAuthorityUnavailable }
    );
    assert_eq!(
        finalize_quota_result(true, Some(Fault::TaskNotFound)),
        QuotaReport::Failed { reason: Fault::TaskNotFound }
    );
    assert_eq!(effective_now(true, 5, 9), 5);
    assert_eq!(effective_now(false, 5, 9), 9);
}
