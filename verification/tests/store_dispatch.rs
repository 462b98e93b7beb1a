//! Admission, continuation and cancellation of tasks, and delivery from the outbox.

use smesh_authority::admission::{
    admission_audit, append_denied_authorization_decision, authorize_and_admit_mutation, authorize_and_continue_mutation,
    charge_request, check_admission_payloads, check_continuation_payloads, check_quota_operation, clamp_stored, continuation_audit,
    continue_task, dispatch_id, final_result_scoped, get_authorized,
    get_authorized_with_quota, invocation_kind, list_authorized_with_quota, preflight_admission,
    preflight_continuation, preflight_replay, read_decision, record_admission, replay_authorized, AdmissionDecision,
    AuthorizationAudit, ChargeInputs, ChargeNames, ContinuationDecision, IdempotencyRow, InlineCallback,
    OwnedTaskScope, QuotaInputs, ReplayedResult, SendMessageAdmission, StoredTask,
};
use smesh_authority::audit::AuditReason;
use smesh_authority::cancellation::{
    cancel_authorized_with_quota, cancel_message_id, cancellation_audit, cancellation_committed, close_canceled_transcript,
    preflight_cancellation, CancelInputs, CancelReceiver, CancelRow, CancellationStep,
};
use smesh_authority::crypto::text_digest;
use smesh_authority::fault::Fault;
use smesh_authority::outbox::{
    check_claim, check_fenced_write, claim_outbox, commit_delivery, complete_transcript, dead_letter_message,
    finish_committed, finish_outbox_attempt, holds_outbox_fence, materialize_postgres_dead_letter,
    preflight_delivery, renew_outbox_lease, resolve_final_attempt, stream_interruption, AttemptDisposition,
    ClaimRequest, ClaimRow, ClaimStep, DeadLetterStep, DeliveryStep, FencedWrite, FinalStep, FinishStep,
    LeaseRenewalOutcome, OutboxLease, OutboxRow, ReceiverRow, ReceiverState, TransitionOutcome,
};
use smesh_authority::quota::{
    Charge, ChargeFacts, ExecutionBudget, PolicyIdentity, QuotaAlgorithm, QuotaApplication, QuotaDimension,
    QuotaIntent, QuotaOperation, QuotaScopeKind,
};
use smesh_authority::receiver::columns_of;
use smesh_authority::reservation::{ExecutionReservation, QuotaReservationInput, ReservationAction, ReservationColumns};
use smesh_authority::task::{
    frame_kind, legal_transition, state_key, Frame, Message, StatusUpdate, Task, TaskState, TaskStatus,
};
use smesh_authority::transcript::{transcript_digest, StoredFrame};

fn scope() -> OwnedTaskScope {
    OwnedTaskScope { tenant_scope: "t".to_string(), owner_account_id: "a".to_string(), own_only: true }
}

fn audit() -> AuthorizationAudit {
    AuthorizationAudit {
        tenant_scope: "t".to_string(),
        actor_account_id: "a".to_string(),
        allow: true,
        decision_id: "decision".to_string(),
    }
}

fn intent(operation: QuotaOperation) -> QuotaIntent {
    QuotaIntent {
        tenant_scope: "t".to_string(),
        account_id: "a".to_string(),
        principal_scope: "p".to_string(),
        operation,
        semantic_id: "decision".to_string(),
        policy_id: "policy".to_string(),
        policy_revision: 4,
        policy_digest: "digest".to_string(),
        binding_digest: "binding".to_string(),
        charges: vec![Charge {
            scope_kind: QuotaScopeKind::Tenant,
            scope_id: "t".to_string(),
            dimension: QuotaDimension::RequestCount,
            algorithm: QuotaAlgorithm::FixedWindow,
            window_millis: Some(1_000),
            units: 1,
        }],
        execution_budget: Some(ExecutionBudget { max_output_bytes: 100, max_event_count: 10 }),
    }
}

fn message() -> Message {
    Message {
        message_id: "m".to_string(),
        task_id: None,
        context_id: None,
        body: "hello".to_string(),
    }
}

fn task(state: TaskState) -> Task {
    Task {
        id: "task".to_string(),
        context_id: "context".to_string(),
        status: TaskStatus { state, message: None, timestamp: None },
        artifacts: None,
        history: Some(vec![message()]),
        metadata: None,
    }
}

fn admission() -> SendMessageAdmission {
    SendMessageAdmission {
        task: task(TaskState::Submitted),
        message: message(),
        original_result: None,
        streaming: false,
        max_attempts: 5,
        now: 10,
    }
}

#[test]
fn reads_are_authorized_in_their_scope() {
    assert_eq!(get_authorized(&audit(), &scope()), Ok(()));
    let foreign = AuthorizationAudit { actor_account_id: "b".to_string(), ..audit() };
    assert_eq!(get_authorized(&foreign, &scope()), Err(Fault::AuthorizedReadScopeMismatch));
    assert_eq!(
        get_authorized_with_quota(true, &None, &audit(), &scope()),
        Err(Fault::QuotaAuthorityUnavailable)
    );
    assert_eq!(
        get_authorized_with_quota(true, &Some(intent(QuotaOperation::TaskGet)), &audit(), &scope()),
        Ok(())
    );
    assert_eq!(
        get_authorized_with_quota(true, &Some(intent(QuotaOperation::TaskList)), &audit(), &scope()),
        Err(Fault::QuotaIntentOperationMismatch)
    );
    assert_eq!(read_decision(true), AuditReason::VisibleResource);
    assert_eq!(read_decision(false), AuditReason::ResourceUnavailable);
    assert!(read_decision(true).allows() && !read_decision(false).allows());
}

#[test]
fn listings_are_authorized_in_their_scope() {
    let digest = text_digest("scope");
    let listed = |audit: &AuthorizationAudit, digest: &str| {
        list_authorized_with_quota(true, &Some(intent(QuotaOperation::TaskList)), audit, &scope(), digest)
    };
    assert_eq!(listed(&audit(), &digest), Ok(()));
    let foreign = AuthorizationAudit { tenant_scope: "u".to_string(), ..audit() };
    assert_eq!(listed(&foreign, &digest), Err(Fault::AuthorizedListScopeMismatch));
}

#[test]
fn denials_are_recorded_as_denials() {
    assert_eq!(append_denied_authorization_decision(false), Ok(()));
    assert_eq!(append_denied_authorization_decision(true), Err(Fault::DeniedAuditNotDeny));
}

#[test]
fn intents_match_the_operation_and_the_decision() {
    let i = Some(intent(QuotaOperation::TaskCancel));
    assert_eq!(check_quota_operation(true, &i, QuotaOperation::TaskCancel, Some("decision")), None);
    assert_eq!(
        check_quota_operation(true, &i, QuotaOperation::TaskCancel, Some("other")),
        Some(Fault::QuotaIntentOperationMismatch)
    );
    assert_eq!(check_quota_operation(false, &None, QuotaOperation::TaskCancel, None), None);
}

#[test]
fn admissions_are_checked_before_the_store_is_asked() {
    let check = |c: &SendMessageAdmission, callback: bool, audit: &AuthorizationAudit| {
        preflight_admission(c, callback, false, false, &None, audit, &scope())
    };
    assert_eq!(check(&admission(), false, &audit()), Ok(()));
    assert_eq!(check(&admission(), true, &audit()), Err(Fault::PushNotificationNotSupported));
    let denied = AuthorizationAudit { allow: false, ..audit() };
    assert_eq!(check(&admission(), false, &denied), Err(Fault::AuthorizedAdmissionScopeMismatch));
    let mut c = admission();
    c.task.status.state = TaskState::Working;
    assert_eq!(check(&c, false, &audit()), Err(Fault::AdmissionTaskMismatch));
    let mut c = admission();
    c.message.message_id = String::new();
    c.task.history = Some(vec![c.message.copy()]);
    assert_eq!(check(&c, false, &audit()), Err(Fault::MessageIdRequired));
    assert_eq!(
        preflight_admission(
            &SendMessageAdmission { streaming: true, ..admission() },
            false,
            false,
            true,
            &Some(intent(QuotaOperation::TaskCreate)),
            &audit(),
            &scope()
        ),
        Err(Fault::QuotaIntentOperationMismatch)
    );
}

#[test]
fn dispatches_are_named_by_tenant_and_message() {
    assert_eq!(dispatch_id("t", "m"), text_digest("t\0send-message\0m"));
    let long = "x".repeat(1_048_577);
    assert_eq!(check_admission_payloads("{}", "{}", "{}"), Ok(()));
    assert_eq!(check_admission_payloads(&long, "{}", "{}"), Err(Fault::AdmissionPayloadTooLarge));
    assert_eq!(check_continuation_payloads("{}", "{}", "{}"), Ok(()));
    assert_eq!(check_continuation_payloads("{}", "{}", &long), Err(Fault::ContinuationPayloadTooLarge));
    assert_eq!(clamp_stored(7), 7);
    assert_eq!(clamp_stored(u64::MAX), i64::MAX);
}

fn names() -> ChargeNames {
    ChargeNames {
        tenant: "t".to_string(),
        owner: "a".to_string(),
        task_id: "task".to_string(),
        message_id: "m".to_string(),
        dispatch_id: dispatch_id("t", "m"),
    }
}

fn free() -> ChargeInputs {
    ChargeInputs { reservation: None, stored_reservation: None, task_reserved: false, quota: None }
}

fn charged() -> ChargeInputs {
    ChargeInputs {
        quota: Some(QuotaInputs {
            application: QuotaApplication {
                policy: Some(PolicyIdentity {
                    policy_id: "policy".to_string(),
                    revision: 4,
                    digest: "digest".to_string(),
                }),
                overrides: Vec::new(),
                tenant: "t".to_string(),
                account: "a".to_string(),
                task_id: Some("task".to_string()),
                subject_valid: true,
                expected: Some(intent(QuotaOperation::TaskCreate)),
                stored: None,
                stored_policy: None,
                stored_intent: None,
                insert_if_missing: true,
            },
            intent: intent(QuotaOperation::TaskCreate),
            facts: vec![ChargeFacts { limit: 10, stored: None, live: None }],
            bound: None,
            replayed: None,
        }),
        ..free()
    }
}

fn decide(
    existing: Option<IdempotencyRow>,
    inputs: &ChargeInputs,
    task_count: i64,
    callback: Option<InlineCallback>,
) -> Result<AdmissionDecision, Fault> {
    authorize_and_admit_mutation(
        &admission(),
        &existing,
        "request",
        &names(),
        inputs,
        task_count,
        3,
        false,
        &callback,
        10,
    )
}

const RESULT: &str = r#"{"task":{"id":"task","contextId":"context","status":{"state":"TASK_STATE_WORKING"}}}"#;

fn recorded(digest: &str, readable: bool, finished: bool) -> Option<IdempotencyRow> {
    Some(IdempotencyRow {
        request_digest: digest.to_string(),
        task_id: "task".to_string(),
        admission_result: (if readable || finished { RESULT } else { "{" }).to_string(),
        final_result: match (finished, readable) {
            (false, _) => None,
            (true, false) => Some("{}".to_string()),
            (true, true) => Some(RESULT.to_string()),
        },
    })
}

#[test]
fn requests_are_admitted_once() {
    match decide(None, &free(), 0, None).unwrap() {
        AdmissionDecision::Admit(plan) => {
            assert_eq!(plan.task_id, "task");
            assert_eq!(plan.revision, 1);
            assert_eq!(plan.dispatch_id, dispatch_id("t", "m"));
            assert_eq!(plan.max_attempts, 5);
            assert!(!plan.opens_transcript);
            assert!(plan.outbox.binding_digest.is_none());
        }
        AdmissionDecision::Replay { .. } => panic!("nothing was recorded"),
    }
    assert!(matches!(
        decide(recorded("request", true, true), &free(), 0, None),
        Ok(AdmissionDecision::Replay { result: ReplayedResult::Final, .. })
    ));
    assert_eq!(
        admission_audit(&decide(None, &free(), 0, None).unwrap()).map(|reason| reason.as_text()),
        Some("admission_committed")
    );
    assert_eq!(admission_audit(&decide(recorded("request", true, true), &free(), 0, None).unwrap()), None);
    assert!(matches!(
        decide(recorded("request", true, false), &free(), 9, None),
        Ok(AdmissionDecision::Replay { result: ReplayedResult::Admission, .. })
    ));
}

#[test]
fn admitted_requests_are_answered_again() {
    let plan = match decide(None, &free(), 0, None).unwrap() {
        AdmissionDecision::Admit(plan) => plan,
        AdmissionDecision::Replay { .. } => panic!("nothing was recorded"),
    };
    let mut row = record_admission(&plan, "request", RESULT);
    assert_eq!((row.request_digest.as_str(), row.task_id.as_str()), ("request", "task"));
    assert_eq!((row.admission_result.as_str(), row.final_result.is_none()), (RESULT, true));
    row.final_result = Some(RESULT.to_string());
    assert!(matches!(
        decide(Some(record_admission(&plan, "request", RESULT)), &free(), 0, None),
        Ok(AdmissionDecision::Replay { result: ReplayedResult::Admission, .. })
    ));
    assert!(matches!(
        decide(Some(row), &free(), 0, None),
        Ok(AdmissionDecision::Replay { result: ReplayedResult::Final, .. })
    ));
    let other = record_admission(&plan, "other", RESULT);
    assert_eq!(decide(Some(other), &free(), 0, None).err(), Some(Fault::IdempotencyAdmissionConflict));
}

#[test]
fn final_results_are_read_back() {
    assert_eq!(final_result_scoped(None), Ok(None));
    assert_eq!(final_result_scoped(Some(RESULT.to_string())), Ok(Some(RESULT.to_string())));
    assert_eq!(final_result_scoped(Some("{}".to_string())), Err(Fault::StoredFinalResultCorrupt));
    assert_eq!(Fault::StoredFinalResultCorrupt.told("task"), "stored final result is corrupt");
    assert_eq!(Fault::TaskNotFound.told("task"), "task not found: task");
    assert_eq!(Fault::TaskNotCancelable.told("task"), "task cannot be canceled: task");
}

#[test]
fn conflicting_requests_are_refused() {
    assert_eq!(decide(recorded("other", true, true), &free(), 0, None).err(), Some(Fault::IdempotencyAdmissionConflict));
    assert_eq!(
        decide(recorded("request", false, true), &free(), 0, None).err(),
        Some(Fault::StoredIdempotencyCorrupt)
    );
    assert_eq!(decide(None, &free(), 3, None).err(), Some(Fault::TaskCapacityReached));
    assert_eq!(decide(None, &free(), -1, None).err(), Some(Fault::TaskCapacityReached));
    let taken = authorize_and_admit_mutation(
        &admission(),
        &None,
        "request",
        &names(),
        &free(),
        0,
        3,
        true,
        &None,
        10,
    );
    assert_eq!(taken.err(), Some(Fault::TaskAlreadyExists));
}

#[test]
fn admitted_executions_carry_their_budget() {
    match decide(None, &charged(), 0, None).unwrap() {
        AdmissionDecision::Admit(plan) => {
            assert_eq!(plan.outbox.binding_digest.as_deref(), Some("binding"));
            assert_eq!(plan.outbox.reservation_version, Some(1));
            assert_eq!(plan.outbox.reserved_output_bytes, Some(100));
            assert_eq!(plan.outbox.reserved_event_count, Some(10));
            assert_eq!(plan.charge.quota.unwrap().writes.len(), 1);
            assert!(plan.charge.execution.unwrap().insert);
        }
        AdmissionDecision::Replay { .. } => panic!("nothing was recorded"),
    }
    let mut broke = charged();
    broke.quota.as_mut().unwrap().facts[0].limit = 0;
    assert_eq!(decide(None, &broke, 0, None).err(), Some(Fault::QuotaExceeded));
    assert_eq!(charge_request(&broke, &names(), 10, true).err(), Some(Fault::QuotaExceeded));
    assert_eq!(charge_request(&free(), &names(), 10, true).unwrap().reservation, ReservationAction::Nothing);
}

#[test]
fn inline_callbacks_are_bounded() {
    let callback = InlineCallback {
        enrollment_generation: 1,
        policy_revision: 1,
        enrolled: true,
        max_configs_per_tenant: 2,
        max_configs_per_task: 1,
        tenant_configs: 0,
        task_configs: 0,
    };
    let refused = |callback| decide(None, &charged(), 0, Some(callback)).err();
    assert_eq!(refused(callback), None);
    assert_eq!(
        refused(InlineCallback { enrollment_generation: u64::MAX, ..callback }),
        Some(Fault::InvalidCallbackGeneration)
    );
    assert_eq!(
        refused(InlineCallback { policy_revision: u64::MAX, ..callback }),
        Some(Fault::CallbackPolicyCorrupt)
    );
    assert_eq!(
        refused(InlineCallback { enrolled: false, ..callback }),
        Some(Fault::CallbackEnrollmentNotAuthorizedParams)
    );
    assert_eq!(refused(InlineCallback { tenant_configs: 2, ..callback }), Some(Fault::CallbackTenantCapacity));
    assert_eq!(
        refused(InlineCallback { task_configs: 1, ..callback }),
        Some(Fault::CallbackConfigCapacityParams)
    );
    assert_eq!(decide(None, &free(), 0, Some(callback)).err(), Some(Fault::QuotaAuthorityUnavailable));
}

fn continuation() -> SendMessageAdmission {
    SendMessageAdmission {
        task: task(TaskState::InputRequired),
        original_result: Some(task(TaskState::InputRequired)),
        ..admission()
    }
}

#[test]
fn continuations_are_checked_before_the_store_is_asked() {
    let check = |c: &SendMessageAdmission| preflight_continuation(c, false, &None, &audit(), &scope());
    assert_eq!(check(&continuation()), Ok(()));
    let mut c = continuation();
    c.message.context_id = Some("other".to_string());
    assert_eq!(check(&c), Err(Fault::InvalidDurableContinuation));
    assert_eq!(
        check(&SendMessageAdmission { original_result: None, ..continuation() }),
        Err(Fault::InvalidDurableContinuation)
    );
    assert_eq!(
        check(&SendMessageAdmission { max_attempts: 0, ..continuation() }),
        Err(Fault::InvalidDurableContinuation)
    );
    let foreign = AuthorizationAudit { actor_account_id: "b".to_string(), ..audit() };
    assert_eq!(
        preflight_continuation(&continuation(), false, &None, &foreign, &scope()),
        Err(Fault::AuthorizedContinuationScopeMismatch)
    );
}

fn waiting(revision: i64) -> StoredTask {
    StoredTask {
        task: Some(task(TaskState::InputRequired)),
        state: state_key(&task(TaskState::InputRequired)).to_string(),
        revision,
        context_id: "context".to_string(),
    }
}

fn go_on(existing: Option<IdempotencyRow>, stored: Option<StoredTask>) -> Result<ContinuationDecision, Fault> {
    authorize_and_continue_mutation(
        &continuation(),
        &existing,
        "request",
        &names(),
        &free(),
        &stored,
        10,
    )
}

#[test]
fn waiting_tasks_are_continued() {
    match go_on(None, Some(waiting(4))).unwrap() {
        ContinuationDecision::Continue(next) => {
            assert_eq!(next.plan.revision, 5);
            assert_eq!(next.task.status.state, TaskState::Working);
            assert_eq!(next.task.history.as_ref().unwrap().len(), 2);
            assert!(legal_transition(TaskState::InputRequired, next.task.status.state));
            assert!(next.task.same(&continue_task(&task(TaskState::InputRequired), &message(), continuation().now)));
        }
        ContinuationDecision::Replay { .. } => panic!("nothing was recorded"),
    }
    assert!(matches!(
        go_on(recorded("request", true, false), None),
        Ok(ContinuationDecision::Replay { result: ReplayedResult::Admission, .. })
    ));
}

#[test]
fn other_tasks_are_not_continued() {
    assert_eq!(go_on(None, None).err(), Some(Fault::TaskNotFound));
    assert_eq!(go_on(recorded("other", true, true), None).err(), Some(Fault::IdempotencyContinuationConflict));
    assert_eq!(go_on(recorded("request", false, true), None).err(), Some(Fault::StoredContinuationCorrupt));
    let mut done = waiting(4);
    done.state = state_key(&task(TaskState::Completed)).to_string();
    assert_eq!(go_on(None, Some(done)).err(), Some(Fault::TaskNoLongerAcceptsContinuation));
    let mut lost = waiting(4);
    lost.task = None;
    assert_eq!(go_on(None, Some(lost)).err(), Some(Fault::StoredTaskCorrupt));
    let mut moved = waiting(4);
    moved.context_id = "other".to_string();
    assert_eq!(go_on(None, Some(moved)).err(), Some(Fault::ContinuationTaskMismatch));
    assert_eq!(go_on(None, Some(waiting(i64::MAX))).err(), Some(Fault::RevisionExhausted));
    assert_eq!(go_on(None, Some(waiting(-2))).err(), Some(Fault::TaskRevisionCorrupt));
}

#[test]
fn replays_are_authorized_in_their_scope() {
    assert_eq!(preflight_replay(&audit(), &scope(), "a"), Ok(()));
    assert_eq!(preflight_replay(&audit(), &scope(), "b"), Err(Fault::AuthorizedReplayScopeMismatch));
    assert_eq!(replay_authorized(&None, "request"), Ok(None));
    assert_eq!(replay_authorized(&recorded("request", true, true), "request"), Ok(Some(ReplayedResult::Final)));
    assert_eq!(replay_authorized(&recorded("other", true, true), "request"), Err(Fault::IdempotencyConflict));
}

fn unreserved() -> ReservationColumns {
    ReservationColumns {
        binding_digest: None,
        reservation_id: None,
        reservation_version: None,
        reserved_output_bytes: None,
        reserved_event_count: None,
        policy_id: None,
        policy_revision: None,
        policy_digest: None,
        budget_accepted: false,
    }
}

fn claim(attempt_no: i64) -> ClaimRow {
    ClaimRow {
        tenant_scope: "t".to_string(),
        outbox_id: 7,
        dispatch_id: "d".to_string(),
        task_id: "task".to_string(),
        attempt_no,
        max_attempts: 3,
        payload_readable: true,
        reservation: unreserved(),
    }
}

fn claiming() -> ClaimRequest {
    ClaimRequest { lease_owner: "o".to_string(), lease_token: "k".to_string(), now: 10, lease_until: 40 }
}

fn lease(attempt_no: u32) -> OutboxLease {
    OutboxLease {
        tenant_scope: "t".to_string(),
        outbox_id: 7,
        dispatch_id: "d".to_string(),
        task_id: "task".to_string(),
        attempt_no,
        max_attempts: 3,
        lease_owner: "o".to_string(),
        lease_token: "k".to_string(),
        lease_until: 40,
        execution_reservation: None,
    }
}

fn leased(attempt_count: i64) -> OutboxRow {
    OutboxRow {
        leased: true,
        lease_owner: Some("o".to_string()),
        lease_token: Some("k".to_string()),
        lease_until: Some(40),
        attempt_count,
        max_attempts: 3,
    }
}

#[test]
fn claims_are_leased() {
    assert_eq!(check_claim("o", 10, 30), Ok(40));
    assert_eq!(check_claim("", 10, 30), Err(Fault::InvalidOutboxLease));
    assert_eq!(check_claim("o", 10, 0), Err(Fault::InvalidOutboxLease));
    assert_eq!(check_claim("o", i64::MAX, 1), Err(Fault::OutboxLeaseTimeOverflow));
    match claim_outbox(&claim(2), &claiming(), false).unwrap() {
        ClaimStep::Lease(lease) => {
            assert_eq!(lease.attempt_no, 2);
            assert_eq!(lease.lease_until, 40);
        }
        ClaimStep::ResolveFinal { .. } => panic!("attempts were left"),
    }
    assert!(matches!(
        claim_outbox(&claim(-3), &claiming(), false),
        Ok(ClaimStep::ResolveFinal { attempt_no: 3 })
    ));
}

#[test]
fn corrupt_claims_are_refused() {
    let refused = |change: fn(&mut ClaimRow), quota| {
        let mut row = claim(2);
        change(&mut row);
        claim_outbox(&row, &claiming(), quota).err()
    };
    assert_eq!(refused(|row| row.attempt_no = i64::MIN, false), Some(Fault::OutboxAttemptCorrupt));
    assert_eq!(refused(|row| row.attempt_no = i64::MAX, false), Some(Fault::OutboxAttemptCorrupt));
    assert_eq!(refused(|row| row.max_attempts = -1, false), Some(Fault::OutboxBoundCorrupt));
    assert_eq!(refused(|row| row.payload_readable = false, false), Some(Fault::OutboxPayloadCorrupt));
    assert_eq!(refused(|_| (), true), Some(Fault::ClaimableOutboxUnreserved));
}

fn receiver(state: ReceiverState, lease_until: Option<i64>) -> Option<ReceiverRow> {
    Some(ReceiverRow { payload_digest: "payload".to_string(), state, lease_until })
}

#[test]
fn final_attempts_are_settled_by_the_receiver() {
    let settle = |digest: Option<&str>, receiver: Option<ReceiverRow>| {
        resolve_final_attempt(&claim(-3), &claiming(), &digest.map(|d| d.to_string()), &receiver)
    };
    assert!(matches!(settle(None, None), Ok(FinalStep::Nothing)));
    assert!(matches!(settle(Some("payload"), None), Ok(FinalStep::DeadLetter)));
    assert!(matches!(
        settle(Some("payload"), receiver(ReceiverState::Processing, Some(11))),
        Ok(FinalStep::Nothing)
    ));
    assert!(matches!(
        settle(Some("payload"), receiver(ReceiverState::Processing, Some(10))),
        Ok(FinalStep::Reclaim { move_fence: true, .. })
    ));
    assert!(matches!(
        settle(Some("payload"), receiver(ReceiverState::Completed, None)),
        Ok(FinalStep::Reclaim { move_fence: false, .. })
    ));
    assert!(matches!(settle(Some("payload"), receiver(ReceiverState::Other, None)), Ok(FinalStep::DeadLetter)));
    assert_eq!(
        settle(Some("other"), receiver(ReceiverState::Completed, None)).err(),
        Some(Fault::ReceiverPayloadConflict)
    );
}

#[test]
fn leases_are_renewed_while_they_hold() {
    assert!(holds_outbox_fence(&leased(2), &lease(2), 39));
    assert!(!holds_outbox_fence(&leased(2), &lease(2), 40));
    assert!(!holds_outbox_fence(&leased(3), &lease(2), 39));
    let renew = |now: i64, duration: i64| {
        renew_outbox_lease(&leased(2), &columns_of(&None), &lease(2), now, duration)
    };
    assert_eq!(renew(20, 100), Ok(LeaseRenewalOutcome::Applied { lease_until: 120 }));
    assert_eq!(renew(41, 100), Ok(LeaseRenewalOutcome::Stale));
    assert_eq!(renew(20, 9), Err(Fault::InvalidOutboxRenewal));
    assert_eq!(renew(20, 300_001), Err(Fault::InvalidOutboxRenewal));
    assert_eq!(renew(i64::MAX, 10), Err(Fault::OutboxRenewalOverflow));
}

fn reserved_execution(version: u64) -> ExecutionReservation {
    ExecutionReservation {
        reservation_id: "r".to_string(),
        reservation_version: version,
        binding_digest: "b".to_string(),
        policy_id: "p".to_string(),
        policy_revision: 1,
        policy_digest: "d".to_string(),
        budget: ExecutionBudget { max_output_bytes: 10, max_event_count: 2 },
    }
}

#[test]
fn leases_are_renewed_only_with_their_reservation() {
    let mut held = lease(2);
    held.execution_reservation = Some(reserved_execution(1));
    let renew = |stored: Option<ExecutionReservation>| {
        renew_outbox_lease(&leased(2), &columns_of(&stored), &held, 20, 100)
    };
    assert_eq!(renew(Some(reserved_execution(1))), Ok(LeaseRenewalOutcome::Applied { lease_until: 120 }));
    assert_eq!(renew(Some(reserved_execution(2))), Ok(LeaseRenewalOutcome::Stale));
    assert_eq!(renew(None), Ok(LeaseRenewalOutcome::Stale));
    assert_eq!(
        renew_outbox_lease(&leased(2), &columns_of(&Some(reserved_execution(1))), &lease(2), 20, 100),
        Ok(LeaseRenewalOutcome::Stale)
    );
}

#[test]
fn fenced_writes_reach_their_row() {
    let cases = vec![
        (FencedWrite::FinalReceiver, Fault::FinalReceiverFenceStale),
        (FencedWrite::FinalAttempt, Fault::FinalAttemptFenceCorrupt),
        (FencedWrite::FinalDispatch, Fault::FinalDeadLetterFenceStale),
        (FencedWrite::DeadLetterTask, Fault::DeadLetterTaskLost),
        (FencedWrite::DeadLetterRecord, Fault::DeadLetterBindingCorrupt),
        (FencedWrite::ReceiverReconciliation, Fault::ReceiverReconciliationStale),
        (FencedWrite::StreamProgress, Fault::StreamProgressStale),
        (FencedWrite::StreamCompletion, Fault::StreamCompletionStale),
        (FencedWrite::ReceiverReclaim, Fault::ReceiverReclaimFailed),
        (FencedWrite::ReceiverCompletion, Fault::ReceiverLeaseStale),
        (FencedWrite::Continuation, Fault::TaskNoLongerAcceptsContinuation),
    ];
    for (write, lost) in cases {
        assert_eq!(check_fenced_write(write, 1), Ok(()));
        assert_eq!(check_fenced_write(write, 0), Err(lost));
        assert_eq!(check_fenced_write(write, 2), Err(lost));
    }
    assert_eq!(finish_committed(FinishStep::Retry { available_at: 9 }, 1), TransitionOutcome::Applied);
    assert_eq!(finish_committed(FinishStep::Retry { available_at: 9 }, 0), TransitionOutcome::Stale);
    assert_eq!(finish_committed(FinishStep::DeadLetter, 1), TransitionOutcome::DeadLettered);
    assert_eq!(finish_committed(FinishStep::DeadLetter, 0), TransitionOutcome::Stale);
    assert_eq!(finish_committed(FinishStep::Reconcile, 0), TransitionOutcome::Applied);
    assert_eq!(finish_committed(FinishStep::Stale, 1), TransitionOutcome::Stale);
}

fn retry() -> AttemptDisposition {
    AttemptDisposition::Retry { available_at: 99, error: "e".to_string() }
}

#[test]
fn only_final_unaccepted_attempts_die() {
    let finish = |attempt: u32, d: &AttemptDisposition, receiver: Option<ReceiverRow>| {
        finish_outbox_attempt(&Some(leased(attempt as i64)), &lease(attempt), d, false, "payload", &receiver, 20)
    };
    assert_eq!(finish(2, &retry(), None), Ok(FinishStep::Retry { available_at: 99 }));
    assert_eq!(finish(3, &retry(), None), Ok(FinishStep::DeadLetter));
    assert_eq!(
        finish(1, &AttemptDisposition::Permanent { error: "e".to_string() }, None),
        Ok(FinishStep::DeadLetter)
    );
    assert_eq!(finish(3, &retry(), receiver(ReceiverState::Completed, None)), Ok(FinishStep::Reconcile));
    assert_eq!(finish(3, &retry(), receiver(ReceiverState::Other, None)), Ok(FinishStep::DeadLetter));
    assert_eq!(
        finish(1, &AttemptDisposition::Permanent { error: "e".repeat(4_097) }, None),
        Err(Fault::OutboxErrorTooLong)
    );
    assert_eq!(
        finish_outbox_attempt(&Some(leased(3)), &lease(3), &retry(), true, "payload", &None, 20),
        Ok(FinishStep::Stale)
    );
    assert_eq!(
        finish_outbox_attempt(&None, &lease(3), &retry(), false, "payload", &None, 20),
        Ok(FinishStep::Stale)
    );
    assert_eq!(
        finish_outbox_attempt(
            &Some(leased(3)),
            &lease(3),
            &retry(),
            false,
            "other",
            &receiver(ReceiverState::Completed, None),
            20
        ),
        Err(Fault::ReceiverPayloadConflict)
    );
}

#[test]
fn statuses_are_dated_in_utc() {
    let at = |now: i64| continue_task(&task(TaskState::InputRequired), &message(), now).status.timestamp;
    assert_eq!(at(0).as_deref(), Some("1970-01-01T00:00:00+00:00"));
    assert_eq!(at(1_700_000_000_123).as_deref(), Some("2023-11-14T22:13:20.123+00:00"));
    assert_eq!(at(i64::MAX), None);
}

#[test]
fn reasons_are_recorded_with_decisions() {
    assert_eq!(AuditReason::IdempotentReplay.as_text(), "idempotent_replay");
    assert_eq!(AuditReason::VisibleSet.as_text(), "visible_set");
    assert_eq!((invocation_kind(true), invocation_kind(false)), ("streaming", "unary"));
    let continued = go_on(None, Some(waiting(4))).unwrap();
    assert_eq!(continuation_audit(&continued).as_text(), "continuation_committed");
    let replayed = go_on(recorded("request", true, false), None).unwrap();
    assert_eq!(continuation_audit(&replayed).as_text(), "continuation_replay");
    let told = CancelReceiver { state: ReceiverState::Processing, lease_until: Some(11) };
    let step = |receiver| canceled(&cancel(TaskState::Working, receiver)).unwrap().1;
    assert_eq!(cancellation_audit(&step(Some(told))).as_text(), "cancellation_requested");
    assert_eq!(cancellation_audit(&step(None)).as_text(), "cancellation_committed");
}

#[test]
fn dead_letters_fail_their_task() {
    assert_eq!(dead_letter_message("boom"), "Dispatch dead-lettered after bounded retries: boom");
    let letter = |stored: Option<Task>, revision: i64| materialize_postgres_dead_letter(&stored, revision, "dl", "\"boom\"", 0);
    match letter(Some(task(TaskState::Working)), 4).unwrap() {
        DeadLetterStep::Fail { task: failed, revision } => {
            assert_eq!(revision, 5);
            assert_eq!(failed.status.state, TaskState::Failed);
            assert_eq!(failed.status.timestamp.as_deref(), Some("1970-01-01T00:00:00+00:00"));
            assert_eq!(
                failed.status.message.as_deref(),
                Some(agent_message("dl", "Dispatch dead-lettered after bounded retries: \\\"boom\\\"").as_str())
            );
            assert!(legal_transition(TaskState::Working, failed.status.state));
        }
        DeadLetterStep::AlreadyTerminal => panic!("the task was working"),
    }
    assert!(matches!(letter(Some(task(TaskState::Completed)), 4), Ok(DeadLetterStep::AlreadyTerminal)));
    assert_eq!(letter(None, 4).err(), Some(Fault::StoredTaskCorrupt));
    assert_eq!(letter(Some(task(TaskState::Working)), i64::MAX).err(), Some(Fault::RevisionExhausted));
}

fn agent_message(id: &str, text: &str) -> String {
    format!(
        "{{\"contextId\":\"context\",\"messageId\":\"{id}\",\"parts\":[{{\"text\":\"{text}\"}}],\"role\":\"ROLE_AGENT\",\"taskId\":\"task\"}}"
    )
}

#[test]
fn interruptions_are_cut_at_a_character() {
    assert_eq!(stream_interruption("gone"), "durable stream interrupted: gone");
    let long = stream_interruption(&"e".repeat(5_000));
    assert_eq!(long.len(), 4_096);
    let wide = stream_interruption(&"\u{20ac}".repeat(2_000));
    assert_eq!(wide.len(), 28 + 3 * 1_356);
}

fn update(state: TaskState) -> Frame {
    Frame::StatusUpdate(StatusUpdate {
        task_id: "task".to_string(),
        context_id: "context".to_string(),
        status: TaskStatus { state, message: None, timestamp: None },
        metadata: None,
    })
}

#[test]
fn deliveries_are_checked_and_fenced() {
    let done = || task(TaskState::Completed);
    let frames = || vec![Frame::Task(task(TaskState::Submitted)), update(TaskState::Working), update(TaskState::Completed)];
    let check = |t: Task, result: Option<Task>, bytes: usize, sizes: Vec<Option<usize>>| {
        preflight_delivery(&lease(1), &t, &result, &frames(), bytes, &sizes)
    };
    assert_eq!(check(done(), Some(done()), 100, vec![Some(1); 3]), Ok(()));
    assert_eq!(check(done(), None, 100, vec![Some(1); 3]), Err(Fault::InvalidDeliveryResult));
    assert_eq!(
        check(task(TaskState::Failed), Some(task(TaskState::Failed)), 100, vec![Some(1); 3]),
        Err(Fault::InvalidAgentResponse)
    );
    assert_eq!(
        check(done(), Some(done()), 100, vec![Some(1), None, Some(1)]),
        Err(Fault::PublicTranscriptTooLarge)
    );
    assert_eq!(
        check(done(), Some(done()), usize::MAX, vec![Some(1); 3]),
        Err(Fault::PublicTranscriptTooLarge)
    );
    assert_eq!(commit_delivery(&Some(leased(1)), &lease(1), 4, 4, 20), Ok(DeliveryStep::Commit { revision: 5 }));
    assert_eq!(commit_delivery(&Some(leased(1)), &lease(1), 4, 5, 20), Ok(DeliveryStep::Stale));
    assert_eq!(commit_delivery(&None, &lease(1), 4, 4, 20), Ok(DeliveryStep::Stale));
    assert_eq!(
        commit_delivery(&Some(leased(1)), &lease(1), i64::MAX, i64::MAX, 20),
        Err(Fault::RevisionExhausted)
    );
}

fn stored(seq: i64, frame: Frame, encoded: &str) -> StoredFrame {
    StoredFrame {
        seq,
        version: 1,
        kind: frame_kind(&frame).to_string(),
        encoded: encoded.to_string(),
        digest: text_digest(encoded),
        frame: Some(frame),
        canonical: encoded.to_string(),
    }
}

#[test]
fn deliveries_complete_what_was_streamed() {
    let delivered = vec![Frame::Task(task(TaskState::Submitted)), update(TaskState::Working)];
    let encoded = vec!["1".to_string(), "2".to_string()];
    let prefix = || vec![stored(1, Frame::Task(task(TaskState::Submitted)), "1")];
    let digest = transcript_digest(&vec!["1".to_string()]);
    let completion = complete_transcript(&prefix(), 1, &digest, &delivered, &encoded).unwrap();
    assert_eq!(completion.first_new, 1);
    assert_eq!(completion.frame_count, 2);
    assert_eq!(completion.transcript_digest, text_digest("[1,2]"));
    assert_eq!(
        complete_transcript(&prefix(), 2, &digest, &delivered, &encoded).err(),
        Some(Fault::PersistedPrefixDiverges)
    );
    let diverging = vec![stored(1, update(TaskState::Working), "1")];
    assert_eq!(
        complete_transcript(&diverging, 1, &digest, &delivered, &encoded).err(),
        Some(Fault::PersistedPrefixDiverges)
    );
    let mut corrupt = prefix();
    corrupt[0].digest = "sha256:00".to_string();
    assert_eq!(
        complete_transcript(&corrupt, 1, &digest, &delivered, &encoded).err(),
        Some(Fault::PersistedPrefixCorrupt)
    );
}

fn cancel(state: TaskState, receiver: Option<CancelReceiver>) -> CancelInputs {
    CancelInputs {
        row: Some(CancelRow {
            task: Some(task(state)),
            revision: 4,
            message_id: "m".to_string(),
            dispatch_id: "d".to_string(),
        }),
        receiver,
        reservation: None,
        stored_reservation: None,
        task_reserved: false,
    }
}

fn canceled(inputs: &CancelInputs) -> Result<(ReservationAction, CancellationStep), Fault> {
    cancel_authorized_with_quota(inputs, &scope(), "task", 10)
}

#[test]
fn idle_tasks_are_canceled_at_once() {
    match canceled(&cancel(TaskState::Working, None)).unwrap().1 {
        CancellationStep::Cancel { task: stopped, previous, revision } => {
            assert_eq!(stopped.status.state, TaskState::Canceled);
            assert_eq!(stopped.status.timestamp.as_deref(), Some("1970-01-01T00:00:00.010+00:00"));
            let id = cancel_message_id("d");
            assert_eq!(stopped.status.message, Some(agent_message(&id, "SMESH task canceled")));
            assert_eq!(previous, TaskState::Working);
            assert_eq!(revision, 5);
            assert!(legal_transition(previous, stopped.status.state));
        }
        CancellationStep::AwaitReceiver { .. } => panic!("nobody works on it"),
    }
}

#[test]
fn working_receivers_are_awaited() {
    let live = CancelReceiver { state: ReceiverState::Processing, lease_until: Some(11) };
    assert!(matches!(
        canceled(&cancel(TaskState::Working, Some(live))).unwrap().1,
        CancellationStep::AwaitReceiver { record_intent: true, .. }
    ));
    let done = CancelReceiver { state: ReceiverState::Completed, lease_until: None };
    assert!(matches!(
        canceled(&cancel(TaskState::Submitted, Some(done))).unwrap().1,
        CancellationStep::AwaitReceiver { record_intent: false, .. }
    ));
    let lapsed = CancelReceiver { state: ReceiverState::Processing, lease_until: Some(10) };
    assert!(matches!(
        canceled(&cancel(TaskState::Working, Some(lapsed))).unwrap().1,
        CancellationStep::Cancel { .. }
    ));
    assert!(matches!(
        canceled(&cancel(TaskState::InputRequired, Some(live))).unwrap().1,
        CancellationStep::Cancel { .. }
    ));
}

#[test]
fn ended_tasks_are_not_canceled() {
    assert_eq!(canceled(&cancel(TaskState::Completed, None)).err(), Some(Fault::TaskNotCancelable));
    let mut missing = cancel(TaskState::Working, None);
    missing.row = None;
    assert_eq!(canceled(&missing).err(), Some(Fault::TaskNotFound));
    let mut lost = cancel(TaskState::Working, None);
    lost.row.as_mut().unwrap().task = None;
    assert_eq!(canceled(&lost).err(), Some(Fault::StoredTaskCorrupt));
    let mut last = cancel(TaskState::Working, None);
    last.row.as_mut().unwrap().revision = i64::MAX;
    assert_eq!(canceled(&last).err(), Some(Fault::RevisionExhausted));
    let mut expired = cancel(TaskState::Working, None);
    expired.reservation = Some(QuotaReservationInput {
        tenant_scope: "t".to_string(),
        account_id: "a".to_string(),
        principal_scope: "p".to_string(),
        operation: "o".to_string(),
        dimension: "d".to_string(),
        units: 1,
        reservation_id: "r".to_string(),
        expires_at: 10,
        metadata: None,
    });
    assert_eq!(canceled(&expired).err(), Some(Fault::QuotaReservationExpired));
    assert_eq!(cancellation_committed(1), Ok(()));
    assert_eq!(cancellation_committed(0), Err(Fault::TaskNotCancelable));
}

#[test]
fn cancellations_are_authorized_in_their_scope() {
    assert_eq!(
        preflight_cancellation(true, &Some(intent(QuotaOperation::TaskCancel)), &audit(), &scope()),
        Ok(())
    );
    let denied = AuthorizationAudit { allow: false, ..audit() };
    assert_eq!(
        preflight_cancellation(false, &None, &denied, &scope()),
        Err(Fault::AuthorizedCancellationScopeMismatch)
    );
}

#[test]
fn canceled_transcripts_are_closed() {
    assert_eq!(cancel_message_id("d"), format!("cancel-{}", &text_digest("d")[..32]));
    let close = close_canceled_transcript(&vec![Some("1".to_string())], "2").unwrap();
    assert_eq!(close.seq, 2);
    assert_eq!(close.frame_digest, text_digest("2"));
    assert_eq!(close.transcript_digest, text_digest("[1,2]"));
    assert_eq!(close_canceled_transcript(&vec![None], "2").err(), Some(Fault::StoredStreamFrameCorrupt));
}
