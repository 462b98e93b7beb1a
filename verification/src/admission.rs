//! Admission, continuation, replay and authorized reads of tasks.

use vstd::prelude::*;

use crate::audit::AuditReason;
use crate::crypto;
use crate::fault::Fault;
use crate::quota;
use crate::quota::{ChargeFacts, ExecutionBudget, QuotaApplication, QuotaIntent, QuotaOperation, QuotaWrites};
use crate::reservation;
use crate::reservation::{
    BoundExecution, ExecutionBinding, QuotaReservationInput, ReplayedExecution, ReservationAction, StoredReservation,
};
use crate::task;
use crate::task::{Message, Task, TaskState, TaskStatus};
use crate::text;

verus! {

/// The largest encoded payload that is kept.
pub const MAX_PAYLOAD_BYTES: usize = 1_048_576;

/// Whose tasks a caller may see.
#[derive(Clone)]
pub struct OwnedTaskScope {
    pub tenant_scope: String,
    pub owner_account_id: String,
    pub own_only: bool,
}

/// The authorization decision that accompanies a request.
pub struct AuthorizationAudit {
    pub tenant_scope: String,
    pub actor_account_id: String,
    pub allow: bool,
    pub decision_id: String,
}

/// Whether an audit was made for the caller's tenant and account.
pub open spec fn audit_matches(audit: AuthorizationAudit, scope: OwnedTaskScope) -> bool {
    audit.tenant_scope@ == scope.tenant_scope@ && audit.actor_account_id@ == scope.owner_account_id@
}

/// Compares an audit with the caller's scope.
pub fn same_scope(audit: &AuthorizationAudit, scope: &OwnedTaskScope) -> (r: bool)
    ensures
        r == audit_matches(*audit, *scope),
{
    audit.tenant_scope == scope.tenant_scope && audit.actor_account_id == scope.owner_account_id
}

/// Why a quota intent does not belong to a request. `decision` is the decision
/// that a read's intent must name.
pub open spec fn quota_operation_fault(
    enforced: bool,
    intent: Option<QuotaIntent>,
    operation: QuotaOperation,
    decision: Option<Seq<char>>,
) -> Option<Fault> {
    match intent {
        None => if enforced {
            Some(Fault::QuotaAuthorityUnavailable)
        } else {
            None
        },
        Some(i) => if i.operation != operation || (decision is Some && i.semantic_id@ != decision->0) {
            Some(Fault::QuotaIntentOperationMismatch)
        } else {
            None
        },
    }
}

/// An audit answers for one tenant and one account: it matches the scope that it was made
/// for, and no scope of another tenant or account.
pub proof fn law_audits_answer_for_one_caller(
    audit: AuthorizationAudit,
    scope: OwnedTaskScope,
    other: OwnedTaskScope,
)
    requires
        audit_matches(audit, scope),
    ensures
        audit_matches(audit, other) <==> scope.tenant_scope@ == other.tenant_scope@ && scope.owner_account_id@
            == other.owner_account_id@,
        audit.tenant_scope@ == scope.tenant_scope@,
        audit.actor_account_id@ == scope.owner_account_id@,
{
}

/// An audit that names the caller's own tenant and account matches.
pub proof fn law_own_audits_match(audit: AuthorizationAudit, scope: OwnedTaskScope)
    requires
        audit.tenant_scope@ == scope.tenant_scope@,
        audit.actor_account_id@ == scope.owner_account_id@,
    ensures
        audit_matches(audit, scope),
{
}

/// Where quota is enforced every request carries an intent, and an intent pays for the
/// operation that is asked for and, on a read, for the decision that allowed it.
pub proof fn law_intents_pay_for_their_own_request(
    enforced: bool,
    intent: Option<QuotaIntent>,
    operation: QuotaOperation,
    decision: Option<Seq<char>>,
)
    ensures
        intent is None && enforced ==> quota_operation_fault(enforced, intent, operation, decision) == Some(
            Fault::QuotaAuthorityUnavailable,
        ),
        intent is None && !enforced ==> quota_operation_fault(enforced, intent, operation, decision) is None,
        intent is Some && intent->0.operation == operation && (decision is None || decision->0
            == intent->0.semantic_id@) ==> quota_operation_fault(enforced, intent, operation, decision) is None,
        intent is Some && (intent->0.operation != operation || decision is Some && decision->0
            != intent->0.semantic_id@) ==> quota_operation_fault(enforced, intent, operation, decision) == Some(
            Fault::QuotaIntentOperationMismatch,
        ),
{
}

/// Checks that a quota intent belongs to a request.
pub fn check_quota_operation(
    enforced: bool,
    intent: &Option<QuotaIntent>,
    operation: QuotaOperation,
    decision: Option<&str>,
) -> (r: Option<Fault>)
    ensures
        r == quota_operation_fault(
            enforced,
            *intent,
            operation,
            match decision {
                Some(d) => Some(d@),
                None => None,
            },
        ),
{
    match intent {
        None => if enforced {
            Some(Fault::QuotaAuthorityUnavailable)
        } else {
            None
        },
        Some(i) => {
            if i.operation != operation {
                return Some(Fault::QuotaIntentOperationMismatch);
            }
            match decision {
                Some(d) => if text::same_text(i.semantic_id.as_str(), d) {
                    None
                } else {
                    Some(Fault::QuotaIntentOperationMismatch)
                },
                None => None,
            }
        },
    }
}

/// Whether a single task may be read. The caller sees nothing of a request that
/// is refused here.
pub fn get_authorized_with_quota(
    quota_enforcement: bool,
    intent: &Option<QuotaIntent>,
    audit: &AuthorizationAudit,
    scope: &OwnedTaskScope,
) -> (r: Result<(), Fault>)
    ensures
        r == (match quota_operation_fault(
            quota_enforcement,
            *intent,
            QuotaOperation::TaskGet,
            Some(audit.decision_id@),
        ) {
            Some(e) => Err::<(), Fault>(e),
            None => if audit_matches(*audit, *scope) {
                Ok(())
            } else {
                Err(Fault::AuthorizedReadScopeMismatch)
            },
        }),
        r is Ok ==> audit.tenant_scope@ == scope.tenant_scope@ && audit.actor_account_id@ == scope.owner_account_id@,
        r is Ok && *intent is Some ==> intent->0.operation == QuotaOperation::TaskGet && intent->0.semantic_id@
            == audit.decision_id@,
        r is Ok && quota_enforcement ==> *intent is Some,
{
    match check_quota_operation(
        quota_enforcement,
        intent,
        QuotaOperation::TaskGet,
        Some(audit.decision_id.as_str()),
    ) {
        Some(e) => Err(e),
        None => get_authorized(audit, scope),
    }
}

/// Whether a single task may be read without a quota intent.
pub fn get_authorized(audit: &AuthorizationAudit, scope: &OwnedTaskScope) -> (r: Result<(), Fault>)
    ensures
        r == (if audit_matches(*audit, *scope) {
            Ok::<(), Fault>(())
        } else {
            Err(Fault::AuthorizedReadScopeMismatch)
        }),
{
    if same_scope(audit, scope) {
        Ok(())
    } else {
        Err(Fault::AuthorizedReadScopeMismatch)
    }
}

/// A read is allowed exactly where the task is visible; an absent task and one of
/// another owner are recorded alike.
pub fn read_decision(visible: bool) -> (r: AuditReason)
    ensures
        r == (if visible {
            AuditReason::VisibleResource
        } else {
            AuditReason::ResourceUnavailable
        }),
        visible <==> r == AuditReason::VisibleResource,
{
    if visible {
        AuditReason::VisibleResource
    } else {
        AuditReason::ResourceUnavailable
    }
}

/// How a request is stored to have been sent.
pub open spec fn invocation_text(streaming: bool) -> Seq<char> {
    if streaming {
        "streaming"@
    } else {
        "unary"@
    }
}

/// How a request is stored to have been sent.
pub fn invocation_kind(streaming: bool) -> (r: &'static str)
    ensures
        r@ == invocation_text(streaming),
        streaming ==> r@ == "streaming"@,
        !streaming ==> r@ == "unary"@,
{
    if streaming {
        "streaming"
    } else {
        "unary"
    }
}

/// Whether tasks may be listed.
pub fn list_authorized_with_quota(
    quota_enforcement: bool,
    intent: &Option<QuotaIntent>,
    audit: &AuthorizationAudit,
    scope: &OwnedTaskScope,
    cursor_scope_digest: &str,
) -> (r: Result<(), Fault>)
    ensures
        r == (match quota_operation_fault(
            quota_enforcement,
            *intent,
            QuotaOperation::TaskList,
            Some(audit.decision_id@),
        ) {
            Some(e) => Err::<(), Fault>(e),
            None => if audit_matches(*audit, *scope) && audit.allow && 1 <= text::utf8(cursor_scope_digest@).len()
                <= 256 {
                Ok(())
            } else {
                Err(Fault::AuthorizedListScopeMismatch)
            },
        }),
        r is Ok ==> audit.allow && audit.tenant_scope@ == scope.tenant_scope@ && audit.actor_account_id@
            == scope.owner_account_id@,
        r is Ok && *intent is Some ==> intent->0.operation == QuotaOperation::TaskList && intent->0.semantic_id@
            == audit.decision_id@,
        r is Ok && quota_enforcement ==> *intent is Some,
{
    match check_quota_operation(
        quota_enforcement,
        intent,
        QuotaOperation::TaskList,
        Some(audit.decision_id.as_str()),
    ) {
        Some(e) => Err(e),
        None => {
            let n: usize = text::byte_len(cursor_scope_digest);
            if !same_scope(audit, scope) || !audit.allow || n == 0 || n > 256 {
                Err(Fault::AuthorizedListScopeMismatch)
            } else {
                Ok(())
            }
        },
    }
}

/// Whether a decision may be recorded as a denial.
pub fn append_denied_authorization_decision(allow: bool) -> (r: Result<(), Fault>)
    ensures
        r == (if allow {
            Err::<(), Fault>(Fault::DeniedAuditNotDeny)
        } else {
            Ok(())
        }),
{
    if allow {
        Err(Fault::DeniedAuditNotDeny)
    } else {
        Ok(())
    }
}

/// A request to admit or continue a task. `original_result` is the task that the
/// result carries, absent where it carries a message.
pub struct SendMessageAdmission {
    pub task: Task,
    pub message: Message,
    pub original_result: Option<Task>,
    pub streaming: bool,
    pub max_attempts: u32,
    pub now: i64,
}

/// Whether an admitted task is the submitted task of its request.
pub open spec fn admits_canonical_task(c: SendMessageAdmission) -> bool {
    &&& c.task@.history matches Some(h) && h == seq![c.message@]
    &&& c.task.status.state == TaskState::Submitted
}

/// The operation that an admission pays for.
pub open spec fn admission_operation(streaming: bool) -> QuotaOperation {
    if streaming {
        QuotaOperation::SendStream
    } else {
        QuotaOperation::TaskCreate
    }
}

/// Why an admission is refused before anything is read.
pub open spec fn admission_preflight_fault(
    c: SendMessageAdmission,
    wants_callback: bool,
    has_callback_policy: bool,
    quota_enforcement: bool,
    intent: Option<QuotaIntent>,
    audit: AuthorizationAudit,
    scope: OwnedTaskScope,
) -> Option<Fault> {
    if wants_callback && !has_callback_policy {
        Some(Fault::PushNotificationNotSupported)
    } else if quota_operation_fault(quota_enforcement, intent, admission_operation(c.streaming), None) is Some {
        quota_operation_fault(quota_enforcement, intent, admission_operation(c.streaming), None)
    } else if !audit_matches(audit, scope) || !audit.allow {
        Some(Fault::AuthorizedAdmissionScopeMismatch)
    } else if !admits_canonical_task(c) {
        Some(Fault::AdmissionTaskMismatch)
    } else if c.message.message_id@.len() == 0 {
        Some(Fault::MessageIdRequired)
    } else {
        None
    }
}

/// An admission that passes its first checks is allowed to its own caller, brings a newly
/// submitted task whose history is the one message of the request, names that message, pays
/// as a stream exactly where it streams, and asks for a callback only where there is a
/// policy for it.
pub proof fn law_admitted_tasks_start_with_their_message(
    c: SendMessageAdmission,
    wants_callback: bool,
    has_callback_policy: bool,
    quota_enforcement: bool,
    intent: Option<QuotaIntent>,
    audit: AuthorizationAudit,
    scope: OwnedTaskScope,
)
    requires
        admission_preflight_fault(c, wants_callback, has_callback_policy, quota_enforcement, intent, audit, scope) is None,
    ensures
        wants_callback ==> has_callback_policy,
        audit.allow,
        audit.tenant_scope@ == scope.tenant_scope@,
        audit.actor_account_id@ == scope.owner_account_id@,
        c.task.status.state == TaskState::Submitted,
        c.task@.history is Some,
        c.task@.history->0.len() == 1,
        c.task@.history->0[0] == c.message@,
        c.message.message_id@.len() > 0,
        quota_enforcement ==> intent is Some,
        intent is Some ==> (if c.streaming {
            intent->0.operation == QuotaOperation::SendStream
        } else {
            intent->0.operation == QuotaOperation::TaskCreate
        }),
{
}

/// An admission with nothing wrong passes its first checks, and each thing that can be wrong
/// with it refuses it by its own fault, the earlier before the later.
pub proof fn law_admissions_fail_their_first_checks_in_order(
    c: SendMessageAdmission,
    wants_callback: bool,
    has_callback_policy: bool,
    quota_enforcement: bool,
    intent: Option<QuotaIntent>,
    audit: AuthorizationAudit,
    scope: OwnedTaskScope,
)
    ensures
        ({
            let fault = admission_preflight_fault(
                c,
                wants_callback,
                has_callback_policy,
                quota_enforcement,
                intent,
                audit,
                scope,
            );
            let supported = wants_callback ==> has_callback_policy;
            let operation = if c.streaming { QuotaOperation::SendStream } else { QuotaOperation::TaskCreate };
            let paid = (intent is None && !quota_enforcement) || (intent is Some && intent->0.operation == operation);
            let allowed = audit.allow && audit.tenant_scope@ == scope.tenant_scope@ && audit.actor_account_id@
                == scope.owner_account_id@;
            let canonical = c.task.status.state == TaskState::Submitted && c.task@.history == Some(seq![c.message@]);
            &&& !supported ==> fault == Some(Fault::PushNotificationNotSupported)
            &&& supported && !paid && intent is None ==> fault == Some(Fault::QuotaAuthorityUnavailable)
            &&& supported && !paid && intent is Some ==> fault == Some(Fault::QuotaIntentOperationMismatch)
            &&& supported && paid && !allowed ==> fault == Some(Fault::AuthorizedAdmissionScopeMismatch)
            &&& supported && paid && allowed && !canonical ==> fault == Some(Fault::AdmissionTaskMismatch)
            &&& supported && paid && allowed && canonical && c.message.message_id@.len() == 0 ==> fault == Some(
                Fault::MessageIdRequired,
            )
            &&& supported && paid && allowed && canonical && c.message.message_id@.len() > 0 ==> fault is None
        }),
{
}

fn is_canonical_task(c: &SendMessageAdmission) -> (r: bool)
    ensures
        r == admits_canonical_task(*c),
{
    let history_ok = match &c.task.history {
        Some(items) => {
            let one = items.len() == 1;
            if one {
                let same = items[0].same(&c.message);
                proof {
                    if same {
                        assert(task::message_views(items@) =~= seq![c.message@]);
                    } else {
                        assert(task::message_views(items@)[0] != seq![c.message@][0]);
                    }
                }
                same
            } else {
                assert(task::message_views(items@).len() != 1);
                false
            }
        },
        None => false,
    };
    history_ok && c.task.status.state == TaskState::Submitted
}

/// Refuses an admission that cannot be made whatever is on record.
pub fn preflight_admission(
    c: &SendMessageAdmission,
    wants_callback: bool,
    has_callback_policy: bool,
    quota_enforcement: bool,
    intent: &Option<QuotaIntent>,
    audit: &AuthorizationAudit,
    scope: &OwnedTaskScope,
) -> (r: Result<(), Fault>)
    ensures
        match r {
            Ok(_) => admission_preflight_fault(
                *c,
                wants_callback,
                has_callback_policy,
                quota_enforcement,
                *intent,
                *audit,
                *scope,
            ) is None,
            Err(e) => admission_preflight_fault(
                *c,
                wants_callback,
                has_callback_policy,
                quota_enforcement,
                *intent,
                *audit,
                *scope,
            ) == Some(e),
        },
{
    if wants_callback && !has_callback_policy {
        return Err(Fault::PushNotificationNotSupported);
    }
    let operation = if c.streaming {
        QuotaOperation::SendStream
    } else {
        QuotaOperation::TaskCreate
    };
    if let Some(e) = check_quota_operation(quota_enforcement, intent, operation, None) {
        return Err(e);
    }
    if !same_scope(audit, scope) || !audit.allow {
        return Err(Fault::AuthorizedAdmissionScopeMismatch);
    }
    if !is_canonical_task(c) {
        return Err(Fault::AdmissionTaskMismatch);
    }
    if c.message.message_id.as_str().is_empty() {
        return Err(Fault::MessageIdRequired);
    }
    Ok(())
}

/// Whether the three encoded payloads of a request are small enough to be kept.
pub open spec fn payloads_kept(task_json: Seq<char>, result_json: Seq<char>, payload_json: Seq<char>) -> bool {
    text::utf8(task_json).len() <= MAX_PAYLOAD_BYTES && text::utf8(result_json).len() <= MAX_PAYLOAD_BYTES
        && text::utf8(payload_json).len() <= MAX_PAYLOAD_BYTES
}

/// Payloads are kept exactly where each of the three takes at most a mebibyte.
pub proof fn law_small_payloads_are_kept(task_json: Seq<char>, result_json: Seq<char>, payload_json: Seq<char>)
    ensures
        payloads_kept(task_json, result_json, payload_json) <==> text::utf8(task_json).len() <= 1024 * 1024
            && text::utf8(result_json).len() <= 1024 * 1024 && text::utf8(payload_json).len() <= 1024 * 1024,
{
}

fn check_payloads(task_json: &str, result_json: &str, payload_json: &str, too_large: Fault) -> (r: Result<(), Fault>)
    ensures
        r == (if payloads_kept(task_json@, result_json@, payload_json@) {
            Ok::<(), Fault>(())
        } else {
            Err(too_large)
        }),
{
    if text::byte_len(task_json) > MAX_PAYLOAD_BYTES || text::byte_len(result_json) > MAX_PAYLOAD_BYTES
        || text::byte_len(payload_json) > MAX_PAYLOAD_BYTES {
        Err(too_large)
    } else {
        Ok(())
    }
}

/// Refuses an admission whose encoded payloads are too large.
pub fn check_admission_payloads(task_json: &str, result_json: &str, payload_json: &str) -> (r: Result<(), Fault>)
    ensures
        r == (if payloads_kept(task_json@, result_json@, payload_json@) {
            Ok::<(), Fault>(())
        } else {
            Err(Fault::AdmissionPayloadTooLarge)
        }),
{
    check_payloads(task_json, result_json, payload_json, Fault::AdmissionPayloadTooLarge)
}

/// Refuses a continuation whose encoded payloads are too large.
pub fn check_continuation_payloads(task_json: &str, result_json: &str, payload_json: &str) -> (r: Result<(), Fault>)
    ensures
        r == (if payloads_kept(task_json@, result_json@, payload_json@) {
            Ok::<(), Fault>(())
        } else {
            Err(Fault::ContinuationPayloadTooLarge)
        }),
{
    check_payloads(task_json, result_json, payload_json, Fault::ContinuationPayloadTooLarge)
}

/// The id under which a message is dispatched, once and for all.
pub open spec fn dispatch_id_of(tenant: Seq<char>, message_id: Seq<char>) -> Seq<char> {
    crypto::content_digest_of(text::utf8(tenant + "\0send-message\0"@ + message_id))
}

/// Computes the id under which a message is dispatched.
pub fn dispatch_id(tenant: &str, message_id: &str) -> (r: String)
    ensures
        r@ == dispatch_id_of(tenant@, message_id@),
{
    let mut key = tenant.to_owned();
    key.append("\0send-message\0");
    key.append(message_id);
    crypto::text_digest(key.as_str())
}

/// What is read before a request is charged. The quota parts are absent where the
/// request carries no intent.
pub struct ChargeInputs {
    pub reservation: Option<QuotaReservationInput>,
    pub stored_reservation: Option<StoredReservation>,
    pub task_reserved: bool,
    pub quota: Option<QuotaInputs>,
}

/// What is read before the intent of a request is applied.
pub struct QuotaInputs {
    pub application: QuotaApplication,
    pub intent: QuotaIntent,
    pub facts: Vec<ChargeFacts>,
    pub bound: Option<BoundExecution>,
    pub replayed: Option<ReplayedExecution>,
}

/// What charging a request writes.
pub struct ChargeOutcome {
    pub reservation: ReservationAction,
    pub quota: Option<QuotaWrites>,
    pub execution: Option<ExecutionBinding>,
}

/// The names that a request is charged under.
pub struct ChargeNames {
    pub tenant: String,
    pub owner: String,
    pub task_id: String,
    pub message_id: String,
    pub dispatch_id: String,
}

/// Whether the charges of a request can be computed.
pub open spec fn charge_ready(inputs: ChargeInputs, now: i64) -> bool {
    inputs.quota matches Some(q) ==> (quota::quota_path(q.application, q.intent) is Ok ==> quota::ready_to_charge(
        quota::paid_charges(q.application, q.intent),
        q.facts@,
        now,
    ))
}

/// Why the execution of a request cannot be bound.
pub open spec fn execution_fault(q: QuotaInputs, names: ChargeNames, insert: bool) -> Option<Fault> {
    if insert {
        match q.intent.execution_budget {
            None => Some(Fault::ExecutionBudgetMissing),
            Some(budget) => match q.bound {
                Some(row) => if reservation::bound_execution_matches(
                    row,
                    q.intent,
                    budget,
                    names.task_id@,
                    names.message_id@,
                    names.dispatch_id@,
                ) {
                    None
                } else {
                    Some(Fault::ExecutionReservationKeyConflict)
                },
                None => if q.intent.policy_revision > i64::MAX {
                    Some(Fault::InvalidQuotaRevision)
                } else if budget.max_output_bytes > i64::MAX {
                    Some(Fault::InvalidOutputBudget)
                } else if budget.max_event_count > i64::MAX {
                    Some(Fault::InvalidEventBudget)
                } else {
                    None
                },
            },
        }
    } else {
        match q.replayed {
            None => Some(Fault::ExecutionReservationRequiredForReplay),
            Some(row) => if !reservation::replayed_execution_matches(
                row,
                q.intent,
                names.task_id@,
                names.message_id@,
                names.dispatch_id@,
            ) {
                Some(Fault::ExecutionReservationKeyConflict)
            } else if row.reserved_output_bytes < 0 {
                Some(Fault::StoredOutputBudgetCorrupt)
            } else if row.reserved_event_count < 0 {
                Some(Fault::StoredEventBudgetCorrupt)
            } else if !row.budget_accepted {
                Some(Fault::StoredExecutionBudgetCorrupt)
            } else {
                None
            },
        }
    }
}

/// Why a request cannot be charged: the first of reservation, intent and
/// execution that is refused.
pub open spec fn charge_fault(inputs: ChargeInputs, names: ChargeNames, now: i64, insert: bool) -> Option<Fault> {
    match reservation::reservation_outcome(
        inputs.reservation,
        names.tenant@,
        names.owner@,
        names.task_id@,
        inputs.stored_reservation,
        inputs.task_reserved,
        now,
        insert,
    ) {
        Err(e) => Some(e),
        Ok(_) => match inputs.quota {
            None => None,
            Some(q) => match quota::quota_outcome(q.application, q.intent, q.facts@, now) {
                Err(e) => Some(e),
                Ok(_) => execution_fault(q, names, insert),
            },
        },
    }
}

/// The budget that an execution is bound to.
pub open spec fn bound_budget(q: QuotaInputs, insert: bool) -> ExecutionBudget {
    if insert {
        q.intent.execution_budget->0
    } else {
        ExecutionBudget {
            max_output_bytes: q.replayed->0.reserved_output_bytes as u64,
            max_event_count: q.replayed->0.reserved_event_count as u64,
        }
    }
}

/// The reservation id that an execution is bound to.
pub open spec fn bound_reservation_id(q: QuotaInputs, insert: bool) -> Seq<char> {
    if insert {
        reservation::execution_reservation_id(q.intent.tenant_scope@, q.intent.binding_digest@)
    } else {
        q.replayed->0.reservation_id@
    }
}

/// Whether what is written is what the request was charged.
pub open spec fn charge_written(
    out: ChargeOutcome,
    inputs: ChargeInputs,
    names: ChargeNames,
    now: i64,
    insert: bool,
) -> bool {
    &&& reservation::reservation_outcome(
        inputs.reservation,
        names.tenant@,
        names.owner@,
        names.task_id@,
        inputs.stored_reservation,
        inputs.task_reserved,
        now,
        insert,
    ) == Ok::<ReservationAction, Fault>(out.reservation)
    &&& match inputs.quota {
        None => out.quota is None && out.execution is None,
        Some(q) => {
            &&& out.quota matches Some(w) && quota::quota_outcome(q.application, q.intent, q.facts@, now) == Ok::<
                (quota::QuotaPath, Seq<quota::ChargeWrite>),
                Fault,
            >((w.path, w.writes@))
            &&& out.execution matches Some(b) && b.reservation_id@ == bound_reservation_id(q, insert) && b.budget
                == bound_budget(q, insert) && b.insert == (insert && q.bound is None)
        },
    }
}

/// A first request binds an execution exactly where its intent has a budget and either the
/// execution on record is this very one or none is on record and every number can be
/// stored. A replay binds the execution on record exactly where it is this dispatch's own
/// and its budget can be read.
pub proof fn law_executions_are_bound_to_their_request(q: QuotaInputs, names: ChargeNames)
    ensures
        q.intent.execution_budget is None ==> execution_fault(q, names, true) == Some(Fault::ExecutionBudgetMissing),
        q.intent.execution_budget is Some && q.bound is None ==> (execution_fault(q, names, true) is None
            <==> q.intent.policy_revision <= i64::MAX && q.intent.execution_budget->0.max_output_bytes <= i64::MAX
            && q.intent.execution_budget->0.max_event_count <= i64::MAX),
        execution_fault(q, names, true) is None && q.bound is Some ==> q.bound->0.task_id@ == names.task_id@
            && q.bound->0.message_id@ == names.message_id@ && q.bound->0.dispatch_id@ == names.dispatch_id@
            && q.bound->0.binding_digest@ == q.intent.binding_digest@ && q.bound->0.account_id@ == q.intent.account_id@,
        q.intent.execution_budget is Some && q.bound is Some && execution_fault(q, names, true) is Some
            ==> execution_fault(q, names, true) == Some(Fault::ExecutionReservationKeyConflict),
        q.replayed is None ==> execution_fault(q, names, false) == Some(Fault::ExecutionReservationRequiredForReplay),
        execution_fault(q, names, false) is None <==> q.replayed is Some && q.replayed->0.account_id@
            == q.intent.account_id@ && q.replayed->0.principal_scope@ == q.intent.principal_scope@
            && q.replayed->0.operation == Some(q.intent.operation) && q.replayed->0.task_id@ == names.task_id@
            && q.replayed->0.message_id@ == names.message_id@ && q.replayed->0.dispatch_id@ == names.dispatch_id@
            && q.replayed->0.reserved_output_bytes >= 0 && q.replayed->0.reserved_event_count >= 0
            && q.replayed->0.budget_accepted,
        execution_fault(q, names, false) == Some(Fault::StoredOutputBudgetCorrupt)
            ==> q.replayed->0.reserved_output_bytes < 0,
        execution_fault(q, names, false) == Some(Fault::StoredEventBudgetCorrupt)
            ==> q.replayed->0.reserved_event_count < 0,
        execution_fault(q, names, false) == Some(Fault::StoredExecutionBudgetCorrupt) ==> !q.replayed->0.budget_accepted,
{
}

/// A request is charged only where its reservation, its intent and its execution are all
/// granted, and it is refused for the first of the three that is not.
pub proof fn law_requests_are_charged_whole(inputs: ChargeInputs, names: ChargeNames, now: i64, insert: bool)
    ensures
        ({
            let reserved = reservation::reservation_outcome(
                inputs.reservation,
                names.tenant@,
                names.owner@,
                names.task_id@,
                inputs.stored_reservation,
                inputs.task_reserved,
                now,
                insert,
            );
            let fault = charge_fault(inputs, names, now, insert);
            &&& reserved is Err ==> fault == Some(reserved->Err_0)
            &&& reserved is Ok && inputs.quota is None ==> fault is None
            &&& reserved is Ok && inputs.quota is Some ==> {
                let q = inputs.quota->0;
                let paid = quota::quota_outcome(q.application, q.intent, q.facts@, now);
                &&& paid is Err ==> fault == Some(paid->Err_0)
                &&& paid is Ok ==> fault == execution_fault(q, names, insert)
            }
        }),
{
}

/// What a charged request writes carries the budget that its intent asked for at first, and
/// on a replay the budget and the reservation on record; an execution is written only at
/// first, and only where none is on record.
pub proof fn law_charged_requests_carry_their_budget(
    out: ChargeOutcome,
    inputs: ChargeInputs,
    names: ChargeNames,
    now: i64,
    insert: bool,
)
    requires
        charge_written(out, inputs, names, now, insert),
        charge_fault(inputs, names, now, insert) is None,
    ensures
        out.execution is Some <==> inputs.quota is Some,
        out.quota is Some <==> inputs.quota is Some,
        inputs.quota is Some && insert ==> Some(out.execution->0.budget) == inputs.quota->0.intent.execution_budget
            && out.execution->0.reservation_id@ == reservation::execution_reservation_id(
            inputs.quota->0.intent.tenant_scope@,
            inputs.quota->0.intent.binding_digest@,
        ),
        inputs.quota is Some && !insert ==> out.execution->0.budget.max_output_bytes
            == inputs.quota->0.replayed->0.reserved_output_bytes && out.execution->0.budget.max_event_count
            == inputs.quota->0.replayed->0.reserved_event_count && out.execution->0.reservation_id@
            == inputs.quota->0.replayed->0.reservation_id@,
        inputs.quota is Some ==> (out.execution->0.insert <==> insert && inputs.quota->0.bound is None),
        inputs.quota is None && inputs.reservation is None ==> out.reservation == ReservationAction::Nothing,
{
}

/// Charges a request: its reservation, its intent and its execution, in that
/// order. `insert` tells a first request from a replay.
pub fn charge_request(inputs: &ChargeInputs, names: &ChargeNames, now: i64, insert: bool) -> (r: Result<
    ChargeOutcome,
    Fault,
>)
    requires
        charge_ready(*inputs, now),
    ensures
        match r {
            Ok(out) => charge_fault(*inputs, *names, now, insert) is None && charge_written(
                out,
                *inputs,
                *names,
                now,
                insert,
            ),
            Err(e) => charge_fault(*inputs, *names, now, insert) == Some(e),
        },
{
    let action = match reservation::insert_quota_reservation(
        &inputs.reservation,
        names.tenant.as_str(),
        names.owner.as_str(),
        names.task_id.as_str(),
        &inputs.stored_reservation,
        inputs.task_reserved,
        now,
        insert,
    ) {
        Ok(action) => action,
        Err(e) => {
            return Err(e);
        },
    };
    let q = match &inputs.quota {
        Some(q) => q,
        None => {
            return Ok(ChargeOutcome { reservation: action, quota: None, execution: None });
        },
    };
    let writes = match quota::apply_quota_intent(&q.application, &q.intent, &q.facts, now) {
        Ok(writes) => writes,
        Err(e) => {
            return Err(e);
        },
    };
    let bound = if insert {
        reservation::bind_execution_reservation(
            &q.bound,
            &q.intent,
            names.task_id.as_str(),
            names.message_id.as_str(),
            names.dispatch_id.as_str(),
        )
    } else {
        reservation::replay_execution_reservation(
            &q.replayed,
            &q.intent,
            names.task_id.as_str(),
            names.message_id.as_str(),
            names.dispatch_id.as_str(),
        )
    };
    match bound {
        Ok(execution) => Ok(
            ChargeOutcome { reservation: action, quota: Some(writes), execution: Some(execution) },
        ),
        Err(e) => Err(e),
    }
}

/// A request on record under the same message identity, with the result given at its
/// admission and its final one, once there is one.
pub struct IdempotencyRow {
    pub request_digest: String,
    pub task_id: String,
    pub admission_result: String,
    pub final_result: Option<String>,
}

/// Which stored result answers a replay.
#[derive(Clone, Copy, Debug, PartialEq, Eq, Structural)]
pub enum ReplayedResult {
    Admission,
    Final,
}

/// The final result where there is one, else the one given at admission.
pub open spec fn replayed_result(row: IdempotencyRow) -> ReplayedResult {
    if row.final_result is Some {
        ReplayedResult::Final
    } else {
        ReplayedResult::Admission
    }
}

/// The text of the result that answers a replay.
pub open spec fn replayed_text(row: IdempotencyRow) -> Seq<char> {
    match row.final_result {
        Some(result) => result@,
        None => row.admission_result@,
    }
}

/// Whether the result that answers a replay can be read.
pub open spec fn replay_readable(row: IdempotencyRow) -> bool {
    task::response_readable_of(replayed_text(row))
}

/// A replay is answered with the final result as soon as there is one, and with the result
/// of the admission before that.
pub proof fn law_replays_prefer_the_final_result(row: IdempotencyRow)
    ensures
        row.final_result is Some ==> replayed_result(row) == ReplayedResult::Final && replayed_text(row)
            == row.final_result->0@ && replay_readable(row) == task::response_readable_of(row.final_result->0@),
        row.final_result is None ==> replayed_result(row) == ReplayedResult::Admission && replayed_text(row)
            == row.admission_result@ && replay_readable(row) == task::response_readable_of(row.admission_result@),
{
}

fn is_replay_readable(row: &IdempotencyRow) -> (r: bool)
    ensures
        r == replay_readable(*row),
{
    match &row.final_result {
        Some(result) => task::response_readable(result.as_str()),
        None => task::response_readable(row.admission_result.as_str()),
    }
}

fn pick_result(row: &IdempotencyRow) -> (r: ReplayedResult)
    ensures
        r == replayed_result(*row),
{
    if row.final_result.is_some() {
        ReplayedResult::Final
    } else {
        ReplayedResult::Admission
    }
}

/// The callback that an admission registers, and what is on record for it.
#[derive(Clone, Copy, Debug, PartialEq, Eq, Structural)]
pub struct InlineCallback {
    pub enrollment_generation: u64,
    pub policy_revision: u64,
    pub enrolled: bool,
    pub max_configs_per_tenant: u32,
    pub max_configs_per_task: u16,
    pub tenant_configs: i64,
    pub task_configs: i64,
}

/// Why a callback cannot be registered with an admission.
pub open spec fn inline_callback_fault(callback: Option<InlineCallback>, has_intent: bool) -> Option<Fault> {
    match callback {
        None => None,
        Some(c) => if c.enrollment_generation > i64::MAX {
            Some(Fault::InvalidCallbackGeneration)
        } else if c.policy_revision > i64::MAX {
            Some(Fault::CallbackPolicyCorrupt)
        } else if !c.enrolled {
            Some(Fault::CallbackEnrollmentNotAuthorizedParams)
        } else if c.tenant_configs >= c.max_configs_per_tenant {
            Some(Fault::CallbackTenantCapacity)
        } else if c.task_configs >= c.max_configs_per_task {
            Some(Fault::CallbackConfigCapacityParams)
        } else if !has_intent {
            Some(Fault::QuotaAuthorityUnavailable)
        } else {
            None
        },
    }
}

/// A callback is registered with an admission only for an enrolled caller that pays, and only
/// while both the tenant and the task have room for one more.
pub proof fn law_callbacks_are_registered_within_capacity(c: InlineCallback, has_intent: bool)
    ensures
        inline_callback_fault(None, has_intent) is None,
        inline_callback_fault(Some(c), has_intent) is None <==> c.enrollment_generation <= i64::MAX
            && c.policy_revision <= i64::MAX && c.enrolled && c.tenant_configs + 1 <= c.max_configs_per_tenant
            && c.task_configs + 1 <= c.max_configs_per_task && has_intent,
        inline_callback_fault(Some(c), has_intent) == Some(Fault::CallbackTenantCapacity) ==> c.tenant_configs
            >= c.max_configs_per_tenant && c.enrolled,
        inline_callback_fault(Some(c), has_intent) == Some(Fault::CallbackConfigCapacityParams) ==> c.task_configs
            >= c.max_configs_per_task && c.tenant_configs < c.max_configs_per_tenant,
        inline_callback_fault(Some(c), has_intent) == Some(Fault::CallbackEnrollmentNotAuthorizedParams)
            ==> !c.enrolled,
        inline_callback_fault(Some(c), has_intent) == Some(Fault::QuotaAuthorityUnavailable) ==> !has_intent,
        inline_callback_fault(Some(c), has_intent) == Some(Fault::InvalidCallbackGeneration)
            ==> c.enrollment_generation > i64::MAX,
        inline_callback_fault(Some(c), has_intent) == Some(Fault::CallbackPolicyCorrupt) ==> c.policy_revision
            > i64::MAX,
{
}

fn check_inline_callback(callback: &Option<InlineCallback>, has_intent: bool) -> (r: Option<Fault>)
    ensures
        r == inline_callback_fault(*callback, has_intent),
{
    match callback {
        None => None,
        Some(c) => if c.enrollment_generation > 0x7fff_ffff_ffff_ffff {
            Some(Fault::InvalidCallbackGeneration)
        } else if c.policy_revision > 0x7fff_ffff_ffff_ffff {
            Some(Fault::CallbackPolicyCorrupt)
        } else if !c.enrolled {
            Some(Fault::CallbackEnrollmentNotAuthorizedParams)
        } else if c.tenant_configs >= c.max_configs_per_tenant as i64 {
            Some(Fault::CallbackTenantCapacity)
        } else if c.task_configs >= c.max_configs_per_task as i64 {
            Some(Fault::CallbackConfigCapacityParams)
        } else if !has_intent {
            Some(Fault::QuotaAuthorityUnavailable)
        } else {
            None
        },
    }
}

/// The reservation columns that a dispatch is written with.
pub struct OutboxReservation {
    pub binding_digest: Option<String>,
    pub reservation_id: Option<String>,
    pub reservation_version: Option<i64>,
    pub reserved_output_bytes: Option<i64>,
    pub reserved_event_count: Option<i64>,
}

/// Whether a dispatch is written with the execution that was bound.
pub open spec fn outbox_carries(o: OutboxReservation, out: ChargeOutcome, inputs: ChargeInputs) -> bool {
    match out.execution {
        None => o.binding_digest is None && o.reservation_id is None && o.reservation_version is None
            && o.reserved_output_bytes is None && o.reserved_event_count is None,
        Some(b) => {
            &&& inputs.quota is Some
            &&& text::opt_text(o.binding_digest) == Some(inputs.quota->0.intent.binding_digest@)
            &&& text::opt_text(o.reservation_id) == Some(b.reservation_id@)
            &&& o.reservation_version == Some(1i64)
            &&& o.reserved_output_bytes == Some(quota::clamp_i64(b.budget.max_output_bytes) as i64)
            &&& o.reserved_event_count == Some(quota::clamp_i64(b.budget.max_event_count) as i64)
        },
    }
}

/// A 64-bit unsigned number as it is stored: signed, held at the largest.
pub fn clamp_stored(v: u64) -> (r: i64)
    ensures
        r == quota::clamp_i64(v),
{
    if v <= 0x7fff_ffff_ffff_ffff {
        v as i64
    } else {
        i64::MAX
    }
}

/// A dispatch is written with the reservation of the execution that was bound, in its first
/// version, and without any where none was bound.
pub proof fn law_dispatches_carry_their_reservation(o: OutboxReservation, out: ChargeOutcome, inputs: ChargeInputs)
    requires
        outbox_carries(o, out, inputs),
    ensures
        out.execution is Some <==> o.reservation_id is Some,
        out.execution is Some <==> o.binding_digest is Some,
        out.execution is Some <==> o.reservation_version == Some(1i64),
        out.execution is None ==> o.reservation_version is None && o.reserved_output_bytes is None
            && o.reserved_event_count is None,
        out.execution is Some ==> o.reservation_id->0@ == out.execution->0.reservation_id@ && o.binding_digest->0@
            == inputs.quota->0.intent.binding_digest@,
        out.execution is Some && out.execution->0.budget.max_output_bytes <= i64::MAX ==> o.reserved_output_bytes
            is Some && o.reserved_output_bytes->0 == out.execution->0.budget.max_output_bytes,
        out.execution is Some && out.execution->0.budget.max_event_count <= i64::MAX ==> o.reserved_event_count
            is Some && o.reserved_event_count->0 == out.execution->0.budget.max_event_count,
{
}

fn outbox_reservation(out: &ChargeOutcome, inputs: &ChargeInputs) -> (r: OutboxReservation)
    requires
        out.execution is Some ==> inputs.quota is Some,
    ensures
        outbox_carries(r, *out, *inputs),
{
    match (&out.execution, &inputs.quota) {
        (Some(b), Some(q)) => OutboxReservation {
            binding_digest: Some(q.intent.binding_digest.clone()),
            reservation_id: Some(b.reservation_id.clone()),
            reservation_version: Some(1),
            reserved_output_bytes: Some(clamp_stored(b.budget.max_output_bytes)),
            reserved_event_count: Some(clamp_stored(b.budget.max_event_count)),
        },
        _ => OutboxReservation {
            binding_digest: None,
            reservation_id: None,
            reservation_version: None,
            reserved_output_bytes: None,
            reserved_event_count: None,
        },
    }
}

/// What a new admission or continuation writes: the task at its revision, the
/// event that brought it there, the idempotency record, the dispatch, and where
/// it streams the transcript with the task as its first frame.
pub struct AdmissionPlan {
    pub task_id: String,
    pub revision: i64,
    pub dispatch_id: String,
    pub max_attempts: i64,
    pub opens_transcript: bool,
    pub charge: ChargeOutcome,
    pub outbox: OutboxReservation,
}

/// The decision on an admission or continuation.
pub enum AdmissionDecision {
    Replay { result: ReplayedResult, charge: ChargeOutcome },
    Admit(AdmissionPlan),
}

/// The reason that is recorded with an admission. A replay is recorded where it is
/// asked for, not here.
pub fn admission_audit(decision: &AdmissionDecision) -> (r: Option<AuditReason>)
    ensures
        r == (if *decision is Admit {
            Some(AuditReason::AdmissionCommitted)
        } else {
            None
        }),
        r is Some <==> *decision is Admit,
        r is Some ==> r->0 == AuditReason::AdmissionCommitted,
{
    match decision {
        AdmissionDecision::Admit(_) => Some(AuditReason::AdmissionCommitted),
        AdmissionDecision::Replay { .. } => None,
    }
}

/// Why an admission is refused once the records have been read.
pub open spec fn admission_fault(
    c: SendMessageAdmission,
    existing: Option<IdempotencyRow>,
    request_digest: Seq<char>,
    names: ChargeNames,
    inputs: ChargeInputs,
    task_count: i64,
    max_tasks: usize,
    task_taken: bool,
    callback: Option<InlineCallback>,
    quota_now: i64,
) -> Option<Fault> {
    match existing {
        Some(row) => if row.request_digest@ != request_digest {
            Some(Fault::IdempotencyAdmissionConflict)
        } else if charge_fault(inputs, names, quota_now, false) is Some {
            charge_fault(inputs, names, quota_now, false)
        } else if !replay_readable(row) {
            Some(Fault::StoredIdempotencyCorrupt)
        } else {
            None
        },
        None => if !(1 <= c.max_attempts <= 1000) {
            Some(Fault::InvalidDurableAdmission)
        } else if task_count < 0 || task_count >= max_tasks {
            Some(Fault::TaskCapacityReached)
        } else if task_taken {
            Some(Fault::TaskAlreadyExists)
        } else if charge_fault(inputs, names, quota_now, true) is Some {
            charge_fault(inputs, names, quota_now, true)
        } else {
            inline_callback_fault(callback, inputs.quota is Some)
        },
    }
}

/// Whether a decision is what an admission that is not refused gets.
pub open spec fn admission_granted(
    decision: AdmissionDecision,
    c: SendMessageAdmission,
    existing: Option<IdempotencyRow>,
    names: ChargeNames,
    inputs: ChargeInputs,
    quota_now: i64,
) -> bool {
    match decision {
        AdmissionDecision::Replay { result, charge } => {
            &&& existing is Some
            &&& result == replayed_result(existing->0)
            &&& charge_written(charge, inputs, names, quota_now, false)
        },
        AdmissionDecision::Admit(plan) => {
            &&& existing is None
            &&& plan.task_id@ == c.task.id@
            &&& plan.revision == 1
            &&& plan.dispatch_id@ == names.dispatch_id@
            &&& plan.max_attempts == c.max_attempts
            &&& plan.opens_transcript == c.streaming
            &&& charge_written(plan.charge, inputs, names, quota_now, true)
            &&& outbox_carries(plan.outbox, plan.charge, inputs)
        },
    }
}

/// Whether an answer is the one that an admission gets.
pub open spec fn admission_answered(
    answer: Result<AdmissionDecision, Fault>,
    c: SendMessageAdmission,
    existing: Option<IdempotencyRow>,
    request_digest: Seq<char>,
    names: ChargeNames,
    inputs: ChargeInputs,
    task_count: i64,
    max_tasks: usize,
    task_taken: bool,
    callback: Option<InlineCallback>,
    quota_now: i64,
) -> bool {
    let fault = admission_fault(
        c,
        existing,
        request_digest,
        names,
        inputs,
        task_count,
        max_tasks,
        task_taken,
        callback,
        quota_now,
    );
    match answer {
        Err(e) => fault == Some(e),
        Ok(decision) => fault is None && admission_granted(decision, c, existing, names, inputs, quota_now),
    }
}

/// A new request is admitted exactly where its attempts are between one and a thousand, the
/// store has room for one more task, no task has its name, it is charged and its callback
/// can be registered. The task is then written at revision one, under its own id and with
/// the dispatch, the attempts and the kind of stream that were asked for.
pub proof fn law_new_requests_are_admitted(
    answer: Result<AdmissionDecision, Fault>,
    c: SendMessageAdmission,
    request_digest: Seq<char>,
    names: ChargeNames,
    inputs: ChargeInputs,
    task_count: i64,
    max_tasks: usize,
    task_taken: bool,
    callback: Option<InlineCallback>,
    quota_now: i64,
)
    requires
        admission_answered(
            answer,
            c,
            None,
            request_digest,
            names,
            inputs,
            task_count,
            max_tasks,
            task_taken,
            callback,
            quota_now,
        ),
    ensures
        answer is Ok <==> 1 <= c.max_attempts <= 1000 && 0 <= task_count < max_tasks && !task_taken && charge_fault(
            inputs,
            names,
            quota_now,
            true,
        ) is None && inline_callback_fault(callback, inputs.quota is Some) is None,
        answer is Ok ==> {
            &&& answer->Ok_0 is Admit
            &&& answer->Ok_0->Admit_0.revision == 1
            &&& answer->Ok_0->Admit_0.task_id@ == c.task.id@
            &&& answer->Ok_0->Admit_0.dispatch_id@ == names.dispatch_id@
            &&& answer->Ok_0->Admit_0.max_attempts == c.max_attempts
            &&& answer->Ok_0->Admit_0.opens_transcript <==> c.streaming
        },
        !(1 <= c.max_attempts <= 1000) ==> answer->Err_0 == Fault::InvalidDurableAdmission,
        1 <= c.max_attempts <= 1000 && !(0 <= task_count < max_tasks) ==> answer->Err_0 == Fault::TaskCapacityReached,
        1 <= c.max_attempts <= 1000 && 0 <= task_count < max_tasks && task_taken ==> answer->Err_0
            == Fault::TaskAlreadyExists,
{
}

/// A request that is on record is answered from the record: it is refused where it is another
/// request, and it is a replay where it is the same one, is charged as a replay and its result
/// can be read. No limit on new tasks touches it.
pub proof fn law_known_requests_are_answered_from_the_record(
    answer: Result<AdmissionDecision, Fault>,
    c: SendMessageAdmission,
    row: IdempotencyRow,
    request_digest: Seq<char>,
    names: ChargeNames,
    inputs: ChargeInputs,
    task_count: i64,
    max_tasks: usize,
    task_taken: bool,
    callback: Option<InlineCallback>,
    quota_now: i64,
)
    requires
        admission_answered(
            answer,
            c,
            Some(row),
            request_digest,
            names,
            inputs,
            task_count,
            max_tasks,
            task_taken,
            callback,
            quota_now,
        ),
    ensures
        answer is Ok <==> row.request_digest@ == request_digest && charge_fault(inputs, names, quota_now, false) is None
            && replay_readable(row),
        answer is Ok ==> answer->Ok_0 is Replay && (answer->Ok_0->result == ReplayedResult::Final
            <==> row.final_result is Some),
        row.request_digest@ != request_digest ==> answer->Err_0 == Fault::IdempotencyAdmissionConflict,
        row.request_digest@ == request_digest && charge_fault(inputs, names, quota_now, false) is None
            && !replay_readable(row) ==> answer->Err_0 == Fault::StoredIdempotencyCorrupt,
{
}

/// Decides an admission from what is on record: a replay of the same request, or
/// a new task at revision one. `task_taken` says that a task has the name already.
pub fn authorize_and_admit_mutation(
    c: &SendMessageAdmission,
    existing: &Option<IdempotencyRow>,
    request_digest: &str,
    names: &ChargeNames,
    inputs: &ChargeInputs,
    task_count: i64,
    max_tasks: usize,
    task_taken: bool,
    callback: &Option<InlineCallback>,
    quota_now: i64,
) -> (r: Result<AdmissionDecision, Fault>)
    requires
        charge_ready(*inputs, quota_now),
        names.task_id@ == (match *existing {
            Some(row) => row.task_id@,
            None => c.task.id@,
        }),
    ensures
        admission_answered(
            r,
            *c,
            *existing,
            request_digest@,
            *names,
            *inputs,
            task_count,
            max_tasks,
            task_taken,
            *callback,
            quota_now,
        ),
{
    if let Some(row) = existing {
        if !text::same_text(row.request_digest.as_str(), request_digest) {
            return Err(Fault::IdempotencyAdmissionConflict);
        }
        return match charge_request(inputs, names, quota_now, false) {
            Err(e) => Err(e),
            Ok(charge) => if !is_replay_readable(row) {
                Err(Fault::StoredIdempotencyCorrupt)
            } else {
                Ok(AdmissionDecision::Replay { result: pick_result(row), charge })
            },
        };
    }
    if c.max_attempts < 1 || c.max_attempts > 1000 {
        return Err(Fault::InvalidDurableAdmission);
    }
    if task_count < 0 || task_count as u128 >= max_tasks as u128 {
        return Err(Fault::TaskCapacityReached);
    }
    if task_taken {
        return Err(Fault::TaskAlreadyExists);
    }
    match charge_request(inputs, names, quota_now, true) {
        Err(e) => Err(e),
        Ok(charge) => {
            if let Some(e) = check_inline_callback(callback, inputs.quota.is_some()) {
                return Err(e);
            }
            let outbox = outbox_reservation(&charge, inputs);
            Ok(
                AdmissionDecision::Admit(
                    AdmissionPlan {
                        task_id: c.task.id.clone(),
                        revision: 1,
                        dispatch_id: names.dispatch_id.clone(),
                        max_attempts: c.max_attempts as i64,
                        opens_transcript: c.streaming,
                        charge,
                        outbox,
                    },
                ),
            )
        },
    }
}

/// Whether a continuation request is well formed.
pub open spec fn continuation_valid(c: SendMessageAdmission) -> bool {
    &&& 1 <= text::utf8(c.message.message_id@).len() <= 4096
    &&& 1 <= c.max_attempts <= 1000
    &&& c.original_result matches Some(t) && t@ == c.task@
    &&& c.message.task_id matches Some(id) ==> id@ == c.task.id@
    &&& c.message.context_id matches Some(id) ==> id@ == c.task.context_id@
}

/// Why a continuation is refused before anything is read.
pub open spec fn continuation_preflight_fault(
    c: SendMessageAdmission,
    quota_enforcement: bool,
    intent: Option<QuotaIntent>,
    audit: AuthorizationAudit,
    scope: OwnedTaskScope,
) -> Option<Fault> {
    if quota_operation_fault(quota_enforcement, intent, QuotaOperation::TaskContinue, None) is Some {
        quota_operation_fault(quota_enforcement, intent, QuotaOperation::TaskContinue, None)
    } else if !audit_matches(audit, scope) || !audit.allow {
        Some(Fault::AuthorizedContinuationScopeMismatch)
    } else if !continuation_valid(c) {
        Some(Fault::InvalidDurableContinuation)
    } else {
        None
    }
}

/// A continuation that passes its first checks is allowed to its own caller, pays as one,
/// carries the task that it continues as its result, and its message names no other task or
/// context.
pub proof fn law_continuations_name_their_task(
    c: SendMessageAdmission,
    quota_enforcement: bool,
    intent: Option<QuotaIntent>,
    audit: AuthorizationAudit,
    scope: OwnedTaskScope,
)
    ensures
        continuation_preflight_fault(c, quota_enforcement, intent, audit, scope) is None <==> {
            &&& intent is Some || !quota_enforcement
            &&& intent is Some ==> intent->0.operation == QuotaOperation::TaskContinue
            &&& audit.allow
            &&& audit.tenant_scope@ == scope.tenant_scope@
            &&& audit.actor_account_id@ == scope.owner_account_id@
            &&& 1 <= text::utf8(c.message.message_id@).len() <= 4096
            &&& 1 <= c.max_attempts <= 1000
            &&& c.original_result is Some
            &&& c.original_result->0@ == c.task@
            &&& c.message.task_id is Some ==> c.message.task_id->0@ == c.task.id@
            &&& c.message.context_id is Some ==> c.message.context_id->0@ == c.task.context_id@
        },
        continuation_preflight_fault(c, quota_enforcement, intent, audit, scope) == Some(
            Fault::InvalidDurableContinuation,
        ) ==> audit.allow && audit.tenant_scope@ == scope.tenant_scope@ && audit.actor_account_id@
            == scope.owner_account_id@,
        intent is None && !quota_enforcement && (!audit.allow || audit.tenant_scope@ != scope.tenant_scope@
            || audit.actor_account_id@ != scope.owner_account_id@) ==> continuation_preflight_fault(
            c,
            quota_enforcement,
            intent,
            audit,
            scope,
        ) == Some(Fault::AuthorizedContinuationScopeMismatch),
{
}

/// Refuses a continuation that cannot be made whatever is on record.
pub fn preflight_continuation(
    c: &SendMessageAdmission,
    quota_enforcement: bool,
    intent: &Option<QuotaIntent>,
    audit: &AuthorizationAudit,
    scope: &OwnedTaskScope,
) -> (r: Result<(), Fault>)
    ensures
        match r {
            Ok(_) => continuation_preflight_fault(*c, quota_enforcement, *intent, *audit, *scope) is None,
            Err(e) => continuation_preflight_fault(*c, quota_enforcement, *intent, *audit, *scope) == Some(e),
        },
{
    if let Some(e) = check_quota_operation(quota_enforcement, intent, QuotaOperation::TaskContinue, None) {
        return Err(e);
    }
    if !same_scope(audit, scope) || !audit.allow {
        return Err(Fault::AuthorizedContinuationScopeMismatch);
    }
    let n: usize = text::byte_len(c.message.message_id.as_str());
    let result_matches = match &c.original_result {
        Some(t) => t.same(&c.task),
        None => false,
    };
    let task_matches = match &c.message.task_id {
        Some(id) => *id == c.task.id,
        None => true,
    };
    let context_matches = match &c.message.context_id {
        Some(id) => *id == c.task.context_id,
        None => true,
    };
    if n == 0 || n > 4096 || c.max_attempts < 1 || c.max_attempts > 1000 || !result_matches || !task_matches
        || !context_matches {
        return Err(Fault::InvalidDurableContinuation);
    }
    Ok(())
}

/// A task as it is on record. The task itself is absent where its text is corrupt.
pub struct StoredTask {
    pub task: Option<Task>,
    pub state: String,
    pub revision: i64,
    pub context_id: String,
}

/// A task that takes up work again on a further message.
pub open spec fn continued_task(
    t: task::TaskView,
    message: task::MessageView,
    timestamp: Option<Seq<char>>,
) -> task::TaskView {
    task::TaskView {
        history: Some(
            match t.history {
                Some(items) => items.push(message),
                None => seq![message],
            },
        ),
        status: task::StatusView { state: TaskState::Working, message: None, timestamp },
        ..t
    }
}

/// Puts a task back to work on a further message.
pub fn continue_task(t: &Task, message: &Message, now: i64) -> (r: Task)
    ensures
        r@ == continued_task(t@, message@, task::rfc3339_of(now)),
{
    let mut next = t.copy();
    let mut items = match next.history.take() {
        Some(items) => items,
        None => Vec::new(),
    };
    let ghost before = items@;
    items.push(message.copy());
    proof {
        assert(task::message_views(items@) =~= task::message_views(before).push(message@));
        if t@.history is None {
            assert(task::message_views(items@) =~= seq![message@]);
        }
    }
    next.history = Some(items);
    next.status = TaskStatus { state: TaskState::Working, message: None, timestamp: task::rfc3339(now) };
    next
}

/// Whether a stored state accepts a continuation.
pub open spec fn accepts_continuation(state: Seq<char>) -> bool {
    state == task::state_text(TaskState::InputRequired) || state == task::state_text(TaskState::AuthRequired)
}

/// A continued task goes back to work: its new message stands last in its history, behind
/// every message that it had, its status is a plain working one, and its ids, artifacts and
/// metadata stay.
pub proof fn law_continued_tasks_keep_their_history(
    t: task::TaskView,
    message: task::MessageView,
    timestamp: Option<Seq<char>>,
)
    ensures
        ({
            let after = continued_task(t, message, timestamp);
            let had = if t.history is Some { t.history->0.len() as int } else { 0 };
            &&& after.id == t.id
            &&& after.context_id == t.context_id
            &&& after.artifacts == t.artifacts
            &&& after.metadata == t.metadata
            &&& after.status.state == TaskState::Working
            &&& after.status.message is None
            &&& after.status.timestamp == timestamp
            &&& after.history is Some
            &&& after.history->0.len() == had + 1
            &&& after.history->0[had] == message
            &&& t.history is Some ==> forall|i: int| 0 <= i < had ==> #[trigger] after.history->0[i] == t.history->0[i]
        }),
{
}

/// A state accepts a continuation exactly where the task waits for its caller.
pub proof fn law_waiting_tasks_accept_continuations(state: TaskState)
    ensures
        accepts_continuation(task::state_text(state)) <==> state == TaskState::InputRequired || state
            == TaskState::AuthRequired,
{
    if state != TaskState::InputRequired && task::state_text(state) == task::state_text(TaskState::InputRequired) {
        task::law_state_texts_are_distinct(state, TaskState::InputRequired);
    }
    if state != TaskState::AuthRequired && task::state_text(state) == task::state_text(TaskState::AuthRequired) {
        task::law_state_texts_are_distinct(state, TaskState::AuthRequired);
    }
}

/// Why a continuation is refused once the records have been read.
pub open spec fn continuation_fault(
    c: SendMessageAdmission,
    existing: Option<IdempotencyRow>,
    request_digest: Seq<char>,
    names: ChargeNames,
    inputs: ChargeInputs,
    stored: Option<StoredTask>,
    quota_now: i64,
) -> Option<Fault> {
    match existing {
        Some(row) => if row.request_digest@ != request_digest {
            Some(Fault::IdempotencyContinuationConflict)
        } else if charge_fault(inputs, names, quota_now, false) is Some {
            charge_fault(inputs, names, quota_now, false)
        } else if !replay_readable(row) {
            Some(Fault::StoredContinuationCorrupt)
        } else {
            None
        },
        None => match stored {
            None => Some(Fault::TaskNotFound),
            Some(row) => if charge_fault(inputs, names, quota_now, true) is Some {
                charge_fault(inputs, names, quota_now, true)
            } else if !accepts_continuation(row.state@) {
                Some(Fault::TaskNoLongerAcceptsContinuation)
            } else if row.task is None {
                Some(Fault::StoredTaskCorrupt)
            } else if row.task->0@ != c.task@ || row.task->0.context_id@ != row.context_id@ {
                Some(Fault::ContinuationTaskMismatch)
            } else if row.revision == i64::MAX {
                Some(Fault::RevisionExhausted)
            } else if row.revision + 1 < 0 {
                Some(Fault::TaskRevisionCorrupt)
            } else {
                None
            },
        },
    }
}

/// A new continuation goes through exactly where the task is on record as the caller saw it,
/// waits for its caller, has a further revision, and the request is charged; a known one
/// exactly where it is the same request, is charged as a replay and its result can be read.
pub proof fn law_continuations_meet_the_task_on_record(
    c: SendMessageAdmission,
    existing: Option<IdempotencyRow>,
    request_digest: Seq<char>,
    names: ChargeNames,
    inputs: ChargeInputs,
    stored: Option<StoredTask>,
    quota_now: i64,
)
    ensures
        ({
            let fault = continuation_fault(c, existing, request_digest, names, inputs, stored, quota_now);
            &&& existing is Some ==> {
                &&& existing->0.request_digest@ != request_digest ==> fault == Some(
                    Fault::IdempotencyContinuationConflict,
                )
                &&& fault is None <==> existing->0.request_digest@ == request_digest && charge_fault(
                    inputs,
                    names,
                    quota_now,
                    false,
                ) is None && replay_readable(existing->0)
            }
            &&& existing is None && stored is None ==> fault == Some(Fault::TaskNotFound)
            &&& existing is None && stored is Some ==> {
                let row = stored->0;
                let charged = charge_fault(inputs, names, quota_now, true) is None;
                let waits = row.state@ == task::state_text(TaskState::InputRequired) || row.state@
                    == task::state_text(TaskState::AuthRequired);
                &&& fault is None <==> charged && waits && row.task is Some && row.task->0@ == c.task@
                    && row.context_id@ == c.task.context_id@ && -1 <= row.revision < i64::MAX
                &&& charged && !waits ==> fault == Some(Fault::TaskNoLongerAcceptsContinuation)
                &&& charged && waits && row.task is None ==> fault == Some(Fault::StoredTaskCorrupt)
                &&& charged && waits && row.task is Some && row.task->0@ != c.task@ ==> fault == Some(
                    Fault::ContinuationTaskMismatch,
                )
                &&& fault == Some(Fault::RevisionExhausted) && charged ==> row.revision == i64::MAX
                &&& !charged ==> fault == charge_fault(inputs, names, quota_now, true)
            }
        }),
{
}

/// What a continuation writes beside what an admission does: the task that took
/// up work again.
pub struct ContinuationPlan {
    pub plan: AdmissionPlan,
    pub task: Task,
}

/// The decision on a continuation.
pub enum ContinuationDecision {
    Replay { result: ReplayedResult, charge: ChargeOutcome },
    Continue(ContinuationPlan),
}

/// The reason that is recorded with a continuation.
pub fn continuation_audit(decision: &ContinuationDecision) -> (r: AuditReason)
    ensures
        r == (if *decision is Continue {
            AuditReason::ContinuationCommitted
        } else {
            AuditReason::ContinuationReplay
        }),
        *decision is Replay ==> r == AuditReason::ContinuationReplay,
        *decision is Continue ==> r == AuditReason::ContinuationCommitted,
{
    match decision {
        ContinuationDecision::Continue(_) => AuditReason::ContinuationCommitted,
        ContinuationDecision::Replay { .. } => AuditReason::ContinuationReplay,
    }
}

/// Decides a continuation from what is on record: a replay of the same request,
/// or the stored task put back to work at the next revision.
pub fn authorize_and_continue_mutation(
    c: &SendMessageAdmission,
    existing: &Option<IdempotencyRow>,
    request_digest: &str,
    names: &ChargeNames,
    inputs: &ChargeInputs,
    stored: &Option<StoredTask>,
    quota_now: i64,
) -> (r: Result<ContinuationDecision, Fault>)
    requires
        charge_ready(*inputs, quota_now),
        names.task_id@ == c.task.id@,
    ensures
        match r {
            Err(e) => continuation_fault(*c, *existing, request_digest@, *names, *inputs, *stored, quota_now) == Some(
                e,
            ),
            Ok(decision) => {
                &&& continuation_fault(*c, *existing, request_digest@, *names, *inputs, *stored, quota_now) is None
                &&& match decision {
                    ContinuationDecision::Replay { result, charge } => {
                        &&& existing is Some
                        &&& result == replayed_result(existing->0)
                        &&& charge_written(charge, *inputs, *names, quota_now, false)
                    },
                    ContinuationDecision::Continue(next) => {
                        &&& existing is None
                        &&& next.task@ == continued_task(c.task@, c.message@, task::rfc3339_of(c.now))
                        &&& next.plan.task_id@ == c.task.id@
                        &&& next.plan.revision == stored->0.revision + 1
                        &&& next.plan.dispatch_id@ == names.dispatch_id@
                        &&& next.plan.max_attempts == c.max_attempts
                        &&& next.plan.opens_transcript == c.streaming
                        &&& charge_written(next.plan.charge, *inputs, *names, quota_now, true)
                        &&& outbox_carries(next.plan.outbox, next.plan.charge, *inputs)
                    },
                }
            },
        },
        r matches Ok(decision) ==> (decision is Replay <==> existing is Some),
        r matches Ok(ContinuationDecision::Continue(next)) ==> next.task@.id == c.task@.id && next.task@.context_id
            == c.task@.context_id && next.plan.revision > stored->0.revision && next.task.status.state
            == TaskState::Working,
{
    if let Some(row) = existing {
        if !text::same_text(row.request_digest.as_str(), request_digest) {
            return Err(Fault::IdempotencyContinuationConflict);
        }
        return match charge_request(inputs, names, quota_now, false) {
            Err(e) => Err(e),
            Ok(charge) => if !is_replay_readable(row) {
                Err(Fault::StoredContinuationCorrupt)
            } else {
                Ok(ContinuationDecision::Replay { result: pick_result(row), charge })
            },
        };
    }
    let row = match stored {
        Some(row) => row,
        None => {
            return Err(Fault::TaskNotFound);
        },
    };
    let charge = match charge_request(inputs, names, quota_now, true) {
        Ok(charge) => charge,
        Err(e) => {
            return Err(e);
        },
    };
    if !text::same_text(row.state.as_str(), "\"TASK_STATE_INPUT_REQUIRED\"") && !text::same_text(
        row.state.as_str(),
        "\"TASK_STATE_AUTH_REQUIRED\"",
    ) {
        return Err(Fault::TaskNoLongerAcceptsContinuation);
    }
    let durable = match &row.task {
        Some(t) => t,
        None => {
            return Err(Fault::StoredTaskCorrupt);
        },
    };
    if !durable.same(&c.task) || durable.context_id != row.context_id {
        return Err(Fault::ContinuationTaskMismatch);
    }
    if row.revision == i64::MAX {
        return Err(Fault::RevisionExhausted);
    }
    let next: i64 = row.revision + 1;
    if next < 0 {
        return Err(Fault::TaskRevisionCorrupt);
    }
    let outbox = outbox_reservation(&charge, inputs);
    let resumed = continue_task(&c.task, &c.message, c.now);
    Ok(
        ContinuationDecision::Continue(
            ContinuationPlan {
                plan: AdmissionPlan {
                    task_id: c.task.id.clone(),
                    revision: next,
                    dispatch_id: names.dispatch_id.clone(),
                    max_attempts: c.max_attempts as i64,
                    opens_transcript: c.streaming,
                    charge,
                    outbox,
                },
                task: resumed,
            },
        ),
    )
}

/// A continuation only ever makes a transition that the lifecycle allows.
pub proof fn law_continuation_is_a_legal_transition(state: TaskState)
    requires
        accepts_continuation(task::state_text(state)),
    ensures
        task::transition_allowed(state, TaskState::Working),
        task::dispatch_closed(state),
{
    if task::state_text(state) == task::state_text(TaskState::InputRequired) {
        task::law_state_texts_are_distinct(state, TaskState::InputRequired);
    } else {
        task::law_state_texts_are_distinct(state, TaskState::AuthRequired);
    }
}

/// Whether a request may be replayed for this caller.
pub open spec fn replay_scope_matches(audit: AuthorizationAudit, scope: OwnedTaskScope, actor: Seq<char>) -> bool {
    audit.tenant_scope@ == scope.tenant_scope@ && audit.actor_account_id@ == actor && actor
        == scope.owner_account_id@ && audit.allow
}

/// Refuses a replay that the caller may not ask for.
pub fn preflight_replay(audit: &AuthorizationAudit, scope: &OwnedTaskScope, actor: &str) -> (r: Result<(), Fault>)
    ensures
        r == (if replay_scope_matches(*audit, *scope, actor@) {
            Ok::<(), Fault>(())
        } else {
            Err(Fault::AuthorizedReplayScopeMismatch)
        }),
{
    if audit.tenant_scope != scope.tenant_scope || !text::same_text(audit.actor_account_id.as_str(), actor)
        || !text::same_text(actor, scope.owner_account_id.as_str()) || !audit.allow {
        Err(Fault::AuthorizedReplayScopeMismatch)
    } else {
        Ok(())
    }
}

/// The final result of a request as it is stored, where it has one that can be read.
pub fn final_result_scoped(stored: Option<String>) -> (r: Result<Option<String>, Fault>)
    ensures
        r == (match stored {
            None => Ok::<Option<String>, Fault>(None),
            Some(result) => if task::response_readable_of(result@) {
                Ok(Some(result))
            } else {
                Err(Fault::StoredFinalResultCorrupt)
            },
        }),
        r matches Ok(found) ==> found == stored,
        stored is None ==> r is Ok,
        r is Err ==> stored is Some && !task::response_readable_of(stored->0@),
{
    match stored {
        None => Ok(None),
        Some(result) => if task::response_readable(result.as_str()) {
            Ok(Some(result))
        } else {
            Err(Fault::StoredFinalResultCorrupt)
        },
    }
}

/// The stored result that answers a replayed request, or none where the request
/// is new.
pub fn replay_authorized(existing: &Option<IdempotencyRow>, request_digest: &str) -> (r: Result<
    Option<ReplayedResult>,
    Fault,
>)
    ensures
        r == (match *existing {
            None => Ok::<Option<ReplayedResult>, Fault>(None),
            Some(row) => if row.request_digest@ != request_digest@ {
                Err(Fault::IdempotencyConflict)
            } else if !replay_readable(row) {
                Err(Fault::StoredIdempotencyCorrupt)
            } else {
                Ok(Some(replayed_result(row)))
            },
        }),
        r matches Ok(Some(result)) ==> *existing is Some && existing->0.request_digest@ == request_digest@ && (result
            == ReplayedResult::Final <==> existing->0.final_result is Some),
        *existing is Some && existing->0.request_digest@ != request_digest@ ==> r is Err,
{
    match existing {
        None => Ok(None),
        Some(row) => {
            if !text::same_text(row.request_digest.as_str(), request_digest) {
                return Err(Fault::IdempotencyConflict);
            }
            if !is_replay_readable(row) {
                return Err(Fault::StoredIdempotencyCorrupt);
            }
            Ok(Some(pick_result(row)))
        },
    }
}

/// Whether a record is the one that an admission leaves.
pub open spec fn admission_recorded(
    row: IdempotencyRow,
    task_id: Seq<char>,
    request_digest: Seq<char>,
    result: Seq<char>,
) -> bool {
    &&& row.request_digest@ == request_digest
    &&& row.task_id@ == task_id
    &&& row.admission_result@ == result
    &&& row.final_result is None
}

/// The record that an accepted request leaves, with the result that was given for it.
pub fn record_admission(plan: &AdmissionPlan, request_digest: &str, result: &str) -> (r: IdempotencyRow)
    ensures
        admission_recorded(r, plan.task_id@, request_digest@, result@),
{
    IdempotencyRow {
        request_digest: request_digest.to_owned(),
        task_id: plan.task_id.clone(),
        admission_result: result.to_owned(),
        final_result: None,
    }
}

/// Whether a record is another one that is unchanged but for the final result that it may
/// have by now.
pub open spec fn record_of(row: IdempotencyRow, left: IdempotencyRow) -> bool {
    &&& row.request_digest@ == left.request_digest@
    &&& row.task_id@ == left.task_id@
    &&& row.admission_result@ == left.admission_result@
}

/// A request that was admitted is admitted once, at revision one. Asked again under the
/// same message identity it is answered with the final result, where the task has one by
/// then, and else with the result of its admission; nothing but a charge is written.
/// Another request under that identity is refused.
pub proof fn law_admitted_requests_are_answered_again(
    first: SendMessageAdmission,
    first_names: ChargeNames,
    first_inputs: ChargeInputs,
    first_now: i64,
    plan: AdmissionPlan,
    first_digest: Seq<char>,
    first_result: Seq<char>,
    left: IdempotencyRow,
    row: IdempotencyRow,
    c: SendMessageAdmission,
    request_digest: Seq<char>,
    names: ChargeNames,
    inputs: ChargeInputs,
    task_count: i64,
    max_tasks: usize,
    task_taken: bool,
    callback: Option<InlineCallback>,
    quota_now: i64,
    answer: Result<AdmissionDecision, Fault>,
)
    requires
        admission_granted(AdmissionDecision::Admit(plan), first, None, first_names, first_inputs, first_now),
        admission_recorded(left, plan.task_id@, first_digest, first_result),
        record_of(row, left),
        replay_readable(row),
        charge_fault(inputs, names, quota_now, false) is None,
        admission_answered(
            answer,
            c,
            Some(row),
            request_digest,
            names,
            inputs,
            task_count,
            max_tasks,
            task_taken,
            callback,
            quota_now,
        ),
    ensures
        plan.revision == 1,
        request_digest == first_digest ==> {
            &&& answer matches Ok(AdmissionDecision::Replay { result, .. }) && result == replayed_result(row)
            &&& replayed_text(row) == (match row.final_result {
                Some(result) => result@,
                None => first_result,
            })
        },
        request_digest != first_digest ==> answer == Err::<AdmissionDecision, Fault>(
            Fault::IdempotencyAdmissionConflict,
        ),
{
}

/// A replay is asked for by an allowed caller for itself alone.
pub proof fn law_replays_are_asked_for_by_their_owner(
    audit: AuthorizationAudit,
    scope: OwnedTaskScope,
    actor: Seq<char>,
)
    ensures
        replay_scope_matches(audit, scope, actor) <==> audit.allow && audit_matches(audit, scope) && actor
            == audit.actor_account_id@,
        replay_scope_matches(audit, scope, actor) ==> actor == scope.owner_account_id@ && audit.tenant_scope@
            == scope.tenant_scope@,
{
}

/// The record that an admission leaves answers its own request with the result that was
/// given, and no other request.
pub proof fn law_records_answer_their_own_request(
    row: IdempotencyRow,
    task_id: Seq<char>,
    request_digest: Seq<char>,
    result: Seq<char>,
)
    requires
        admission_recorded(row, task_id, request_digest, result),
    ensures
        replayed_text(row) == result,
        replayed_result(row) == ReplayedResult::Admission,
        row.task_id@ == task_id,
        row.request_digest@ == request_digest,
        record_of(row, row),
{
}

/// A dispatch is named for the digest of its tenant and its message, each between separators, so
/// that neither can be taken for a part of the other.
pub proof fn law_dispatches_are_named_for_their_message(tenant: Seq<char>, message_id: Seq<char>)
    requires
        !tenant.contains('\0'),
        !message_id.contains('\0'),
    ensures
        exists|named: Seq<char>|
            dispatch_id_of(tenant, message_id) == #[trigger] crypto::content_digest_of(text::utf8(named))
                && text::fields(named, '\0') == seq![tenant, "send-message"@, message_id],
{
    reveal_strlit("\0send-message\0");
    reveal_strlit("send-message");
    let middle = "send-message"@;
    assert(!middle.contains('\0'));
    let named = tenant + "\0send-message\0"@ + message_id;
    let rest = middle.push('\0') + message_id;
    assert(named =~= tenant.push('\0') + rest);
    text::law_leading_fields_come_first(tenant, '\0', rest);
    text::law_leading_fields_come_first(middle, '\0', message_id);
    assert(text::fields(named, '\0') =~= seq![tenant, middle, message_id]);
    assert(dispatch_id_of(tenant, message_id) == crypto::content_digest_of(text::utf8(named)));
}

/// A new execution needs a budget; where it is not bound yet, its revision and its budget must fit
/// the columns, in this order. A replayed one must be on record, with a budget that is sound.
pub proof fn law_executions_need_a_sound_budget(q: QuotaInputs, names: ChargeNames)
    ensures
        q.intent.execution_budget is None ==> execution_fault(q, names, true) == Some(Fault::ExecutionBudgetMissing),
        q.intent.execution_budget is Some && q.bound is None ==> {
            let budget = q.intent.execution_budget->0;
            let limit = 0x7fff_ffff_ffff_ffffu64;
            &&& execution_fault(q, names, true) is None <==> q.intent.policy_revision <= limit && budget.max_output_bytes
                <= limit && budget.max_event_count <= limit
            &&& q.intent.policy_revision > limit ==> execution_fault(q, names, true) == Some(Fault::InvalidQuotaRevision)
            &&& q.intent.policy_revision <= limit && budget.max_output_bytes > limit ==> execution_fault(
                q,
                names,
                true,
            ) == Some(Fault::InvalidOutputBudget)
            &&& q.intent.policy_revision <= limit && budget.max_output_bytes <= limit && budget.max_event_count > limit
                ==> execution_fault(q, names, true) == Some(Fault::InvalidEventBudget)
        },
        q.replayed is None ==> execution_fault(q, names, false) == Some(Fault::ExecutionReservationRequiredForReplay),
        q.replayed is Some && execution_fault(q, names, false) is None ==> q.replayed->0.reserved_output_bytes >= 0
            && q.replayed->0.reserved_event_count >= 0 && q.replayed->0.budget_accepted,
{
}

/// A request reserves for the tenant, the owner and the task that it names: where it is charged, its
/// reservation is theirs, is written where there is none, and is left alone where it is bound.
pub proof fn law_requests_reserve_for_their_owner(
    out: ChargeOutcome,
    inputs: ChargeInputs,
    names: ChargeNames,
    now: i64,
    insert: bool,
)
    requires
        charge_written(out, inputs, names, now, insert),
    ensures
        inputs.reservation is Some ==> inputs.reservation->0.tenant_scope@ == names.tenant@
            && inputs.reservation->0.account_id@ == names.owner@,
        inputs.reservation is Some ==> (out.reservation == ReservationAction::Insert <==> inputs.stored_reservation is None)
            && (out.reservation == ReservationAction::AlreadyBound <==> inputs.stored_reservation is Some),
        inputs.reservation is Some && inputs.stored_reservation is None ==> insert && inputs.reservation->0.expires_at > now,
        inputs.reservation is None ==> !inputs.task_reserved && out.reservation == ReservationAction::Nothing,
{
}

/// A continuation under a key that was used for another request conflicts, and one whose record or
/// whose task on record is not sound is refused as corrupt.
pub proof fn law_continuations_rest_on_a_sound_record(
    c: SendMessageAdmission,
    existing: Option<IdempotencyRow>,
    request_digest: Seq<char>,
    names: ChargeNames,
    inputs: ChargeInputs,
    stored: Option<StoredTask>,
    quota_now: i64,
)
    ensures
        existing is Some && existing->0.request_digest@ != request_digest ==> continuation_fault(
            c,
            existing,
            request_digest,
            names,
            inputs,
            stored,
            quota_now,
        ) == Some(Fault::IdempotencyContinuationConflict),
        existing is Some && existing->0.request_digest@ == request_digest && charge_fault(
            inputs,
            names,
            quota_now,
            false,
        ) is None && !replay_readable(existing->0) ==> continuation_fault(
            c,
            existing,
            request_digest,
            names,
            inputs,
            stored,
            quota_now,
        ) == Some(Fault::StoredContinuationCorrupt),
        existing is None && stored is None ==> continuation_fault(
            c,
            existing,
            request_digest,
            names,
            inputs,
            stored,
            quota_now,
        ) == Some(Fault::TaskNotFound),
        continuation_fault(c, existing, request_digest, names, inputs, stored, quota_now) is None && existing is None ==> {
            let row = stored->0;
            &&& stored is Some
            &&& row.task is Some
            &&& row.task->0@ == c.task@
            &&& row.context_id@ == c.task.context_id@
            &&& 0 <= row.revision + 1 <= i64::MAX
            &&& accepts_continuation(row.state@)
        },
        existing is None && stored is Some && charge_fault(inputs, names, quota_now, true) is None
            && accepts_continuation(stored->0.state@) && stored->0.task is Some && stored->0.task->0@ == c.task@
            && stored->0.context_id@ == c.task.context_id@ && stored->0.revision < -1 ==> continuation_fault(
            c,
            existing,
            request_digest,
            names,
            inputs,
            stored,
            quota_now,
        ) == Some(Fault::TaskRevisionCorrupt),
{
}

/// A replayed execution that is not the request's conflicts with it, and one whose budget on record
/// is not sound is told so: first its output, then its events, then the budget as a whole.
pub proof fn law_replayed_budgets_are_told_apart(q: QuotaInputs, names: ChargeNames)
    ensures
        q.replayed is Some ==> {
            let row = q.replayed->0;
            let own = reservation::replayed_execution_matches(
                row,
                q.intent,
                names.task_id@,
                names.message_id@,
                names.dispatch_id@,
            );
            let fault = execution_fault(q, names, false);
            &&& !own ==> fault == Some(Fault::ExecutionReservationKeyConflict)
            &&& own && row.reserved_output_bytes < 0 ==> fault == Some(Fault::StoredOutputBudgetCorrupt)
            &&& own && row.reserved_output_bytes >= 0 && row.reserved_event_count < 0 ==> fault == Some(
                Fault::StoredEventBudgetCorrupt,
            )
            &&& own && row.reserved_output_bytes >= 0 && row.reserved_event_count >= 0 && !row.budget_accepted ==> fault
                == Some(Fault::StoredExecutionBudgetCorrupt)
            &&& own && row.reserved_output_bytes >= 0 && row.reserved_event_count >= 0 && row.budget_accepted
                ==> fault is None
        },
        q.bound is Some && q.intent.execution_budget is Some ==> (execution_fault(q, names, true) is None
            <==> reservation::bound_execution_matches(
            q.bound->0,
            q.intent,
            q.intent.execution_budget->0,
            names.task_id@,
            names.message_id@,
            names.dispatch_id@,
        )) && (execution_fault(q, names, true) is Some ==> execution_fault(q, names, true) == Some(
            Fault::ExecutionReservationKeyConflict,
        )),
{
}

/// An inline callback is refused for its numbers, then for its enrollment, then for want of room in
/// the tenant and at the task, and last for want of a quota intent.
pub proof fn law_inline_callbacks_are_refused_in_order(c: InlineCallback, has_intent: bool)
    ensures
        inline_callback_fault(None, has_intent) is None,
        ({
            let fault = inline_callback_fault(Some(c), has_intent);
            let limit = 0x7fff_ffff_ffff_ffffu64;
            let counted = c.enrollment_generation <= limit && c.policy_revision <= limit;
            let roomy = c.tenant_configs < c.max_configs_per_tenant;
            &&& c.enrollment_generation > limit ==> fault == Some(Fault::InvalidCallbackGeneration)
            &&& c.enrollment_generation <= limit && c.policy_revision > limit ==> fault == Some(
                Fault::CallbackPolicyCorrupt,
            )
            &&& counted && !c.enrolled ==> fault == Some(Fault::CallbackEnrollmentNotAuthorizedParams)
            &&& counted && c.enrolled && !roomy ==> fault == Some(Fault::CallbackTenantCapacity)
            &&& counted && c.enrolled && roomy && c.task_configs >= c.max_configs_per_task ==> fault == Some(
                Fault::CallbackConfigCapacityParams,
            )
            &&& counted && c.enrolled && roomy && c.task_configs < c.max_configs_per_task && !has_intent ==> fault == Some(
                Fault::QuotaAuthorityUnavailable,
            )
            &&& counted && c.enrolled && roomy && c.task_configs < c.max_configs_per_task && has_intent ==> fault is None
        }),
{
}

/// A task whose revisions are used up is not continued.
pub proof fn law_exhausted_tasks_are_not_continued(
    c: SendMessageAdmission,
    request_digest: Seq<char>,
    names: ChargeNames,
    inputs: ChargeInputs,
    row: StoredTask,
    quota_now: i64,
)
    requires
        accepts_continuation(row.state@),
        row.task is Some,
        row.task->0@ == c.task@,
        row.context_id@ == c.task.context_id@,
    ensures
        charge_fault(inputs, names, quota_now, true) is None && row.revision == 0x7fff_ffff_ffff_ffff
            ==> continuation_fault(c, None, request_digest, names, inputs, Some(row), quota_now) == Some(
            Fault::RevisionExhausted,
        ),
        charge_fault(inputs, names, quota_now, true) is None && -1 <= row.revision < 0x7fff_ffff_ffff_ffff
            ==> continuation_fault(c, None, request_digest, names, inputs, Some(row), quota_now) is None,
{
}

} // verus!
