//! Quota reservations, execution budgets, quota leases and denial audits.

use vstd::prelude::*;

use crate::crypto;
use crate::fault::Fault;
use crate::quota;
use crate::quota::{Charge, ExecutionBudget, QuotaDimension, QuotaIntent, QuotaLeaseKind, QuotaOperation};
use crate::text;

verus! {

/// A reservation that accompanies a mutation.
#[derive(Clone)]
pub struct QuotaReservationInput {
    pub tenant_scope: String,
    pub account_id: String,
    pub principal_scope: String,
    pub operation: String,
    pub dimension: String,
    pub units: u64,
    pub reservation_id: String,
    pub expires_at: i64,
    pub metadata: Option<String>,
}

/// A stored reservation.
pub struct StoredReservation {
    pub account_id: String,
    pub principal_scope: String,
    pub operation: String,
    pub dimension: String,
    pub units: i64,
    pub task_id: String,
    pub expires_at: i64,
    pub metadata: Option<String>,
}

/// What a reservation asks of the store.
#[derive(Clone, Copy, Debug, PartialEq, Eq, Structural)]
pub enum ReservationAction {
    /// The mutation carries no reservation and the task has none.
    Nothing,
    /// The reservation is written.
    Insert,
    /// The reservation is already on record for this mutation.
    AlreadyBound,
}

/// Whether a stored reservation is the one that the mutation carries.
pub open spec fn reservation_exact(
    row: StoredReservation,
    q: QuotaReservationInput,
    account: Seq<char>,
    task_id: Seq<char>,
) -> bool {
    &&& row.account_id@ == account
    &&& row.principal_scope@ == q.principal_scope@
    &&& row.operation@ == q.operation@
    &&& row.dimension@ == q.dimension@
    &&& row.units == (if q.units <= i64::MAX { q.units as int } else { -1 })
    &&& row.task_id@ == task_id
    &&& row.expires_at == q.expires_at
    &&& text::opt_text(row.metadata) == text::opt_text(q.metadata)
}

/// What a reservation asks of the store, or why the mutation is refused. `stored`
/// is the reservation on record under the same id and `task_reserved` tells
/// whether the task has any.
pub open spec fn reservation_outcome(
    quota: Option<QuotaReservationInput>,
    tenant: Seq<char>,
    account: Seq<char>,
    task_id: Seq<char>,
    stored: Option<StoredReservation>,
    task_reserved: bool,
    now: i64,
    insert_if_missing: bool,
) -> Result<ReservationAction, Fault> {
    match quota {
        None => if task_reserved {
            Err(Fault::QuotaReservationRequiredForReplay)
        } else {
            Ok(ReservationAction::Nothing)
        },
        Some(q) => if q.tenant_scope@ != tenant || q.account_id@ != account {
            Err(Fault::QuotaReservationScopeMismatch)
        } else if insert_if_missing && q.expires_at <= now {
            Err(Fault::QuotaReservationExpired)
        } else if insert_if_missing && q.units > i64::MAX {
            Err(Fault::InvalidQuotaUnits)
        } else {
            match stored {
                None => if insert_if_missing {
                    Ok(ReservationAction::Insert)
                } else {
                    Err(Fault::QuotaReservationNotBound)
                },
                Some(row) => if reservation_exact(row, q, account, task_id) {
                    Ok(ReservationAction::AlreadyBound)
                } else {
                    Err(Fault::QuotaReservationKeyConflict)
                },
            }
        },
    }
}

/// Decides what the reservation of a mutation asks of the store.
pub fn insert_quota_reservation(
    quota: &Option<QuotaReservationInput>,
    tenant: &str,
    account: &str,
    task_id: &str,
    stored: &Option<StoredReservation>,
    task_reserved: bool,
    now: i64,
    insert_if_missing: bool,
) -> (r: Result<ReservationAction, Fault>)
    ensures
        r == reservation_outcome(
            *quota,
            tenant@,
            account@,
            task_id@,
            *stored,
            task_reserved,
            now,
            insert_if_missing,
        ),
{
    match quota {
        None => if task_reserved {
            Err(Fault::QuotaReservationRequiredForReplay)
        } else {
            Ok(ReservationAction::Nothing)
        },
        Some(q) => {
            if !text::same_text(q.tenant_scope.as_str(), tenant) || !text::same_text(
                q.account_id.as_str(),
                account,
            ) {
                return Err(Fault::QuotaReservationScopeMismatch);
            }
            if insert_if_missing {
                if q.expires_at <= now {
                    return Err(Fault::QuotaReservationExpired);
                }
                if q.units > 0x7fff_ffff_ffff_ffff {
                    return Err(Fault::InvalidQuotaUnits);
                }
            }
            match stored {
                None => if insert_if_missing {
                    Ok(ReservationAction::Insert)
                } else {
                    Err(Fault::QuotaReservationNotBound)
                },
                Some(row) => {
                    let units: i64 = if q.units <= 0x7fff_ffff_ffff_ffff {
                        q.units as i64
                    } else {
                        -1
                    };
                    if text::same_text(row.account_id.as_str(), account) && row.principal_scope
                        == q.principal_scope && row.operation == q.operation && row.dimension == q.dimension
                        && row.units == units && text::same_text(row.task_id.as_str(), task_id)
                        && row.expires_at == q.expires_at && text::same_opt_text(&row.metadata, &q.metadata) {
                        Ok(ReservationAction::AlreadyBound)
                    } else {
                        Err(Fault::QuotaReservationKeyConflict)
                    }
                },
            }
        },
    }
}

/// A reservation is taken or found only for the tenant and account that the mutation
/// belongs to, and no mutation goes through without the reservation that its task has.
pub proof fn law_reservations_stay_with_their_caller(
    quota: Option<QuotaReservationInput>,
    tenant: Seq<char>,
    account: Seq<char>,
    task_id: Seq<char>,
    stored: Option<StoredReservation>,
    task_reserved: bool,
    now: i64,
    insert_if_missing: bool,
)
    ensures
        quota is None && task_reserved ==> reservation_outcome(
            quota,
            tenant,
            account,
            task_id,
            stored,
            task_reserved,
            now,
            insert_if_missing,
        ) == Err::<ReservationAction, Fault>(Fault::QuotaReservationRequiredForReplay),
        quota is None && !task_reserved ==> reservation_outcome(
            quota,
            tenant,
            account,
            task_id,
            stored,
            task_reserved,
            now,
            insert_if_missing,
        ) == Ok::<ReservationAction, Fault>(ReservationAction::Nothing),
        quota matches Some(q) && (q.tenant_scope@ != tenant || q.account_id@ != account) ==> reservation_outcome(
            quota,
            tenant,
            account,
            task_id,
            stored,
            task_reserved,
            now,
            insert_if_missing,
        ) == Err::<ReservationAction, Fault>(Fault::QuotaReservationScopeMismatch),
{
}

/// A reservation is written only while it has not expired and where its units can be
/// counted, and only where none is on record; a replay never writes one.
pub proof fn law_reservations_are_written_once(
    q: QuotaReservationInput,
    task_id: Seq<char>,
    stored: Option<StoredReservation>,
    task_reserved: bool,
    now: i64,
    insert_if_missing: bool,
)
    ensures
        ({
            let r = reservation_outcome(
                Some(q),
                q.tenant_scope@,
                q.account_id@,
                task_id,
                stored,
                task_reserved,
                now,
                insert_if_missing,
            );
            &&& r == Ok::<ReservationAction, Fault>(ReservationAction::Insert) <==> insert_if_missing && q.expires_at
                > now && q.units <= i64::MAX && stored is None
            &&& insert_if_missing && q.expires_at <= now ==> r == Err::<ReservationAction, Fault>(
                Fault::QuotaReservationExpired,
            )
            &&& insert_if_missing && q.expires_at > now && q.units > i64::MAX ==> r == Err::<ReservationAction, Fault>(
                Fault::InvalidQuotaUnits,
            )
            &&& !insert_if_missing && stored is None ==> r == Err::<ReservationAction, Fault>(
                Fault::QuotaReservationNotBound,
            )
        }),
{
}

/// What a mutation wrote is found when the same mutation comes again, as long as the
/// reservation runs; a replay finds it after that too.
pub proof fn law_written_reservations_are_found(
    q: QuotaReservationInput,
    task_id: Seq<char>,
    row: StoredReservation,
    task_reserved: bool,
    now: i64,
    insert_if_missing: bool,
)
    requires
        q.units <= i64::MAX,
        q.expires_at > now || !insert_if_missing,
        row.account_id@ == q.account_id@,
        row.principal_scope@ == q.principal_scope@,
        row.operation@ == q.operation@,
        row.dimension@ == q.dimension@,
        row.units == q.units,
        row.task_id@ == task_id,
        row.expires_at == q.expires_at,
        text::opt_text(row.metadata) == text::opt_text(q.metadata),
    ensures
        reservation_outcome(
            Some(q),
            q.tenant_scope@,
            q.account_id@,
            task_id,
            Some(row),
            task_reserved,
            now,
            insert_if_missing,
        ) == Ok::<ReservationAction, Fault>(ReservationAction::AlreadyBound),
{
}

/// One reservation on record serves one mutation: two that find it agree on the account,
/// the principal, the operation, the dimension, the units, the task, the expiry and the
/// metadata.
pub proof fn law_reservations_serve_one_mutation(
    a: QuotaReservationInput,
    a_task: Seq<char>,
    b: QuotaReservationInput,
    b_task: Seq<char>,
    row: StoredReservation,
    task_reserved: bool,
    now: i64,
    insert_if_missing: bool,
)
    requires
        reservation_outcome(
            Some(a),
            a.tenant_scope@,
            a.account_id@,
            a_task,
            Some(row),
            task_reserved,
            now,
            insert_if_missing,
        ) is Ok,
        reservation_outcome(
            Some(b),
            b.tenant_scope@,
            b.account_id@,
            b_task,
            Some(row),
            task_reserved,
            now,
            insert_if_missing,
        ) is Ok,
        a.units <= i64::MAX,
        b.units <= i64::MAX,
    ensures
        a.account_id@ == b.account_id@,
        a.principal_scope@ == b.principal_scope@,
        a.operation@ == b.operation@,
        a.dimension@ == b.dimension@,
        a.units == b.units,
        a_task == b_task,
        a.expires_at == b.expires_at,
        a.metadata is Some <==> b.metadata is Some,
        a.metadata is Some ==> a.metadata->0@ == b.metadata->0@,
{
}

/// The id of the execution reservation of a charged intent.
pub open spec fn execution_reservation_id(tenant: Seq<char>, binding: Seq<char>) -> Seq<char> {
    crypto::content_digest_of(text::utf8("execution-reservation-v1\0"@ + tenant + "\0"@ + binding))
}

/// Computes the id of the execution reservation of a charged intent.
pub fn execution_reservation_key(intent: &QuotaIntent) -> (r: String)
    ensures
        r@ == execution_reservation_id(intent.tenant_scope@, intent.binding_digest@),
{
    let mut key = "execution-reservation-v1\0".to_owned();
    key.append(intent.tenant_scope.as_str());
    key.append("\0");
    key.append(intent.binding_digest.as_str());
    crypto::text_digest(key.as_str())
}

/// The execution reservation on record for a dispatch. `budget_accepted` tells
/// whether its two budgets form an execution budget.
pub struct ReplayedExecution {
    pub reservation_id: String,
    pub reserved_output_bytes: i64,
    pub reserved_event_count: i64,
    pub account_id: String,
    pub principal_scope: String,
    pub operation: Option<QuotaOperation>,
    pub task_id: String,
    pub message_id: String,
    pub dispatch_id: String,
    pub budget_accepted: bool,
}

/// The execution reservation on record under an intent's reservation id.
pub struct BoundExecution {
    pub binding_digest: String,
    pub policy_id: String,
    pub policy_revision: i64,
    pub policy_digest: String,
    pub account_id: String,
    pub principal_scope: String,
    pub operation: Option<QuotaOperation>,
    pub task_id: String,
    pub message_id: String,
    pub dispatch_id: String,
    pub reserved_output_bytes: i64,
    pub reserved_event_count: i64,
    pub reservation_version: i64,
}

/// The execution that an admission is bound to, and whether it is written now.
pub struct ExecutionBinding {
    pub reservation_id: String,
    pub budget: ExecutionBudget,
    pub insert: bool,
}

/// Whether the execution on record for a dispatch is this request's.
pub open spec fn replayed_execution_matches(
    row: ReplayedExecution,
    intent: QuotaIntent,
    task_id: Seq<char>,
    message_id: Seq<char>,
    dispatch_id: Seq<char>,
) -> bool {
    &&& row.account_id@ == intent.account_id@
    &&& row.principal_scope@ == intent.principal_scope@
    &&& row.operation == Some(intent.operation)
    &&& row.task_id@ == task_id
    &&& row.message_id@ == message_id
    &&& row.dispatch_id@ == dispatch_id
}

/// A number as it is stored, or one that matches no stored number.
pub open spec fn stored_or_none(v: u64) -> int {
    if v <= i64::MAX {
        v as int
    } else {
        -1
    }
}

/// Whether the execution on record under an intent's reservation id is this one.
pub open spec fn bound_execution_matches(
    row: BoundExecution,
    intent: QuotaIntent,
    budget: ExecutionBudget,
    task_id: Seq<char>,
    message_id: Seq<char>,
    dispatch_id: Seq<char>,
) -> bool {
    &&& row.binding_digest@ == intent.binding_digest@
    &&& row.policy_id@ == intent.policy_id@
    &&& row.policy_revision == stored_or_none(intent.policy_revision)
    &&& row.policy_digest@ == intent.policy_digest@
    &&& row.account_id@ == intent.account_id@
    &&& row.principal_scope@ == intent.principal_scope@
    &&& row.operation == Some(intent.operation)
    &&& row.task_id@ == task_id
    &&& row.message_id@ == message_id
    &&& row.dispatch_id@ == dispatch_id
    &&& row.reserved_output_bytes == stored_or_none(budget.max_output_bytes)
    &&& row.reserved_event_count == stored_or_none(budget.max_event_count)
    &&& row.reservation_version == 1
}

/// One execution on record belongs to one request: two requests that it matches agree on
/// the binding, the policy, the caller, the operation, the task, the message, the dispatch
/// and the budget.
pub proof fn law_bound_executions_serve_one_request(
    row: BoundExecution,
    a: QuotaIntent,
    a_budget: ExecutionBudget,
    a_task: Seq<char>,
    a_message: Seq<char>,
    a_dispatch: Seq<char>,
    b: QuotaIntent,
    b_budget: ExecutionBudget,
    b_task: Seq<char>,
    b_message: Seq<char>,
    b_dispatch: Seq<char>,
)
    requires
        bound_execution_matches(row, a, a_budget, a_task, a_message, a_dispatch),
        bound_execution_matches(row, b, b_budget, b_task, b_message, b_dispatch),
    ensures
        a.binding_digest@ == b.binding_digest@,
        a.policy_id@ == b.policy_id@,
        a.policy_digest@ == b.policy_digest@,
        a.account_id@ == b.account_id@,
        a.principal_scope@ == b.principal_scope@,
        a.operation == b.operation,
        a_task == b_task,
        a_message == b_message,
        a_dispatch == b_dispatch,
        a.policy_revision == b.policy_revision || a.policy_revision > i64::MAX && b.policy_revision > i64::MAX,
        a_budget.max_output_bytes == b_budget.max_output_bytes || a_budget.max_output_bytes > i64::MAX
            && b_budget.max_output_bytes > i64::MAX,
        a_budget.max_event_count == b_budget.max_event_count || a_budget.max_event_count > i64::MAX
            && b_budget.max_event_count > i64::MAX,
        row.reservation_version == 1,
{
}

/// What an admission reserved is found when the same request binds again.
pub proof fn law_reserved_executions_are_found(
    row: BoundExecution,
    intent: QuotaIntent,
    budget: ExecutionBudget,
)
    requires
        row.binding_digest@ == intent.binding_digest@,
        row.policy_id@ == intent.policy_id@,
        row.policy_revision == intent.policy_revision,
        row.policy_digest@ == intent.policy_digest@,
        row.account_id@ == intent.account_id@,
        row.principal_scope@ == intent.principal_scope@,
        row.operation == Some(intent.operation),
        row.reserved_output_bytes == budget.max_output_bytes,
        row.reserved_event_count == budget.max_event_count,
        row.reservation_version == 1,
    ensures
        bound_execution_matches(row, intent, budget, row.task_id@, row.message_id@, row.dispatch_id@),
{
}

/// A replay finds an execution exactly for the caller, operation, task, message and dispatch
/// on record.
pub proof fn law_replayed_executions_serve_their_dispatch(
    row: ReplayedExecution,
    a: QuotaIntent,
    a_task: Seq<char>,
    a_message: Seq<char>,
    a_dispatch: Seq<char>,
    b: QuotaIntent,
    b_task: Seq<char>,
    b_message: Seq<char>,
    b_dispatch: Seq<char>,
)
    requires
        replayed_execution_matches(row, a, a_task, a_message, a_dispatch),
    ensures
        replayed_execution_matches(row, b, b_task, b_message, b_dispatch) <==> a.account_id@ == b.account_id@
            && a.principal_scope@ == b.principal_scope@ && a.operation == b.operation && a_task == b_task
            && a_message == b_message && a_dispatch == b_dispatch,
        a_task == row.task_id@,
        a_dispatch == row.dispatch_id@,
{
}

fn stored_number(v: u64) -> (r: i64)
    ensures
        r == stored_or_none(v),
{
    if v <= 0x7fff_ffff_ffff_ffff {
        v as i64
    } else {
        -1
    }
}

fn same_operation(a: &Option<QuotaOperation>, b: QuotaOperation) -> (r: bool)
    ensures
        r == (*a == Some(b)),
{
    match a {
        Some(x) => *x == b,
        None => false,
    }
}

/// The execution that a replayed admission finds on record.
pub fn replay_execution_reservation(
    row: &Option<ReplayedExecution>,
    intent: &QuotaIntent,
    task_id: &str,
    message_id: &str,
    dispatch_id: &str,
) -> (r: Result<ExecutionBinding, Fault>)
    ensures
        match *row {
            None => r == Err::<ExecutionBinding, Fault>(Fault::ExecutionReservationRequiredForReplay),
            Some(found) => if !replayed_execution_matches(found, *intent, task_id@, message_id@, dispatch_id@) {
                r == Err::<ExecutionBinding, Fault>(Fault::ExecutionReservationKeyConflict)
            } else if found.reserved_output_bytes < 0 {
                r == Err::<ExecutionBinding, Fault>(Fault::StoredOutputBudgetCorrupt)
            } else if found.reserved_event_count < 0 {
                r == Err::<ExecutionBinding, Fault>(Fault::StoredEventBudgetCorrupt)
            } else if !found.budget_accepted {
                r == Err::<ExecutionBinding, Fault>(Fault::StoredExecutionBudgetCorrupt)
            } else {
                r matches Ok(b) && b.reservation_id@ == found.reservation_id@ && b.budget == (ExecutionBudget {
                    max_output_bytes: found.reserved_output_bytes as u64,
                    max_event_count: found.reserved_event_count as u64,
                }) && !b.insert
            },
        },
        r matches Ok(b) ==> row is Some && row->0.account_id@ == intent.account_id@ && row->0.principal_scope@
            == intent.principal_scope@ && row->0.task_id@ == task_id@ && row->0.message_id@ == message_id@
            && row->0.dispatch_id@ == dispatch_id@ && b.budget.max_output_bytes == row->0.reserved_output_bytes
            && b.budget.max_event_count == row->0.reserved_event_count && b.reservation_id@ == row->0.reservation_id@
            && !b.insert,
{
    match row {
        None => Err(Fault::ExecutionReservationRequiredForReplay),
        Some(found) => {
            if found.account_id != intent.account_id || found.principal_scope != intent.principal_scope
                || !same_operation(&found.operation, intent.operation) || !text::same_text(
                found.task_id.as_str(),
                task_id,
            ) || !text::same_text(found.message_id.as_str(), message_id) || !text::same_text(
                found.dispatch_id.as_str(),
                dispatch_id,
            ) {
                return Err(Fault::ExecutionReservationKeyConflict);
            }
            if found.reserved_output_bytes < 0 {
                return Err(Fault::StoredOutputBudgetCorrupt);
            }
            if found.reserved_event_count < 0 {
                return Err(Fault::StoredEventBudgetCorrupt);
            }
            if !found.budget_accepted {
                return Err(Fault::StoredExecutionBudgetCorrupt);
            }
            Ok(
                ExecutionBinding {
                    reservation_id: found.reservation_id.clone(),
                    budget: ExecutionBudget {
                        max_output_bytes: found.reserved_output_bytes as u64,
                        max_event_count: found.reserved_event_count as u64,
                    },
                    insert: false,
                },
            )
        },
    }
}

/// The execution that a new admission reserves, or finds reserved already.
pub fn bind_execution_reservation(
    row: &Option<BoundExecution>,
    intent: &QuotaIntent,
    task_id: &str,
    message_id: &str,
    dispatch_id: &str,
) -> (r: Result<ExecutionBinding, Fault>)
    ensures
        match intent.execution_budget {
            None => r == Err::<ExecutionBinding, Fault>(Fault::ExecutionBudgetMissing),
            Some(budget) => match *row {
                Some(found) => if bound_execution_matches(
                    found,
                    *intent,
                    budget,
                    task_id@,
                    message_id@,
                    dispatch_id@,
                ) {
                    r matches Ok(b) && b.reservation_id@ == execution_reservation_id(
                        intent.tenant_scope@,
                        intent.binding_digest@,
                    ) && b.budget == budget && !b.insert
                } else {
                    r == Err::<ExecutionBinding, Fault>(Fault::ExecutionReservationKeyConflict)
                },
                None => if intent.policy_revision > i64::MAX {
                    r == Err::<ExecutionBinding, Fault>(Fault::InvalidQuotaRevision)
                } else if budget.max_output_bytes > i64::MAX {
                    r == Err::<ExecutionBinding, Fault>(Fault::InvalidOutputBudget)
                } else if budget.max_event_count > i64::MAX {
                    r == Err::<ExecutionBinding, Fault>(Fault::InvalidEventBudget)
                } else {
                    r matches Ok(b) && b.reservation_id@ == execution_reservation_id(
                        intent.tenant_scope@,
                        intent.binding_digest@,
                    ) && b.budget == budget && b.insert
                },
            },
        },
        r matches Ok(b) ==> intent.execution_budget == Some(b.budget) && (b.insert <==> row is None),
        r is Ok && row is Some ==> bound_execution_matches(
            row->0,
            *intent,
            intent.execution_budget->0,
            task_id@,
            message_id@,
            dispatch_id@,
        ),
        r is Err && row is None && intent.execution_budget is Some ==> intent.policy_revision > 0x7fff_ffff_ffff_ffff
            || intent.execution_budget->0.max_output_bytes > 0x7fff_ffff_ffff_ffff
            || intent.execution_budget->0.max_event_count > 0x7fff_ffff_ffff_ffff,
{
    let budget = match intent.execution_budget {
        Some(budget) => budget,
        None => {
            return Err(Fault::ExecutionBudgetMissing);
        },
    };
    let reservation_id = execution_reservation_key(intent);
    match row {
        Some(found) => {
            let exact = found.binding_digest == intent.binding_digest && found.policy_id == intent.policy_id
                && found.policy_revision == stored_number(intent.policy_revision) && found.policy_digest
                == intent.policy_digest && found.account_id == intent.account_id && found.principal_scope
                == intent.principal_scope && same_operation(&found.operation, intent.operation)
                && text::same_text(found.task_id.as_str(), task_id) && text::same_text(
                found.message_id.as_str(),
                message_id,
            ) && text::same_text(found.dispatch_id.as_str(), dispatch_id) && found.reserved_output_bytes
                == stored_number(budget.max_output_bytes) && found.reserved_event_count == stored_number(
                budget.max_event_count,
            ) && found.reservation_version == 1;
            if exact {
                Ok(ExecutionBinding { reservation_id, budget, insert: false })
            } else {
                Err(Fault::ExecutionReservationKeyConflict)
            }
        },
        None => {
            if intent.policy_revision > 0x7fff_ffff_ffff_ffff {
                return Err(Fault::InvalidQuotaRevision);
            }
            if budget.max_output_bytes > 0x7fff_ffff_ffff_ffff {
                return Err(Fault::InvalidOutputBudget);
            }
            if budget.max_event_count > 0x7fff_ffff_ffff_ffff {
                return Err(Fault::InvalidEventBudget);
            }
            Ok(ExecutionBinding { reservation_id, budget, insert: true })
        },
    }
}

/// The execution reservation that an outbox or receiver lease carries.
pub struct ExecutionReservation {
    pub reservation_id: String,
    pub reservation_version: u64,
    pub binding_digest: String,
    pub policy_id: String,
    pub policy_revision: u64,
    pub policy_digest: String,
    pub budget: ExecutionBudget,
}

/// Whether two optional execution reservations are equal.
pub open spec fn reservations_equal(a: Option<ExecutionReservation>, b: Option<ExecutionReservation>) -> bool {
    match (a, b) {
        (None, None) => true,
        (Some(x), Some(y)) => {
            &&& x.reservation_id@ == y.reservation_id@
            &&& x.reservation_version == y.reservation_version
            &&& x.binding_digest@ == y.binding_digest@
            &&& x.policy_id@ == y.policy_id@
            &&& x.policy_revision == y.policy_revision
            &&& x.policy_digest@ == y.policy_digest@
            &&& x.budget == y.budget
        },
        _ => false,
    }
}

/// Compares two optional execution reservations.
pub fn same_reservation(a: &Option<ExecutionReservation>, b: &Option<ExecutionReservation>) -> (r: bool)
    ensures
        r == reservations_equal(*a, *b),
{
    match (a, b) {
        (None, None) => true,
        (Some(x), Some(y)) => x.reservation_id == y.reservation_id && x.reservation_version
            == y.reservation_version && x.binding_digest == y.binding_digest && x.policy_id == y.policy_id
            && x.policy_revision == y.policy_revision && x.policy_digest == y.policy_digest && x.budget
            == y.budget,
        _ => false,
    }
}

/// A copy of an optional execution reservation.
pub fn copy_reservation(a: &Option<ExecutionReservation>) -> (r: Option<ExecutionReservation>)
    ensures
        reservations_equal(r, *a),
{
    match a {
        None => None,
        Some(x) => Some(
            ExecutionReservation {
                reservation_id: x.reservation_id.clone(),
                reservation_version: x.reservation_version,
                binding_digest: x.binding_digest.clone(),
                policy_id: x.policy_id.clone(),
                policy_revision: x.policy_revision,
                policy_digest: x.policy_digest.clone(),
                budget: x.budget,
            },
        ),
    }
}

/// The columns of an execution reservation as they are joined to a dispatch.
/// `budget_accepted` tells whether its two budgets form an execution budget.
pub struct ReservationColumns {
    pub binding_digest: Option<String>,
    pub reservation_id: Option<String>,
    pub reservation_version: Option<i64>,
    pub reserved_output_bytes: Option<i64>,
    pub reserved_event_count: Option<i64>,
    pub policy_id: Option<String>,
    pub policy_revision: Option<i64>,
    pub policy_digest: Option<String>,
    pub budget_accepted: bool,
}

/// Whether a dispatch has no reservation at all.
pub open spec fn columns_empty(c: ReservationColumns) -> bool {
    c.binding_digest is None && c.reservation_id is None && c.reservation_version is None
        && c.reserved_output_bytes is None && c.reserved_event_count is None && c.policy_id is None
        && c.policy_revision is None && c.policy_digest is None
}

/// Whether a dispatch has every column of a reservation.
pub open spec fn columns_full(c: ReservationColumns) -> bool {
    c.binding_digest is Some && c.reservation_id is Some && c.reservation_version is Some
        && c.reserved_output_bytes is Some && c.reserved_event_count is Some && c.policy_id is Some
        && c.policy_revision is Some && c.policy_digest is Some
}

/// Whether a reservation holds what the columns hold.
pub open spec fn reservation_from_columns(r: ExecutionReservation, c: ReservationColumns) -> bool {
    &&& columns_full(c)
    &&& r.reservation_id@ == c.reservation_id->0@
    &&& r.reservation_version == c.reservation_version->0
    &&& r.binding_digest@ == c.binding_digest->0@
    &&& r.policy_id@ == c.policy_id->0@
    &&& r.policy_revision == c.policy_revision->0
    &&& r.policy_digest@ == c.policy_digest->0@
    &&& r.budget.max_output_bytes == c.reserved_output_bytes->0
    &&& r.budget.max_event_count == c.reserved_event_count->0
}

/// Why columns do not form a reservation.
pub open spec fn columns_fault(c: ReservationColumns) -> Option<Fault> {
    if columns_empty(c) {
        None
    } else if !columns_full(c) {
        Some(Fault::ExecutionReservationIncomplete)
    } else if c.reservation_version->0 < 0 {
        Some(Fault::ExecutionReservationVersionCorrupt)
    } else if c.policy_revision->0 < 0 {
        Some(Fault::ExecutionReservationPolicyCorrupt)
    } else if c.reserved_output_bytes->0 < 0 {
        Some(Fault::ExecutionOutputBudgetCorrupt)
    } else if c.reserved_event_count->0 < 0 {
        Some(Fault::ExecutionEventBudgetCorrupt)
    } else if !c.budget_accepted {
        Some(Fault::ExecutionReservationBudgetCorrupt)
    } else {
        None
    }
}

/// Reads the reservation of a dispatch: all of its columns, or none.
pub fn read_reservation(c: &ReservationColumns) -> (r: Result<Option<ExecutionReservation>, Fault>)
    ensures
        match r {
            Ok(None) => columns_empty(*c),
            Ok(Some(found)) => columns_fault(*c) is None && reservation_from_columns(found, *c),
            Err(e) => columns_fault(*c) == Some(e),
        },
        r matches Ok(Some(found)) ==> c.reservation_id matches Some(id) && found.reservation_id@ == id@,
        r matches Ok(Some(found)) ==> found.budget.max_output_bytes == c.reserved_output_bytes->0
            && found.budget.max_event_count == c.reserved_event_count->0 && c.budget_accepted,
        r matches Ok(None) ==> c.reservation_id is None && c.binding_digest is None,
{
    match (
        &c.binding_digest,
        &c.reservation_id,
        &c.reservation_version,
        &c.reserved_output_bytes,
        &c.reserved_event_count,
        &c.policy_id,
        &c.policy_revision,
        &c.policy_digest,
    ) {
        (None, None, None, None, None, None, None, None) => Ok(None),
        (
            Some(binding),
            Some(id),
            Some(version),
            Some(output),
            Some(events),
            Some(policy_id),
            Some(revision),
            Some(digest),
        ) => {
            if *version < 0 {
                return Err(Fault::ExecutionReservationVersionCorrupt);
            }
            if *revision < 0 {
                return Err(Fault::ExecutionReservationPolicyCorrupt);
            }
            if *output < 0 {
                return Err(Fault::ExecutionOutputBudgetCorrupt);
            }
            if *events < 0 {
                return Err(Fault::ExecutionEventBudgetCorrupt);
            }
            if !c.budget_accepted {
                return Err(Fault::ExecutionReservationBudgetCorrupt);
            }
            Ok(
                Some(
                    ExecutionReservation {
                        reservation_id: id.clone(),
                        reservation_version: *version as u64,
                        binding_digest: binding.clone(),
                        policy_id: policy_id.clone(),
                        policy_revision: *revision as u64,
                        policy_digest: digest.clone(),
                        budget: ExecutionBudget { max_output_bytes: *output as u64, max_event_count: *events as u64 },
                    },
                ),
            )
        },
        _ => Err(Fault::ExecutionReservationIncomplete),
    }
}

/// The state of an execution reservation.
#[derive(Clone, Copy, Debug, PartialEq, Eq, Structural)]
pub enum ReservationState {
    Reserved,
    Settled,
    Other,
}

/// What the receiver measured for a dispatch.
#[derive(Clone, Copy, Debug, PartialEq, Eq, Structural)]
pub struct Measurement {
    pub completed: bool,
    pub output_bytes: Option<i64>,
    pub event_count: Option<i64>,
}

/// The execution reservation that is to be settled.
pub struct SettlingReservation {
    pub state: ReservationState,
    pub actual_output_bytes: Option<i64>,
    pub actual_event_count: Option<i64>,
    pub binding_digest: String,
    pub reserved_output_bytes: i64,
    pub reserved_event_count: i64,
}

/// One receipt of a reservation, with the usage of its bucket where it exists.
#[derive(Clone, Copy, Debug, PartialEq, Eq, Structural)]
pub struct SettlingReceipt {
    pub counts_output: bool,
    pub units: i64,
    pub bucket_used: Option<i64>,
}

/// What settling asks of the store: nothing, or the new usage of each receipt's
/// bucket (absent where it stays) and the two actual measurements.
pub enum Settlement {
    NotReserved,
    AlreadySettled,
    Settle { output_bytes: i64, event_count: i64, new_usage: Vec<Option<i64>> },
}

/// The new usage of a receipt's bucket when the actual usage is known, absent
/// where it stays as it is.
pub open spec fn refunded_usage(receipt: SettlingReceipt, actual: i64) -> Result<Option<i64>, Fault> {
    let refund = receipt.units - actual;
    if refund < i64::MIN || refund > i64::MAX {
        Err(Fault::ExecutionUsageExceedsReceipt)
    } else if refund == 0 {
        Ok(None)
    } else {
        match receipt.bucket_used {
            None => Err(Fault::ExecutionRefundFenceStale),
            Some(used) => if used < refund {
                Err(Fault::ExecutionRefundFenceStale)
            } else if used - refund > i64::MAX {
                Err(Fault::ExecutionRefundFailed)
            } else {
                Ok(Some((used - refund) as i64))
            },
        }
    }
}

/// The new usage of every receipt's bucket, or the first refusal.
pub open spec fn refunds_outcome(receipts: Seq<SettlingReceipt>, output: i64, events: i64) -> Result<
    Seq<Option<i64>>,
    Fault,
>
    decreases receipts.len(),
{
    if receipts.len() == 0 {
        Ok(Seq::empty())
    } else {
        match refunds_outcome(receipts.drop_last(), output, events) {
            Err(e) => Err(e),
            Ok(done) => match refunded_usage(
                receipts.last(),
                if receipts.last().counts_output { output } else { events },
            ) {
                Ok(u) => Ok(done.push(u)),
                Err(e) => Err(e),
            },
        }
    }
}

/// The checks that come before any refund.
pub open spec fn settlement_fault(
    reservation: ExecutionReservation,
    measured: Option<Measurement>,
    row: SettlingReservation,
) -> Option<Fault> {
    match measured {
        None => Some(Fault::ReceiverMeasurementAbsent),
        Some(m) => if !m.completed {
            Some(Fault::ReceiverMeasurementIncomplete)
        } else if m.output_bytes is None {
            Some(Fault::ReceiverOutputMeasurementMissing)
        } else if m.event_count is None {
            Some(Fault::ReceiverEventMeasurementMissing)
        } else if row.binding_digest@ != reservation.binding_digest@ || row.reserved_output_bytes
            != stored_or_none(reservation.budget.max_output_bytes) || row.reserved_event_count
            != stored_or_none(reservation.budget.max_event_count) {
            Some(Fault::ExecutionSettlementBindingCorrupt)
        } else {
            None
        },
    }
}

/// A reservation that lacks some of its columns and has others is incomplete; negative
/// numbers and a budget that is not accepted are corrupt, each by its own fault, and a
/// complete reservation with none of these is read.
pub proof fn law_incomplete_reservations_are_corrupt(c: ReservationColumns)
    ensures
        ({
            let any = c.binding_digest is Some || c.reservation_id is Some || c.reservation_version is Some
                || c.reserved_output_bytes is Some || c.reserved_event_count is Some || c.policy_id is Some
                || c.policy_revision is Some || c.policy_digest is Some;
            let all = c.binding_digest is Some && c.reservation_id is Some && c.reservation_version is Some
                && c.reserved_output_bytes is Some && c.reserved_event_count is Some && c.policy_id is Some
                && c.policy_revision is Some && c.policy_digest is Some;
            &&& columns_empty(c) <==> !any
            &&& any && !all <==> columns_fault(c) == Some(Fault::ExecutionReservationIncomplete)
            &&& !any ==> columns_fault(c) is None
            &&& all && c.reservation_version->0 >= 0 && c.policy_revision->0 >= 0 && c.reserved_output_bytes->0 >= 0
                && c.reserved_event_count->0 >= 0 && c.budget_accepted <==> all && columns_fault(c) is None
            &&& all && c.reservation_version->0 < 0 ==> columns_fault(c) == Some(
                Fault::ExecutionReservationVersionCorrupt,
            )
            &&& all && c.reservation_version->0 >= 0 && c.policy_revision->0 < 0 ==> columns_fault(c) == Some(
                Fault::ExecutionReservationPolicyCorrupt,
            )
            &&& columns_fault(c) == Some(Fault::ExecutionOutputBudgetCorrupt) ==> c.reserved_output_bytes->0 < 0
            &&& columns_fault(c) == Some(Fault::ExecutionEventBudgetCorrupt) ==> c.reserved_event_count->0 < 0
            &&& columns_fault(c) == Some(Fault::ExecutionReservationBudgetCorrupt) ==> !c.budget_accepted
                && c.reserved_output_bytes->0 >= 0 && c.reserved_event_count->0 >= 0
        }),
{
}

/// Columns are read as one reservation: two readings of the same columns agree in every
/// part, and each part is the column that it is named after.
pub proof fn law_reservations_are_read_as_stored(
    a: ExecutionReservation,
    b: ExecutionReservation,
    c: ReservationColumns,
)
    requires
        reservation_from_columns(a, c),
        reservation_from_columns(b, c),
    ensures
        reservations_equal(Some(a), Some(b)),
        a.reservation_id@ == c.reservation_id->0@,
        a.binding_digest@ == c.binding_digest->0@,
        a.policy_id@ == c.policy_id->0@,
        a.policy_digest@ == c.policy_digest->0@,
        a.reservation_version == c.reservation_version->0,
        a.policy_revision == c.policy_revision->0,
        a.budget.max_output_bytes == c.reserved_output_bytes->0,
        a.budget.max_event_count == c.reserved_event_count->0,
{
}

/// Two reservations are equal exactly where all of their parts are.
pub proof fn law_equal_reservations_agree(a: ExecutionReservation, b: ExecutionReservation)
    ensures
        reservations_equal(Some(a), Some(a)),
        reservations_equal(None, None),
        !reservations_equal(Some(a), None),
        !reservations_equal(None, Some(a)),
        reservations_equal(Some(a), Some(b)) ==> a.reservation_id@ == b.reservation_id@ && a.reservation_version
            == b.reservation_version && a.binding_digest@ == b.binding_digest@ && a.policy_id@ == b.policy_id@
            && a.policy_revision == b.policy_revision && a.policy_digest@ == b.policy_digest@
            && a.budget.max_output_bytes == b.budget.max_output_bytes && a.budget.max_event_count
            == b.budget.max_event_count,
{
}

/// A settlement goes ahead exactly where the receiver has completed and measured both its
/// output and its events, and the reservation on record is the one that was measured.
pub proof fn law_settlements_need_a_measurement(
    reservation: ExecutionReservation,
    measured: Option<Measurement>,
    row: SettlingReservation,
)
    ensures
        measured is None ==> settlement_fault(reservation, measured, row) == Some(Fault::ReceiverMeasurementAbsent),
        measured matches Some(m) && !m.completed ==> settlement_fault(reservation, measured, row) == Some(
            Fault::ReceiverMeasurementIncomplete,
        ),
        measured matches Some(m) && m.completed && m.output_bytes is None ==> settlement_fault(
            reservation,
            measured,
            row,
        ) == Some(Fault::ReceiverOutputMeasurementMissing),
        measured matches Some(m) && m.completed && m.output_bytes is Some && m.event_count is None
            ==> settlement_fault(reservation, measured, row) == Some(Fault::ReceiverEventMeasurementMissing),
        measured matches Some(m) && m.completed && m.output_bytes is Some && m.event_count is Some ==> {
            if row.binding_digest@ == reservation.binding_digest@ && row.reserved_output_bytes
                == reservation.budget.max_output_bytes && row.reserved_event_count
                == reservation.budget.max_event_count {
                settlement_fault(reservation, measured, row) is None
            } else {
                settlement_fault(reservation, measured, row) == Some(Fault::ExecutionSettlementBindingCorrupt)
                    || row.binding_digest@ == reservation.binding_digest@ && (row.reserved_output_bytes == -1
                    || row.reserved_event_count == -1)
            }
        },
{
}

fn refund(receipt: SettlingReceipt, actual: i64) -> (r: Result<Option<i64>, Fault>)
    ensures
        r == refunded_usage(receipt, actual),
{
    match receipt.units.checked_sub(actual) {
        None => Err(Fault::ExecutionUsageExceedsReceipt),
        Some(amount) => {
            if amount == 0 {
                return Ok(None);
            }
            match receipt.bucket_used {
                None => Err(Fault::ExecutionRefundFenceStale),
                Some(used) => {
                    if used < amount {
                        return Err(Fault::ExecutionRefundFenceStale);
                    }
                    match used.checked_sub(amount) {
                        Some(rest) => Ok(Some(rest)),
                        None => Err(Fault::ExecutionRefundFailed),
                    }
                },
            }
        },
    }
}

proof fn lemma_refunds_prefix_error(receipts: Seq<SettlingReceipt>, output: i64, events: i64, n: int)
    requires
        0 <= n <= receipts.len(),
        refunds_outcome(receipts.subrange(0, n), output, events) is Err,
    ensures
        refunds_outcome(receipts, output, events) == refunds_outcome(receipts.subrange(0, n), output, events),
    decreases receipts.len() - n,
{
    if n == receipts.len() {
        assert(receipts.subrange(0, n) =~= receipts);
    } else {
        assert(receipts.subrange(0, n + 1).drop_last() =~= receipts.subrange(0, n));
        lemma_refunds_prefix_error(receipts, output, events, n + 1);
    }
}

fn plan_refunds(receipts: &Vec<SettlingReceipt>, output: i64, events: i64) -> (r: Result<Vec<Option<i64>>, Fault>)
    ensures
        match r {
            Ok(u) => refunds_outcome(receipts@, output, events) == Ok::<Seq<Option<i64>>, Fault>(u@),
            Err(e) => refunds_outcome(receipts@, output, events) == Err::<Seq<Option<i64>>, Fault>(e),
        },
{
    let mut out: Vec<Option<i64>> = Vec::new();
    let mut i: usize = 0;
    assert(receipts@.subrange(0, 0) =~= Seq::<SettlingReceipt>::empty());
    while i < receipts.len()
        invariant
            i <= receipts@.len(),
            refunds_outcome(receipts@.subrange(0, i as int), output, events) == Ok::<Seq<Option<i64>>, Fault>(
                out@,
            ),
        decreases receipts@.len() - i,
    {
        let actual: i64 = if receipts[i].counts_output {
            output
        } else {
            events
        };
        proof {
            assert(receipts@.subrange(0, i + 1).drop_last() =~= receipts@.subrange(0, i as int));
        }
        match refund(receipts[i], actual) {
            Ok(u) => {
                out.push(u);
            },
            Err(e) => {
                proof {
                    lemma_refunds_prefix_error(receipts@, output, events, i + 1);
                }
                return Err(e);
            },
        }
        i += 1;
    }
    assert(receipts@.subrange(0, i as int) =~= receipts@);
    Ok(out)
}

/// Settles an execution reservation against what the receiver measured: what was
/// reserved and not used goes back to the six buckets that were charged.
pub fn settle_execution_reservation(
    reservation: &Option<ExecutionReservation>,
    quota_enforcement: bool,
    measured: &Option<Measurement>,
    row: &SettlingReservation,
    receipts: &Vec<SettlingReceipt>,
) -> (r: Result<Settlement, Fault>)
    ensures
        match *reservation {
            None => if quota_enforcement {
                r == Err::<Settlement, Fault>(Fault::ExecutionReservationAbsent)
            } else {
                r == Ok::<Settlement, Fault>(Settlement::NotReserved)
            },
            Some(res) => match settlement_fault(res, *measured, *row) {
                Some(e) => r == Err::<Settlement, Fault>(e),
                None => {
                    let output = measured->0.output_bytes->0;
                    let events = measured->0.event_count->0;
                    if row.state == ReservationState::Settled {
                        if row.actual_output_bytes == Some(output) && row.actual_event_count == Some(events) {
                            r == Ok::<Settlement, Fault>(Settlement::AlreadySettled)
                        } else {
                            r == Err::<Settlement, Fault>(Fault::ExecutionSettlementConflict)
                        }
                    } else if receipts@.len() != 6 {
                        r == Err::<Settlement, Fault>(Fault::ExecutionReceiptsCorrupt)
                    } else {
                        match refunds_outcome(receipts@, output, events) {
                            Err(e) => r == Err::<Settlement, Fault>(e),
                            Ok(usage) => if row.state != ReservationState::Reserved {
                                r == Err::<Settlement, Fault>(Fault::ExecutionSettlementFenceStale)
                            } else {
                                r matches Ok(Settlement::Settle { output_bytes, event_count, new_usage })
                                    && output_bytes == output && event_count == events && new_usage@ == usage
                            },
                        }
                    }
                },
            },
        },
        r matches Ok(Settlement::NotReserved) ==> *reservation is None && !quota_enforcement,
        r matches Ok(Settlement::AlreadySettled) ==> row.state == ReservationState::Settled && *measured is Some
            && row.actual_output_bytes == measured->0.output_bytes && row.actual_event_count
            == measured->0.event_count,
        r matches Ok(Settlement::Settle { output_bytes, event_count, new_usage }) ==> {
            &&& row.state == ReservationState::Reserved
            &&& *measured is Some
            &&& measured->0.completed
            &&& measured->0.output_bytes == Some(output_bytes)
            &&& measured->0.event_count == Some(event_count)
            &&& receipts@.len() == 6
            &&& new_usage@.len() == 6
            &&& forall|i: int|
                0 <= i < 6 ==> {
                    let kept = if receipts@[i].counts_output { output_bytes as int } else { event_count as int };
                    match #[trigger] new_usage@[i] {
                        None => receipts@[i].units == kept,
                        Some(used) => receipts@[i].bucket_used is Some && receipts@[i].bucket_used->0 - used
                            == receipts@[i].units - kept && used >= 0,
                    }
                }
        },
{
    let res = match reservation {
        Some(res) => res,
        None => {
            return if quota_enforcement {
                Err(Fault::ExecutionReservationAbsent)
            } else {
                Ok(Settlement::NotReserved)
            };
        },
    };
    let m = match measured {
        Some(m) => m,
        None => {
            return Err(Fault::ReceiverMeasurementAbsent);
        },
    };
    if !m.completed {
        return Err(Fault::ReceiverMeasurementIncomplete);
    }
    let output: i64 = match m.output_bytes {
        Some(v) => v,
        None => {
            return Err(Fault::ReceiverOutputMeasurementMissing);
        },
    };
    let events: i64 = match m.event_count {
        Some(v) => v,
        None => {
            return Err(Fault::ReceiverEventMeasurementMissing);
        },
    };
    if row.binding_digest != res.binding_digest || row.reserved_output_bytes != stored_number(
        res.budget.max_output_bytes,
    ) || row.reserved_event_count != stored_number(res.budget.max_event_count) {
        return Err(Fault::ExecutionSettlementBindingCorrupt);
    }
    if row.state == ReservationState::Settled {
        return if row.actual_output_bytes == Some(output) && row.actual_event_count == Some(events) {
            Ok(Settlement::AlreadySettled)
        } else {
            Err(Fault::ExecutionSettlementConflict)
        };
    }
    if receipts.len() != 6 {
        return Err(Fault::ExecutionReceiptsCorrupt);
    }
    match plan_refunds(receipts, output, events) {
        Err(e) => Err(e),
        Ok(new_usage) => if row.state != ReservationState::Reserved {
            Err(Fault::ExecutionSettlementFenceStale)
        } else {
            proof {
                assert forall|i: int| 0 <= i < 6 implies {
                    let kept = if receipts@[i].counts_output { output as int } else { events as int };
                    match #[trigger] new_usage@[i] {
                        None => receipts@[i].units == kept,
                        Some(used) => receipts@[i].bucket_used is Some && receipts@[i].bucket_used->0 - used
                            == receipts@[i].units - kept && used >= 0,
                    }
                } by {
                    law_settlement_charges_what_was_measured(receipts@, output, events, i);
                }
                law_settlement_charges_what_was_measured(receipts@, output, events, 0);
            }
            Ok(Settlement::Settle { output_bytes: output, event_count: events, new_usage })
        },
    }
}

/// A refund never takes a bucket's usage below zero, and what goes back is
/// exactly what was reserved and not used.
pub proof fn law_refund_returns_the_unused(receipt: SettlingReceipt, actual: i64)
    requires
        refunded_usage(receipt, actual) is Ok,
        receipt.bucket_used matches Some(used) && used >= 0,
    ensures
        match refunded_usage(receipt, actual)->Ok_0 {
            Some(after) => after >= 0 && receipt.bucket_used->0 - after == receipt.units - actual,
            None => receipt.units == actual,
        },
{
}

/// Where a settlement is granted, every receipt keeps its own dimension: a bucket that
/// counts output gives back its units less the measured bytes, and a bucket that counts
/// events its units less the measured events. A bucket stays as it is exactly where nothing
/// goes back, and no usage falls below zero.
pub proof fn law_settlement_charges_what_was_measured(
    receipts: Seq<SettlingReceipt>,
    output: i64,
    events: i64,
    i: int,
)
    requires
        refunds_outcome(receipts, output, events) is Ok,
        0 <= i < receipts.len(),
    ensures
        refunds_outcome(receipts, output, events)->Ok_0.len() == receipts.len(),
        ({
            let receipt = receipts[i];
            let after = refunds_outcome(receipts, output, events)->Ok_0[i];
            let measured = if receipt.counts_output { output as int } else { events as int };
            match after {
                None => receipt.units == measured,
                Some(used) => {
                    &&& receipt.units != measured
                    &&& receipt.bucket_used is Some
                    &&& receipt.bucket_used->0 - used == receipt.units - measured
                    &&& used >= 0
                },
            }
        }),
    decreases receipts.len(),
{
    let shorter = receipts.drop_last();
    if i < shorter.len() {
        law_settlement_charges_what_was_measured(shorter, output, events, i);
    } else if shorter.len() > 0 {
        law_settlement_charges_what_was_measured(shorter, output, events, 0);
    }
}

/// A settlement is refused over a receipt only for a reason of that receipt's own: its
/// bucket is gone or holds less than what must go back, or the numbers do not fit. Every
/// other list of receipts is settled.
pub proof fn law_settlement_is_owed(receipts: Seq<SettlingReceipt>, output: i64, events: i64)
    requires
        0 <= output,
        0 <= events,
        forall|i: int|
            0 <= i < receipts.len() ==> {
                let measured = if (#[trigger] receipts[i]).counts_output { output as int } else { events as int };
                ||| receipts[i].units == measured
                ||| receipts[i].units >= 0 && receipts[i].bucket_used is Some && 0 <= receipts[i].bucket_used->0
                    + measured - receipts[i].units <= i64::MAX
            },
    ensures
        refunds_outcome(receipts, output, events) is Ok,
    decreases receipts.len(),
{
    if receipts.len() > 0 {
        let shorter = receipts.drop_last();
        assert forall|i: int| 0 <= i < shorter.len() implies {
            let measured = if (#[trigger] shorter[i]).counts_output { output as int } else { events as int };
            ||| shorter[i].units == measured
            ||| shorter[i].units >= 0 && shorter[i].bucket_used is Some && 0 <= shorter[i].bucket_used->0 + measured
                - shorter[i].units <= i64::MAX
        } by {
            assert(shorter[i] == receipts[i]);
        }
        law_settlement_is_owed(shorter, output, events);
        assert(receipts.last() == receipts[receipts.len() - 1]);
    }
}

/// A receipt whose bucket is gone, or holds less than what must go back, refuses the whole
/// settlement, and so does one whose usage would no longer fit.
pub proof fn law_unsettled_receipts_refuse(receipts: Seq<SettlingReceipt>, output: i64, events: i64, i: int)
    requires
        0 <= output,
        0 <= events,
        0 <= i < receipts.len(),
        receipts[i].units >= 0,
        ({
            let measured = if receipts[i].counts_output { output as int } else { events as int };
            &&& receipts[i].units != measured
            &&& receipts[i].bucket_used is None || receipts[i].bucket_used->0 + measured < receipts[i].units
                || receipts[i].bucket_used->0 + measured - receipts[i].units > i64::MAX
        }),
    ensures
        refunds_outcome(receipts, output, events) is Err,
    decreases receipts.len(),
{
    if i < receipts.len() - 1 {
        law_unsettled_receipts_refuse(receipts.drop_last(), output, events, i);
    }
}

/// The reason that a settlement is refused with is that of the first receipt that cannot
/// be settled: a missing bucket or one that holds too little is a stale refund.
pub proof fn law_first_unsettled_receipt_decides(receipts: Seq<SettlingReceipt>, output: i64, events: i64, i: int)
    requires
        0 <= output,
        0 <= events,
        0 <= i < receipts.len(),
        refunds_outcome(receipts.subrange(0, i), output, events) is Ok,
        receipts[i].units >= 0,
        ({
            let measured = if receipts[i].counts_output { output as int } else { events as int };
            &&& receipts[i].units != measured
            &&& receipts[i].bucket_used is None || receipts[i].bucket_used->0 + measured < receipts[i].units
        }),
    ensures
        refunds_outcome(receipts, output, events) == Err::<Seq<Option<i64>>, Fault>(Fault::ExecutionRefundFenceStale),
{
    let head = receipts.subrange(0, i + 1);
    assert(head.drop_last() =~= receipts.subrange(0, i));
    assert(head.last() == receipts[i]);
    lemma_refunds_prefix_error(receipts, output, events, i + 1);
}

/// Whether a batch of quota leases may be reclaimed at once.
pub fn reclaim_expired_quota_leases(batch_size: u32) -> (r: Result<i64, Fault>)
    ensures
        r == (if 1 <= batch_size <= 1000 {
            Ok::<i64, Fault>(batch_size as i64)
        } else {
            Err(Fault::QuotaLeaseReclaimBatch)
        }),
        r is Ok <==> batch_size >= 1 && batch_size <= 1000,
        r matches Ok(n) ==> n == batch_size,
{
    if batch_size < 1 || batch_size > 1000 {
        Err(Fault::QuotaLeaseReclaimBatch)
    } else {
        Ok(batch_size as i64)
    }
}

/// The number of reclaimed leases that the store reports.
pub fn reclaimed_count(reported: i64) -> (r: Result<u64, Fault>)
    ensures
        r == (if reported >= 0 {
            Ok::<u64, Fault>(reported as u64)
        } else {
            Err(Fault::QuotaLeaseReclaimCountCorrupt)
        }),
        r is Ok <==> reported >= 0,
        r matches Ok(n) ==> n == reported,
{
    if reported < 0 {
        Err(Fault::QuotaLeaseReclaimCountCorrupt)
    } else {
        Ok(reported as u64)
    }
}

/// The usage of a bucket once released units have left it.
pub fn released_usage(used: i64, units: i64) -> (r: i64)
    requires
        0 <= used,
        0 <= units,
    ensures
        r == (if used > units { used - units } else { 0 }),
        units <= used ==> r + units == used,
        used <= units ==> r == 0,
{
    if used > units {
        used - units
    } else {
        0
    }
}

/// Whether a charge is one that a plain request pays: nothing that stays open
/// and nothing that is produced.
pub open spec fn plain_request_charge(c: Charge) -> bool {
    !quota::is_concurrent(c.dimension) && !quota::is_execution_output(c.dimension)
}

/// Whether an intent may be charged as a plain request.
pub fn charge_quota_request(quota_enforcement: bool, intent: &QuotaIntent) -> (r: Result<(), Fault>)
    ensures
        r == (if quota_enforcement && intent.operation != QuotaOperation::PublicEgress && forall|i: int|
            0 <= i < intent.charges@.len() ==> plain_request_charge(#[trigger] intent.charges@[i]) {
            Ok::<(), Fault>(())
        } else {
            Err(Fault::QuotaAuthorityUnavailable)
        }),
        r is Ok ==> quota_enforcement && intent.operation != QuotaOperation::PublicEgress,
{
    if !quota_enforcement || intent.operation == QuotaOperation::PublicEgress {
        return Err(Fault::QuotaAuthorityUnavailable);
    }
    let mut i: usize = 0;
    while i < intent.charges.len()
        invariant
            i <= intent.charges@.len(),
            quota_enforcement,
            intent.operation != QuotaOperation::PublicEgress,
            forall|j: int| 0 <= j < i ==> plain_request_charge(#[trigger] intent.charges@[j]),
        decreases intent.charges@.len() - i,
    {
        match intent.charges[i].dimension {
            QuotaDimension::ConcurrentActiveWork
            | QuotaDimension::ConcurrentStreams
            | QuotaDimension::ConcurrentSubscriptions
            | QuotaDimension::OutputBytes
            | QuotaDimension::EventCount => {
                assert(!plain_request_charge(intent.charges@[i as int]));
                return Err(Fault::QuotaAuthorityUnavailable);
            },
            _ => {},
        }
        i += 1;
    }
    Ok(())
}

/// Whether an intent may be charged as public egress.
pub fn charge_quota_egress(quota_enforcement: bool, intent: &QuotaIntent) -> (r: Result<(), Fault>)
    ensures
        r == (if quota_enforcement && intent.operation == QuotaOperation::PublicEgress {
            Ok::<(), Fault>(())
        } else {
            Err(Fault::QuotaAuthorityUnavailable)
        }),
{
    if !quota_enforcement || intent.operation != QuotaOperation::PublicEgress {
        Err(Fault::QuotaAuthorityUnavailable)
    } else {
        Ok(())
    }
}

/// The dimension that a lease of a kind occupies.
pub open spec fn lease_dimension(kind: QuotaLeaseKind) -> QuotaDimension {
    match kind {
        QuotaLeaseKind::MessageStream => QuotaDimension::ConcurrentStreams,
        QuotaLeaseKind::TaskSubscription => QuotaDimension::ConcurrentSubscriptions,
    }
}

impl QuotaLeaseKind {
    /// The dimension that a lease of this kind occupies.
    pub fn dimension(self) -> (r: QuotaDimension)
        ensures
            r == lease_dimension(self),
    {
        match self {
            QuotaLeaseKind::MessageStream => QuotaDimension::ConcurrentStreams,
            QuotaLeaseKind::TaskSubscription => QuotaDimension::ConcurrentSubscriptions,
        }
    }
}

/// Whether a quota lease may be asked for.
pub fn acquire_quota_lease(
    quota_enforcement: bool,
    intent: &QuotaIntent,
    kind: QuotaLeaseKind,
    resource_digest: &str,
    lease_duration: i64,
) -> (r: Result<(), Fault>)
    ensures
        r == (if quota_enforcement && 1 <= text::utf8(resource_digest@).len() <= 256 && 1_000 <= lease_duration
            <= 300_000 && quota::charges_dimension(intent.charges@, lease_dimension(kind)) {
            Ok::<(), Fault>(())
        } else {
            Err(Fault::QuotaAuthorityUnavailable)
        }),
        r is Ok ==> quota_enforcement && lease_duration >= 1000 && lease_duration <= 5 * 60 * 1000,
        r is Ok ==> quota::charges_dimension(intent.charges@, lease_dimension(kind)) && text::utf8(resource_digest@).len()
            >= 1 && text::utf8(resource_digest@).len() <= 256,
{
    let n: usize = text::byte_len(resource_digest);
    if !quota_enforcement || n == 0 || n > 256 || lease_duration < 1_000 || lease_duration > 300_000
        || !quota::has_dimension(&intent.charges, kind.dimension()) {
        Err(Fault::QuotaAuthorityUnavailable)
    } else {
        Ok(())
    }
}

/// The time until which a lease that starts now lasts.
pub open spec fn lease_end(now: i64, duration: i64, overflow: Fault) -> Result<i64, Fault> {
    if i64::MIN <= now + duration <= i64::MAX {
        Ok((now + duration) as i64)
    } else {
        Err(overflow)
    }
}

/// Computes the time until which a lease that starts now lasts.
pub fn lease_until(now: i64, duration: i64, overflow: Fault) -> (r: Result<i64, Fault>)
    ensures
        r == lease_end(now, duration, overflow),
{
    match now.checked_add(duration) {
        Some(until) => Ok(until),
        None => Err(overflow),
    }
}

/// The end of a renewed quota lease.
pub fn renew_quota_lease(now: i64, lease_duration: i64) -> (r: Result<i64, Fault>)
    ensures
        r == (if 1_000 <= lease_duration <= 300_000 {
            lease_end(now, lease_duration, Fault::QuotaLeaseTimeOverflow)
        } else {
            Err(Fault::InvalidQuotaLeaseDuration)
        }),
{
    if lease_duration < 1_000 || lease_duration > 300_000 {
        return Err(Fault::InvalidQuotaLeaseDuration);
    }
    lease_until(now, lease_duration, Fault::QuotaLeaseTimeOverflow)
}

/// A stored quota lease.
pub struct StoredQuotaLease {
    pub lease_id: String,
    pub lease_token: String,
    pub lease_epoch: i64,
    pub active: bool,
    pub lease_until: i64,
}

/// Whether a caller's lease still holds the stored one.
pub open spec fn quota_lease_held(
    row: StoredQuotaLease,
    lease_id: Seq<char>,
    lease_token: Seq<char>,
    lease_epoch: u64,
    now: i64,
) -> bool {
    &&& row.lease_id@ == lease_id
    &&& row.lease_token@ == lease_token
    &&& row.lease_epoch == quota::clamp_i64(lease_epoch)
    &&& row.active
    &&& row.lease_until > now
}

/// Whether a caller's lease still holds the stored one, so that it can be renewed
/// or released.
pub fn holds_quota_lease(
    row: &StoredQuotaLease,
    lease_id: &str,
    lease_token: &str,
    lease_epoch: u64,
    now: i64,
) -> (r: bool)
    ensures
        r == quota_lease_held(*row, lease_id@, lease_token@, lease_epoch, now),
{
    let epoch: i64 = if lease_epoch <= 0x7fff_ffff_ffff_ffff {
        lease_epoch as i64
    } else {
        i64::MAX
    };
    text::same_text(row.lease_id.as_str(), lease_id) && text::same_text(row.lease_token.as_str(), lease_token)
        && row.lease_epoch == epoch && row.active && row.lease_until > now
}

/// A lease is renewed or released only by who holds it, under its own token and epoch, while
/// it is active and has not run out; who holds it may.
pub proof fn law_only_holders_keep_a_quota_lease(
    row: StoredQuotaLease,
    lease_id: Seq<char>,
    lease_token: Seq<char>,
    lease_epoch: u64,
    now: i64,
)
    ensures
        quota_lease_held(row, lease_id, lease_token, lease_epoch, now) ==> row.active && now < row.lease_until
            && lease_id == row.lease_id@ && lease_token == row.lease_token@ && (lease_epoch == row.lease_epoch
            || lease_epoch > i64::MAX && row.lease_epoch == i64::MAX),
        row.active && now < row.lease_until && lease_epoch == row.lease_epoch ==> quota_lease_held(
            row,
            row.lease_id@,
            row.lease_token@,
            lease_epoch,
            now,
        ),
        quota_lease_held(row, lease_id, lease_token, lease_epoch, row.lease_until) == false,
{
}

/// A lease ends its duration after it starts: it still runs just before that time and no
/// longer at it, and a later start or a longer duration never ends it earlier.
pub proof fn law_leases_end_after_their_duration(now: i64, duration: i64, later: i64, overflow: Fault)
    requires
        0 <= duration,
        now <= later,
    ensures
        match lease_end(now, duration, overflow) {
            Ok(until) => until - now == duration,
            Err(e) => e == overflow && now > i64::MAX - duration,
        },
        lease_end(later, duration, overflow) is Ok ==> lease_end(now, duration, overflow) is Ok && lease_end(
            now,
            duration,
            overflow,
        )->Ok_0 <= lease_end(later, duration, overflow)->Ok_0,
{
}

/// A message stream occupies a stream and a task subscription occupies a subscription.
pub proof fn law_leases_occupy_their_own_dimension(a: QuotaLeaseKind, b: QuotaLeaseKind)
    ensures
        quota::is_concurrent(lease_dimension(a)),
        lease_dimension(a) == lease_dimension(b) <==> a == b,
        a == QuotaLeaseKind::MessageStream <==> lease_dimension(a) == QuotaDimension::ConcurrentStreams,
        a == QuotaLeaseKind::TaskSubscription <==> lease_dimension(a) == QuotaDimension::ConcurrentSubscriptions,
{
}

/// The audit of a denial.
pub struct DenialAudit {
    pub decision_key: String,
    pub content_digest: String,
    pub policy_digest: String,
    pub bucket_digest: String,
    pub reason_digest: String,
    pub retry_after_seconds: i64,
}

/// The digest that names the buckets of a denied intent.
pub open spec fn denial_bucket_digest(policy: Seq<char>, operation: Seq<char>, binding: Seq<char>) -> Seq<char> {
    crypto::content_digest_of(text::utf8(policy + "\0"@ + operation + "\0"@ + binding))
}

/// The digest of the reason of every denial.
pub open spec fn denial_reason_digest() -> Seq<char> {
    crypto::content_digest_of(text::utf8("quota-exhausted"@))
}

/// The digest that seals a denial.
pub open spec fn denial_content_digest(
    policy: Seq<char>,
    bucket: Seq<char>,
    reason: Seq<char>,
    retry_after_seconds: i64,
) -> Seq<char> {
    crypto::content_digest_of(
        text::utf8(
            policy + "\0"@ + bucket + "\0"@ + reason + "\0"@ + text::signed_decimal(retry_after_seconds as int),
        ),
    )
}

/// The audit that records a denied intent. `operation` is the operation's name.
pub fn denial_audit(intent: &QuotaIntent, operation: &str, retry_after_seconds: i64) -> (r: DenialAudit)
    ensures
        r.decision_key@ == intent.binding_digest@,
        r.policy_digest@ == intent.policy_digest@,
        r.bucket_digest@ == denial_bucket_digest(intent.policy_digest@, operation@, intent.binding_digest@),
        r.reason_digest@ == denial_reason_digest(),
        r.content_digest@ == denial_content_digest(
            intent.policy_digest@,
            r.bucket_digest@,
            r.reason_digest@,
            retry_after_seconds,
        ),
        r.retry_after_seconds == retry_after_seconds,
{
    let mut key = intent.policy_digest.clone();
    key.append("\0");
    key.append(operation);
    key.append("\0");
    key.append(intent.binding_digest.as_str());
    let bucket_digest = crypto::text_digest(key.as_str());
    let reason_digest = crypto::text_digest("quota-exhausted");
    let mut seal = intent.policy_digest.clone();
    seal.append("\0");
    seal.append(bucket_digest.as_str());
    seal.append("\0");
    seal.append(reason_digest.as_str());
    seal.append("\0");
    let seconds = text::signed_decimal_text(retry_after_seconds);
    seal.append(seconds.as_str());
    let content_digest = crypto::text_digest(seal.as_str());
    DenialAudit {
        decision_key: intent.binding_digest.clone(),
        content_digest,
        policy_digest: intent.policy_digest.clone(),
        bucket_digest,
        reason_digest,
        retry_after_seconds,
    }
}

/// Whether the denial on record is the one that was to be recorded.
pub fn append_quota_denial_audit(written: &DenialAudit, stored: &DenialAudit) -> (r: Result<(), Fault>)
    ensures
        r == (if stored.content_digest@ == written.content_digest@ && stored.policy_digest@
            == written.policy_digest@ && stored.bucket_digest@ == written.bucket_digest@
            && stored.reason_digest@ == written.reason_digest@ && stored.retry_after_seconds
            == written.retry_after_seconds {
            Ok::<(), Fault>(())
        } else {
            Err(Fault::QuotaAuthorityUnavailable)
        }),
        r is Ok ==> stored.content_digest@ == written.content_digest@,
        r is Ok ==> stored.policy_digest@ == written.policy_digest@,
        r is Ok ==> stored.bucket_digest@ == written.bucket_digest@,
        r is Ok ==> stored.reason_digest@ == written.reason_digest@,
        r is Ok ==> stored.retry_after_seconds == written.retry_after_seconds,
{
    if stored.content_digest != written.content_digest || stored.policy_digest != written.policy_digest
        || stored.bucket_digest != written.bucket_digest || stored.reason_digest != written.reason_digest
        || stored.retry_after_seconds != written.retry_after_seconds {
        Err(Fault::QuotaAuthorityUnavailable)
    } else {
        Ok(())
    }
}

/// How the result of a charged operation is reported.
#[derive(Clone, Copy, Debug, PartialEq, Eq, Structural)]
pub enum QuotaReport {
    /// The operation succeeded.
    Granted,
    /// The denial is audited first; `reason` is what the caller is then told.
    Denied { reason: Fault },
    /// The operation failed for another reason.
    Failed { reason: Fault },
}

/// What is reported for the result of a charged operation, given whether it
/// carried an intent.
pub fn finalize_quota_result(has_intent: bool, failure: Option<Fault>) -> (r: QuotaReport)
    ensures
        r == (match failure {
            None => QuotaReport::Granted,
            Some(e) => if e == Fault::QuotaExceeded {
                if has_intent {
                    QuotaReport::Denied { reason: Fault::QuotaExceeded }
                } else {
                    QuotaReport::Failed { reason: Fault::QuotaAuthorityUnavailable }
                }
            } else {
                QuotaReport::Failed { reason: e }
            },
        }),
        r == QuotaReport::Granted <==> failure is None,
        r is Denied <==> has_intent && failure == Some(Fault::QuotaExceeded),
        failure is Some && failure->0 != Fault::QuotaExceeded ==> r == (QuotaReport::Failed { reason: failure->0 }),
{
    match failure {
        None => QuotaReport::Granted,
        Some(e) => if e == Fault::QuotaExceeded {
            if has_intent {
                QuotaReport::Denied { reason: Fault::QuotaExceeded }
            } else {
                QuotaReport::Failed { reason: Fault::QuotaAuthorityUnavailable }
            }
        } else {
            QuotaReport::Failed { reason: e }
        },
    }
}

/// The time that a decision is made at: the caller's where injected time is
/// trusted, else the database's.
pub fn effective_now(trust_injected_time: bool, requested: i64, database: i64) -> (r: i64)
    ensures
        r == (if trust_injected_time { requested } else { database }),
        trust_injected_time ==> r == requested,
        !trust_injected_time ==> r == database,
{
    if trust_injected_time {
        requested
    } else {
        database
    }
}

/// A request that is charged by itself counts neither what runs nor what an execution puts out.
pub proof fn law_plain_charges_are_neither_held_nor_put_out(c: Charge)
    ensures
        plain_request_charge(c) <==> c.dimension is RequestCount || c.dimension is InputBytes || c.dimension
            is ReconnectCount || c.dimension is RetainedAuthorityBytes,
{
}

/// A reservation that is on record serves the request that it was made for, and any other conflicts
/// with it.
pub proof fn law_reservations_on_record_serve_their_request(
    q: QuotaReservationInput,
    task_id: Seq<char>,
    row: StoredReservation,
    task_reserved: bool,
    now: i64,
    insert_if_missing: bool,
)
    requires
        q.expires_at > now,
        q.units <= i64::MAX,
    ensures
        reservation_exact(row, q, q.account_id@, task_id) ==> reservation_outcome(
            Some(q),
            q.tenant_scope@,
            q.account_id@,
            task_id,
            Some(row),
            task_reserved,
            now,
            insert_if_missing,
        ) == Ok::<ReservationAction, Fault>(ReservationAction::AlreadyBound),
        !reservation_exact(row, q, q.account_id@, task_id) ==> reservation_outcome(
            Some(q),
            q.tenant_scope@,
            q.account_id@,
            task_id,
            Some(row),
            task_reserved,
            now,
            insert_if_missing,
        ) == Err::<ReservationAction, Fault>(Fault::QuotaReservationKeyConflict),
{
}

/// What was not used goes back to the bucket it came from: the bucket then holds as much less, and a
/// bucket that is gone or does not hold as much is no longer the one that was charged. Where all was
/// used nothing goes back.
pub proof fn law_unused_units_go_back(receipt: SettlingReceipt, actual: i64)
    ensures
        receipt.units == actual ==> refunded_usage(receipt, actual) == Ok::<Option<i64>, Fault>(None),
        receipt.units - actual > i64::MAX || receipt.units - actual < i64::MIN ==> refunded_usage(receipt, actual)
            == Err::<Option<i64>, Fault>(Fault::ExecutionUsageExceedsReceipt),
        receipt.units != actual && i64::MIN <= receipt.units - actual <= i64::MAX && (receipt.bucket_used is None
            || receipt.bucket_used->0 < receipt.units - actual) ==> refunded_usage(receipt, actual) == Err::<
            Option<i64>,
            Fault,
        >(Fault::ExecutionRefundFenceStale),
        refunded_usage(receipt, actual) matches Ok(Some(left)) ==> receipt.bucket_used is Some && left + receipt.units
            == receipt.bucket_used->0 + actual && receipt.units != actual && receipt.bucket_used->0 >= receipt.units
            - actual,
        receipt.bucket_used is Some && receipt.units != actual && i64::MIN <= receipt.units - actual <= i64::MAX
            && receipt.units - actual <= receipt.bucket_used->0 && receipt.bucket_used->0 - (receipt.units - actual)
            <= i64::MAX ==> refunded_usage(receipt, actual) is Ok,
        receipt.bucket_used is Some && i64::MIN <= receipt.units - actual <= i64::MAX && receipt.bucket_used->0 - (
        receipt.units - actual) > i64::MAX ==> refunded_usage(receipt, actual) == Err::<Option<i64>, Fault>(
            Fault::ExecutionRefundFailed,
        ),
{
}

/// An execution's reservation is named for its tenant and what it is bound to, each between
/// separators; a denial for the policy, the operation and the binding.
pub proof fn law_reservations_are_named_for_what_they_bind(
    tenant: Seq<char>,
    binding: Seq<char>,
    policy: Seq<char>,
    operation: Seq<char>,
)
    requires
        !tenant.contains('\0'),
        !binding.contains('\0'),
        !policy.contains('\0'),
        !operation.contains('\0'),
    ensures
        exists|named: Seq<char>|
            execution_reservation_id(tenant, binding) == crypto::content_digest_of(text::utf8(named))
                && #[trigger] text::fields(named, '\0') == seq!["execution-reservation-v1"@, tenant, binding],
        exists|named: Seq<char>|
            denial_bucket_digest(policy, operation, binding) == crypto::content_digest_of(text::utf8(named))
                && #[trigger] text::fields(named, '\0') == seq![policy, operation, binding],
{
    reveal_strlit("execution-reservation-v1\0");
    reveal_strlit("execution-reservation-v1");
    reveal_strlit("\0");
    let lead = "execution-reservation-v1"@;
    assert(!lead.contains('\0'));
    let named = "execution-reservation-v1\0"@ + tenant + "\0"@ + binding;
    let b = tenant.push('\0') + binding;
    assert(named =~= lead.push('\0') + b);
    text::law_leading_fields_come_first(lead, '\0', b);
    text::law_leading_fields_come_first(tenant, '\0', binding);
    assert(text::fields(named, '\0') =~= seq![lead, tenant, binding]);
    let other = policy + "\0"@ + operation + "\0"@ + binding;
    let d = operation.push('\0') + binding;
    assert(other =~= policy.push('\0') + d);
    text::law_leading_fields_come_first(policy, '\0', d);
    text::law_leading_fields_come_first(operation, '\0', binding);
    assert(text::fields(other, '\0') =~= seq![policy, operation, binding]);
    assert(denial_bucket_digest(policy, operation, binding) == crypto::content_digest_of(text::utf8(other)));
}

/// A reservation on record whose budget is not sound is told so: first its output, then its events,
/// then the budget as a whole.
pub proof fn law_unsound_budgets_are_told_apart(c: ReservationColumns)
    requires
        columns_full(c),
        !columns_empty(c),
        c.reservation_version->0 >= 0,
        c.policy_revision->0 >= 0,
    ensures
        c.reserved_output_bytes->0 < 0 ==> columns_fault(c) == Some(Fault::ExecutionOutputBudgetCorrupt),
        c.reserved_output_bytes->0 >= 0 && c.reserved_event_count->0 < 0 ==> columns_fault(c) == Some(
            Fault::ExecutionEventBudgetCorrupt,
        ),
        c.reserved_output_bytes->0 >= 0 && c.reserved_event_count->0 >= 0 && !c.budget_accepted ==> columns_fault(c)
            == Some(Fault::ExecutionReservationBudgetCorrupt),
{
}

} // verus!
