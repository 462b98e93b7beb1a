//! Cancellation of a task, by itself or through the receiver that works on it.

use vstd::prelude::*;

use crate::admission;
use crate::admission::{AuthorizationAudit, OwnedTaskScope};
use crate::audit::AuditReason;
use crate::crypto;
use crate::fault::Fault;
use crate::outbox;
use crate::outbox::ReceiverState;
use crate::quota::{QuotaIntent, QuotaOperation};
use crate::reservation;
use crate::reservation::{QuotaReservationInput, ReservationAction, StoredReservation};
use crate::task;
use crate::task::{Task, TaskState, TaskStatus};
use crate::text;
use crate::transcript;

verus! {

/// Whether a task may be cancelled by the caller.
pub fn preflight_cancellation(
    quota_enforcement: bool,
    intent: &Option<QuotaIntent>,
    audit: &AuthorizationAudit,
    scope: &OwnedTaskScope,
) -> (r: Result<(), Fault>)
    ensures
        r == (match admission::quota_operation_fault(quota_enforcement, *intent, QuotaOperation::TaskCancel, None) {
            Some(e) => Err::<(), Fault>(e),
            None => if admission::audit_matches(*audit, *scope) && audit.allow {
                Ok(())
            } else {
                Err(Fault::AuthorizedCancellationScopeMismatch)
            },
        }),
        r is Ok ==> audit.allow && admission::audit_matches(*audit, *scope),
{
    match admission::check_quota_operation(quota_enforcement, intent, QuotaOperation::TaskCancel, None) {
        Some(e) => Err(e),
        None => if admission::same_scope(audit, scope) && audit.allow {
            Ok(())
        } else {
            Err(Fault::AuthorizedCancellationScopeMismatch)
        },
    }
}

/// A task that is to be cancelled, with the dispatch that carries it. The task is
/// absent where its text is corrupt.
pub struct CancelRow {
    pub task: Option<Task>,
    pub revision: i64,
    pub message_id: String,
    pub dispatch_id: String,
}

/// What the receiver has on record for the dispatch of a cancelled task.
#[derive(Clone, Copy, Debug, PartialEq, Eq, Structural)]
pub struct CancelReceiver {
    pub state: ReceiverState,
    pub lease_until: Option<i64>,
}

/// What is read before a task is cancelled.
pub struct CancelInputs {
    pub row: Option<CancelRow>,
    pub receiver: Option<CancelReceiver>,
    pub reservation: Option<QuotaReservationInput>,
    pub stored_reservation: Option<StoredReservation>,
    pub task_reserved: bool,
}

/// Whether a receiver's lease still runs.
pub open spec fn receiver_live(receiver: CancelReceiver, now: i64) -> bool {
    receiver.lease_until is Some && receiver.lease_until->0 > now
}

/// Whether the receiver's outcome must be awaited: it has the dispatch and the
/// task has not been answered yet.
pub open spec fn awaits_receiver(state: TaskState, receiver: Option<CancelReceiver>, now: i64) -> bool {
    &&& state == TaskState::Submitted || state == TaskState::Working
    &&& receiver is Some
    &&& receiver->0.state == ReceiverState::Completed || receiver_live(receiver->0, now)
}

/// Whether the receiver is told of a cancellation that awaits it.
pub open spec fn tells_receiver(receiver: Option<CancelReceiver>, now: i64) -> bool {
    receiver is Some && receiver->0.state == ReceiverState::Processing && receiver_live(receiver->0, now)
}

/// The encoded message that reports a cancellation.
pub open spec fn cancel_message(t: task::TaskView, dispatch_id: Seq<char>) -> Seq<char> {
    task::agent_message_of(cancel_message_id_of(dispatch_id), t.id, t.context_id, "SMESH task canceled"@)
}

/// The cancelled task.
pub open spec fn canceled_task(t: task::TaskView, message: Seq<char>, now: i64) -> task::TaskView {
    task::TaskView {
        status: task::StatusView {
            state: TaskState::Canceled,
            message: Some(message),
            timestamp: task::rfc3339_of(now),
        },
        ..t
    }
}

/// What a cancellation does.
pub enum CancellationStep {
    /// The receiver decides; it is told of the cancellation where `record_intent`.
    AwaitReceiver { dispatch_id: String, message_id: String, record_intent: bool },
    /// The task is cancelled at the next revision.
    Cancel { task: Task, previous: TaskState, revision: i64 },
}

/// The reason that is recorded with a cancellation.
pub fn cancellation_audit(step: &CancellationStep) -> (r: AuditReason)
    ensures
        r == (if *step is AwaitReceiver {
            AuditReason::CancellationRequested
        } else {
            AuditReason::CancellationCommitted
        }),
        *step is Cancel ==> r == AuditReason::CancellationCommitted,
        *step is AwaitReceiver ==> r == AuditReason::CancellationRequested,
{
    match step {
        CancellationStep::AwaitReceiver { .. } => AuditReason::CancellationRequested,
        CancellationStep::Cancel { .. } => AuditReason::CancellationCommitted,
    }
}

/// What the reservation of a cancellation asks of the store.
pub open spec fn cancel_reservation(
    inputs: CancelInputs,
    scope: OwnedTaskScope,
    task_id: Seq<char>,
    now: i64,
) -> Result<ReservationAction, Fault> {
    reservation::reservation_outcome(
        inputs.reservation,
        scope.tenant_scope@,
        scope.owner_account_id@,
        task_id,
        inputs.stored_reservation,
        inputs.task_reserved,
        now,
        true,
    )
}

/// Why a cancellation is refused.
pub open spec fn cancel_fault(inputs: CancelInputs, scope: OwnedTaskScope, task_id: Seq<char>, now: i64) -> Option<
    Fault,
> {
    match inputs.row {
        None => Some(Fault::TaskNotFound),
        Some(row) => match cancel_reservation(inputs, scope, task_id, now) {
            Err(e) => Some(e),
            Ok(_) => match row.task {
                None => Some(Fault::StoredTaskCorrupt),
                Some(t) => if task::terminal(t.status.state) {
                    Some(Fault::TaskNotCancelable)
                } else if awaits_receiver(t.status.state, inputs.receiver, now) {
                    None
                } else if row.revision == i64::MAX {
                    Some(Fault::RevisionExhausted)
                } else {
                    None
                },
            },
        },
    }
}

/// Whether a step is what a cancellation that is not refused does.
pub open spec fn cancel_step(step: CancellationStep, inputs: CancelInputs, now: i64) -> bool {
    let row = inputs.row->0;
    let t = row.task->0;
    match step {
        CancellationStep::AwaitReceiver { dispatch_id, message_id, record_intent } => {
            &&& awaits_receiver(t.status.state, inputs.receiver, now)
            &&& dispatch_id@ == row.dispatch_id@
            &&& message_id@ == row.message_id@
            &&& record_intent == tells_receiver(inputs.receiver, now)
        },
        CancellationStep::Cancel { task, previous, revision } => {
            &&& !awaits_receiver(t.status.state, inputs.receiver, now)
            &&& task@ == canceled_task(t@, cancel_message(t@, row.dispatch_id@), now)
            &&& previous == t.status.state
            &&& revision == row.revision + 1
        },
    }
}

/// Decides what a cancellation does.
pub fn cancel_authorized_with_quota(
    inputs: &CancelInputs,
    scope: &OwnedTaskScope,
    task_id: &str,
    now: i64,
) -> (r: Result<(ReservationAction, CancellationStep), Fault>)
    ensures
        match r {
            Err(e) => cancel_fault(*inputs, *scope, task_id@, now) == Some(e),
            Ok((action, step)) => {
                &&& cancel_fault(*inputs, *scope, task_id@, now) is None
                &&& cancel_reservation(*inputs, *scope, task_id@, now) == Ok::<ReservationAction, Fault>(action)
                &&& cancel_step(step, *inputs, now)
            },
        },
{
    let row = match &inputs.row {
        Some(row) => row,
        None => {
            return Err(Fault::TaskNotFound);
        },
    };
    let action = match reservation::insert_quota_reservation(
        &inputs.reservation,
        scope.tenant_scope.as_str(),
        scope.owner_account_id.as_str(),
        task_id,
        &inputs.stored_reservation,
        inputs.task_reserved,
        now,
        true,
    ) {
        Ok(action) => action,
        Err(e) => {
            return Err(e);
        },
    };
    let t = match &row.task {
        Some(t) => t,
        None => {
            return Err(Fault::StoredTaskCorrupt);
        },
    };
    if t.status.state.is_terminal() {
        return Err(Fault::TaskNotCancelable);
    }
    let active = t.status.state == TaskState::Submitted || t.status.state == TaskState::Working;
    if let Some(receiver) = inputs.receiver {
        let live = match receiver.lease_until {
            Some(until) => until > now,
            None => false,
        };
        if active && (receiver.state == ReceiverState::Completed || live) {
            return Ok(
                (
                    action,
                    CancellationStep::AwaitReceiver {
                        dispatch_id: row.dispatch_id.clone(),
                        message_id: row.message_id.clone(),
                        record_intent: receiver.state == ReceiverState::Processing && live,
                    },
                ),
            );
        }
    }
    let id = cancel_message_id(row.dispatch_id.as_str());
    let message = match task::agent_message(
        id.as_str(),
        t.id.as_str(),
        t.context_id.as_str(),
        "SMESH task canceled",
    ) {
        Some(message) => message,
        None => {
            return Err(Fault::CancellationUnencodable);
        },
    };
    if row.revision == i64::MAX {
        return Err(Fault::RevisionExhausted);
    }
    let mut canceled = t.copy();
    canceled.status = TaskStatus { state: TaskState::Canceled, message: Some(message), timestamp: task::rfc3339(now) };
    Ok(
        (
            action,
            CancellationStep::Cancel { task: canceled, previous: t.status.state, revision: row.revision + 1 },
        ),
    )
}

/// A task that is cancelled outright makes a transition that the lifecycle allows,
/// unless it was never submitted.
pub proof fn law_cancellation_is_a_legal_transition(
    inputs: CancelInputs,
    scope: OwnedTaskScope,
    task_id: Seq<char>,
    now: i64,
)
    requires
        cancel_fault(inputs, scope, task_id, now) is None,
        inputs.row->0.task->0.status.state != TaskState::Unspecified,
    ensures
        task::transition_allowed(inputs.row->0.task->0.status.state, TaskState::Canceled),
{
}

/// A task whose receiver still works on it, or has finished with it, is never
/// cancelled behind the receiver's back.
pub proof fn law_working_receivers_are_awaited(
    step: CancellationStep,
    inputs: CancelInputs,
    now: i64,
)
    requires
        cancel_step(step, inputs, now),
        inputs.row->0.task->0.status.state == TaskState::Working,
        inputs.receiver matches Some(r) && (r.state == ReceiverState::Completed || receiver_live(r, now)),
    ensures
        step is AwaitReceiver,
{
}

/// A task that is submitted or working, and whose receiver has completed or holds a lease
/// that runs past the present, is never cancelled outright: the receiver decides, under the
/// dispatch and message on record, and it is told of the cancellation exactly where it is
/// processing under that lease. The present revision is then never exhausted.
pub proof fn law_receivers_are_awaited(
    step: CancellationStep,
    inputs: CancelInputs,
    scope: OwnedTaskScope,
    task_id: Seq<char>,
    now: i64,
)
    requires
        cancel_step(step, inputs, now),
        inputs.row->0.task->0.status.state == TaskState::Submitted || inputs.row->0.task->0.status.state
            == TaskState::Working,
        inputs.receiver is Some,
        inputs.receiver->0.state == ReceiverState::Completed || (inputs.receiver->0.lease_until is Some
            && inputs.receiver->0.lease_until->0 > now),
    ensures
        step is AwaitReceiver,
        step->AwaitReceiver_dispatch_id@ == inputs.row->0.dispatch_id@,
        step->message_id@ == inputs.row->0.message_id@,
        step->record_intent <==> inputs.receiver->0.state == ReceiverState::Processing
            && inputs.receiver->0.lease_until is Some && inputs.receiver->0.lease_until->0 > now,
        cancel_fault(inputs, scope, task_id, now) != Some(Fault::RevisionExhausted) || cancel_reservation(
            inputs,
            scope,
            task_id,
            now,
        ) is Err,
{
}

/// A task that no receiver holds, because it has none, its lease has run out without an
/// outcome, or the task waits for its caller, is cancelled outright: it moves to the
/// cancelled state at the next revision, with the time of the cancellation and a message,
/// and keeps everything else.
pub proof fn law_unheld_tasks_are_cancelled(step: CancellationStep, inputs: CancelInputs, now: i64)
    requires
        cancel_step(step, inputs, now),
        ({
            let state = inputs.row->0.task->0.status.state;
            ||| state != TaskState::Submitted && state != TaskState::Working
            ||| inputs.receiver is None
            ||| inputs.receiver->0.state != ReceiverState::Completed && (inputs.receiver->0.lease_until is None
                || inputs.receiver->0.lease_until->0 <= now)
        }),
    ensures
        step is Cancel,
        ({
            let before = inputs.row->0.task->0;
            let after = step->task;
            &&& after.status.state == TaskState::Canceled
            &&& after.status.message is Some
            &&& after@.status.timestamp == task::rfc3339_of(now)
            &&& after.id@ == before.id@
            &&& after.context_id@ == before.context_id@
            &&& after@.artifacts == before@.artifacts
            &&& after@.history == before@.history
            &&& after@.metadata == before@.metadata
            &&& step->previous == before.status.state
            &&& step->revision == inputs.row->0.revision + 1
        }),
{
}

/// A task that has ended cannot be cancelled, a task that is not there is not found, and a
/// revision is exhausted only where a task that no receiver holds stands at the last one.
pub proof fn law_cancellations_are_refused_for_their_task(
    inputs: CancelInputs,
    scope: OwnedTaskScope,
    task_id: Seq<char>,
    now: i64,
)
    ensures
        inputs.row is None ==> cancel_fault(inputs, scope, task_id, now) == Some(Fault::TaskNotFound),
        inputs.row is Some && cancel_reservation(inputs, scope, task_id, now) is Ok ==> {
            let row = inputs.row->0;
            let state = row.task->0.status.state;
            let ended = state == TaskState::Completed || state == TaskState::Failed || state == TaskState::Canceled
                || state == TaskState::Rejected;
            let held = (state == TaskState::Submitted || state == TaskState::Working) && inputs.receiver is Some && (
            inputs.receiver->0.state == ReceiverState::Completed || (inputs.receiver->0.lease_until is Some
                && inputs.receiver->0.lease_until->0 > now));
            match cancel_fault(inputs, scope, task_id, now) {
                Some(e) => {
                    ||| row.task is None && e == Fault::StoredTaskCorrupt
                    ||| row.task is Some && ended && e == Fault::TaskNotCancelable
                    ||| row.task is Some && !ended && !held && row.revision == i64::MAX && e
                        == Fault::RevisionExhausted
                },
                None => row.task is Some && !ended && (held || row.revision < i64::MAX),
            }
        },
        inputs.row is Some && cancel_reservation(inputs, scope, task_id, now) is Err ==> cancel_fault(
            inputs,
            scope,
            task_id,
            now,
        ) == Some(cancel_reservation(inputs, scope, task_id, now)->Err_0),
{
}

/// The id of the message that reports a cancellation, from the digest of the
/// dispatch.
pub open spec fn cancel_message_id_of(dispatch_id: Seq<char>) -> Seq<char> {
    "cancel-"@ + crypto::content_digest_of(text::utf8(dispatch_id)).subrange(0, 32)
}

/// Computes the id of the message that reports a cancellation.
pub fn cancel_message_id(dispatch_id: &str) -> (r: String)
    ensures
        r@ == cancel_message_id_of(dispatch_id@),
{
    let part = crypto::digest_part(dispatch_id.as_bytes(), 0, 32);
    let mut out = "cancel-".to_owned();
    out.append(part.as_str());
    out
}

/// What closing the open transcript of a cancelled task writes.
pub struct TranscriptClose {
    pub seq: i64,
    pub frame_digest: String,
    pub transcript_digest: String,
}

/// The texts of readable frames.
pub open spec fn readable_texts(stored: Seq<Option<String>>) -> Seq<Seq<char>> {
    Seq::new(stored.len(), |i: int| stored[i]->0@)
}

/// Closes the open transcript of a cancelled task with its last frame. `stored`
/// holds the encoded text of each frame that is on record, absent where a frame
/// cannot be read.
pub fn close_canceled_transcript(stored: &Vec<Option<String>>, terminal: &str) -> (r: Result<TranscriptClose, Fault>)
    requires
        stored@.len() < i64::MAX,
    ensures
        match r {
            Err(e) => e == Fault::StoredStreamFrameCorrupt && exists|i: int|
                0 <= i < stored@.len() && (#[trigger] stored@[i]) is None,
            Ok(close) => {
                &&& forall|i: int| 0 <= i < stored@.len() ==> (#[trigger] stored@[i]) is Some
                &&& close.seq == stored@.len() + 1
                &&& close.frame_digest@ == crypto::content_digest_of(text::utf8(terminal@))
                &&& close.transcript_digest@ == transcript::transcript_digest_of(
                    readable_texts(stored@).push(terminal@),
                )
            },
        },
        r matches Ok(close) ==> close.seq > stored@.len(),
        stored@.len() == 0 ==> r is Ok,
{
    let mut parts: Vec<String> = Vec::new();
    let mut i: usize = 0;
    while i < stored.len()
        invariant
            i <= stored@.len(),
            parts@.len() == i,
            forall|j: int| 0 <= j < i ==> (#[trigger] stored@[j]) is Some,
            forall|j: int| 0 <= j < i ==> (#[trigger] parts@[j])@ == stored@[j]->0@,
        decreases stored@.len() - i,
    {
        match &stored[i] {
            Some(one) => {
                parts.push(one.clone());
            },
            None => {
                assert(stored@[i as int] is None);
                return Err(Fault::StoredStreamFrameCorrupt);
            },
        }
        i += 1;
    }
    parts.push(terminal.to_owned());
    assert(text::texts(parts@) =~= readable_texts(stored@).push(terminal@));
    Ok(
        TranscriptClose {
            seq: stored.len() as i64 + 1,
            frame_digest: crypto::text_digest(terminal),
            transcript_digest: transcript::transcript_digest(&parts),
        },
    )
}

/// What the write of a cancelled task's row reports: another writer that came first
/// leaves nothing to cancel.
pub fn cancellation_committed(rows_written: u64) -> (r: Result<(), Fault>)
    ensures
        r == (if rows_written == 1 {
            Ok::<(), Fault>(())
        } else {
            Err(Fault::TaskNotCancelable)
        }),
        r is Ok <==> rows_written == 1,
{
    if rows_written == 1 {
        Ok(())
    } else {
        Err(Fault::TaskNotCancelable)
    }
}

/// A canceled task says so in a message of the agent about that task, whose name comes from the
/// dispatch it was canceled under.
pub proof fn law_cancellations_speak_of_their_task(t: task::TaskView, dispatch_id: Seq<char>, now: i64)
    ensures
        exists|name: Seq<char>|
            cancel_message(t, dispatch_id) == #[trigger] task::agent_message_of(
                name,
                t.id,
                t.context_id,
                "SMESH task canceled"@,
            ) && name.subrange(0, 7) == "cancel-"@ && name.subrange(7, name.len() as int) == crypto::content_digest_of(
                text::utf8(dispatch_id),
            ).subrange(0, 32),
        canceled_task(t, cancel_message(t, dispatch_id), now).status.state is Canceled,
        canceled_task(t, cancel_message(t, dispatch_id), now).status.message == Some(cancel_message(t, dispatch_id)),
        canceled_task(t, cancel_message(t, dispatch_id), now).status.timestamp == task::rfc3339_of(now),
        canceled_task(t, cancel_message(t, dispatch_id), now).id == t.id,
{
    reveal_strlit("cancel-");
    let name = cancel_message_id_of(dispatch_id);
    assert(name.subrange(0, 7) =~= "cancel-"@);
    assert(name.subrange(7, name.len() as int) =~= crypto::content_digest_of(text::utf8(dispatch_id)).subrange(0, 32));
}

/// A cancellation reserves for the owner of the task, in their tenant, and never where it expired.
pub proof fn law_cancellations_reserve_for_their_owner(
    inputs: CancelInputs,
    scope: OwnedTaskScope,
    task_id: Seq<char>,
    now: i64,
)
    ensures
        inputs.reservation is None && !inputs.task_reserved ==> cancel_reservation(inputs, scope, task_id, now) == Ok::<
            ReservationAction,
            Fault,
        >(ReservationAction::Nothing),
        inputs.reservation is None && inputs.task_reserved ==> cancel_reservation(inputs, scope, task_id, now) is Err,
        inputs.reservation is Some && (inputs.reservation->0.tenant_scope@ != scope.tenant_scope@
            || inputs.reservation->0.account_id@ != scope.owner_account_id@) ==> cancel_reservation(
            inputs,
            scope,
            task_id,
            now,
        ) == Err::<ReservationAction, Fault>(Fault::QuotaReservationScopeMismatch),
        inputs.reservation is Some && inputs.reservation->0.expires_at <= now ==> cancel_reservation(
            inputs,
            scope,
            task_id,
            now,
        ) is Err,
        inputs.reservation is Some && inputs.stored_reservation is None && cancel_reservation(inputs, scope, task_id, now)
            is Ok ==> cancel_reservation(inputs, scope, task_id, now)->Ok_0 == ReservationAction::Insert,
{
}

} // verus!
