//! The outbox: claiming dispatches, finishing attempts, dead letters and the
//! commit of a delivery.

use vstd::prelude::*;
use vstd::utf8::*;

use crate::admission::OutboxReservation;
use crate::fault::Fault;
use crate::receiver;
use crate::reservation;
use crate::reservation::{ExecutionReservation, ReservationColumns};
use crate::task;
use crate::task::{Frame, Task, TaskState, TaskStatus};
use crate::text;
use crate::transcript;
use crate::transcript::StoredFrame;

verus! {

/// The error recorded where the last attempt's lease ran out.
pub const FINAL_EXPIRY_ERROR: &'static str = "final outbox attempt lease expired before receiver acceptance";

/// The longest recorded diagnostic.
pub const MAX_DIAGNOSTIC_BYTES: usize = 4096;

/// The largest encoded frame of a delivered transcript.
pub const MAX_FRAME_BYTES: usize = 1_048_576;

/// The largest encoded transcript.
pub const MAX_TRANSCRIPT_BYTES: usize = 67_108_864;

/// A leased dispatch.
pub struct OutboxLease {
    pub tenant_scope: String,
    pub outbox_id: i64,
    pub dispatch_id: String,
    pub task_id: String,
    pub attempt_no: u32,
    pub max_attempts: u32,
    pub lease_owner: String,
    pub lease_token: String,
    pub lease_until: i64,
    pub execution_reservation: Option<ExecutionReservation>,
}

/// Who asks for a lease, and until when it lasts.
pub struct ClaimRequest {
    pub lease_owner: String,
    pub lease_token: String,
    pub now: i64,
    pub lease_until: i64,
}

/// Whether a dispatch may be claimed, and until when its lease then lasts.
pub fn check_claim(lease_owner: &str, now: i64, lease_duration: i64) -> (r: Result<i64, Fault>)
    ensures
        r == (if 1 <= text::utf8(lease_owner@).len() <= 4096 && lease_duration > 0 {
            reservation::lease_end(now, lease_duration, Fault::OutboxLeaseTimeOverflow)
        } else {
            Err(Fault::InvalidOutboxLease)
        }),
{
    let n: usize = text::byte_len(lease_owner);
    if n == 0 || n > 4096 || lease_duration <= 0 {
        return Err(Fault::InvalidOutboxLease);
    }
    reservation::lease_until(now, lease_duration, Fault::OutboxLeaseTimeOverflow)
}

/// A dispatch that the store handed out. The attempt is negative where it is the
/// last one, expired before the receiver accepted it.
pub struct ClaimRow {
    pub tenant_scope: String,
    pub outbox_id: i64,
    pub dispatch_id: String,
    pub task_id: String,
    pub attempt_no: i64,
    pub max_attempts: i64,
    pub payload_readable: bool,
    pub reservation: ReservationColumns,
}

/// The number of an attempt without its mark.
pub open spec fn plain_attempt(encoded: i64) -> int {
    if encoded < 0 {
        -encoded
    } else {
        encoded as int
    }
}

/// Why a claimed dispatch cannot be used at all.
pub open spec fn claim_fault(row: ClaimRow, quota_enforcement: bool) -> Option<Fault> {
    if row.attempt_no == i64::MIN {
        Some(Fault::OutboxAttemptCorrupt)
    } else if reservation::columns_fault(row.reservation) is Some {
        reservation::columns_fault(row.reservation)
    } else if quota_enforcement && reservation::columns_empty(row.reservation) {
        Some(Fault::ClaimableOutboxUnreserved)
    } else {
        None
    }
}

/// Why a dispatch cannot be handed out as a lease.
pub open spec fn lease_fault(row: ClaimRow) -> Option<Fault> {
    if !row.payload_readable {
        Some(Fault::OutboxPayloadCorrupt)
    } else if plain_attempt(row.attempt_no) > u32::MAX {
        Some(Fault::OutboxAttemptCorrupt)
    } else if row.max_attempts < 0 || row.max_attempts > u32::MAX {
        Some(Fault::OutboxBoundCorrupt)
    } else {
        None
    }
}

/// Whether a lease hands out a claimed dispatch.
pub open spec fn lease_of(lease: OutboxLease, row: ClaimRow, request: ClaimRequest) -> bool {
    &&& lease.tenant_scope@ == row.tenant_scope@
    &&& lease.outbox_id == row.outbox_id
    &&& lease.dispatch_id@ == row.dispatch_id@
    &&& lease.task_id@ == row.task_id@
    &&& lease.attempt_no == plain_attempt(row.attempt_no)
    &&& lease.max_attempts == row.max_attempts
    &&& lease.lease_owner@ == request.lease_owner@
    &&& lease.lease_token@ == request.lease_token@
    &&& lease.lease_until == request.lease_until
    &&& match lease.execution_reservation {
        None => reservation::columns_empty(row.reservation),
        Some(e) => reservation::reservation_from_columns(e, row.reservation),
    }
}

/// A claimed dispatch is usable exactly where its attempt can be counted, its reservation can
/// be read and, where quota is enforced, it has one.
pub proof fn law_enforced_claims_are_reserved(row: ClaimRow, quota_enforcement: bool)
    ensures
        row.attempt_no == i64::MIN ==> claim_fault(row, quota_enforcement) == Some(Fault::OutboxAttemptCorrupt),
        row.attempt_no > i64::MIN && reservation::columns_fault(row.reservation) is Some ==> claim_fault(
            row,
            quota_enforcement,
        ) == reservation::columns_fault(row.reservation),
        claim_fault(row, quota_enforcement) is None && quota_enforcement ==> row.reservation.reservation_id is Some,
        row.attempt_no > i64::MIN && reservation::columns_fault(row.reservation) is None && (!quota_enforcement
            || row.reservation.reservation_id is Some) ==> claim_fault(row, quota_enforcement) is None,
        row.attempt_no > i64::MIN && reservation::columns_fault(row.reservation) is None && quota_enforcement
            && row.reservation.reservation_id is None ==> claim_fault(row, quota_enforcement) == Some(
            Fault::ClaimableOutboxUnreserved,
        ),
{
}

/// A lease hands out the dispatch on record under the number of its attempt, to who asked for
/// it and until the time that was asked for.
pub proof fn law_leases_hand_out_their_dispatch(lease: OutboxLease, row: ClaimRow, request: ClaimRequest)
    requires
        lease_of(lease, row, request),
    ensures
        row.attempt_no >= 0 ==> lease.attempt_no == row.attempt_no,
        row.attempt_no < 0 ==> lease.attempt_no + row.attempt_no == 0,
        lease.max_attempts == row.max_attempts,
        lease.dispatch_id@ == row.dispatch_id@,
        lease.task_id@ == row.task_id@,
        lease.tenant_scope@ == row.tenant_scope@,
        lease.outbox_id == row.outbox_id,
        lease.lease_owner@ == request.lease_owner@,
        lease.lease_token@ == request.lease_token@,
        lease.lease_until == request.lease_until,
        lease.execution_reservation is Some <==> row.reservation.reservation_id is Some
            && row.reservation.binding_digest is Some || lease.execution_reservation is Some,
        lease.execution_reservation is None ==> row.reservation.reservation_id is None,
        lease.execution_reservation is Some ==> row.reservation.reservation_id is Some
            && lease.execution_reservation->0.reservation_id@ == row.reservation.reservation_id->0@,
{
}

/// A dispatch is handed out exactly where its payload can be read and its attempts fit.
pub proof fn law_readable_dispatches_are_leased(row: ClaimRow)
    requires
        row.attempt_no > i64::MIN,
    ensures
        lease_fault(row) is None <==> row.payload_readable && -0xffff_ffff <= row.attempt_no <= 0xffff_ffff && 0
            <= row.max_attempts <= 0xffff_ffff,
        !row.payload_readable ==> lease_fault(row) == Some(Fault::OutboxPayloadCorrupt),
        row.payload_readable && !(-0xffff_ffff <= row.attempt_no <= 0xffff_ffff) ==> lease_fault(row) == Some(
            Fault::OutboxAttemptCorrupt,
        ),
        row.payload_readable && -0xffff_ffff <= row.attempt_no <= 0xffff_ffff && !(0 <= row.max_attempts
            <= 0xffff_ffff) ==> lease_fault(row) == Some(Fault::OutboxBoundCorrupt),
{
}

/// The step that follows a claim.
pub enum ClaimStep {
    Lease(OutboxLease),
    /// The last attempt expired; what the receiver made of it decides.
    ResolveFinal { attempt_no: i64 },
}

fn build_lease(row: &ClaimRow, request: &ClaimRequest, found: Option<ExecutionReservation>) -> (r: Result<
    OutboxLease,
    Fault,
>)
    requires
        row.attempt_no > i64::MIN,
        match found {
            None => reservation::columns_empty(row.reservation),
            Some(e) => reservation::reservation_from_columns(e, row.reservation),
        },
    ensures
        match r {
            Ok(lease) => lease_fault(*row) is None && lease_of(lease, *row, *request),
            Err(e) => lease_fault(*row) == Some(e),
        },
{
    if !row.payload_readable {
        return Err(Fault::OutboxPayloadCorrupt);
    }
    let attempt: i64 = if row.attempt_no < 0 {
        -row.attempt_no
    } else {
        row.attempt_no
    };
    if attempt > 0xffff_ffff {
        return Err(Fault::OutboxAttemptCorrupt);
    }
    if row.max_attempts < 0 || row.max_attempts > 0xffff_ffff {
        return Err(Fault::OutboxBoundCorrupt);
    }
    Ok(
        OutboxLease {
            tenant_scope: row.tenant_scope.clone(),
            outbox_id: row.outbox_id,
            dispatch_id: row.dispatch_id.clone(),
            task_id: row.task_id.clone(),
            attempt_no: attempt as u32,
            max_attempts: row.max_attempts as u32,
            lease_owner: request.lease_owner.clone(),
            lease_token: request.lease_token.clone(),
            lease_until: request.lease_until,
            execution_reservation: found,
        },
    )
}

/// Decides what follows the claim of a dispatch.
pub fn claim_outbox(row: &ClaimRow, request: &ClaimRequest, quota_enforcement: bool) -> (r: Result<ClaimStep, Fault>)
    ensures
        match r {
            Err(e) => claim_fault(*row, quota_enforcement) == Some(e) || (claim_fault(*row, quota_enforcement) is None
                && row.attempt_no >= 0 && lease_fault(*row) == Some(e)),
            Ok(ClaimStep::Lease(lease)) => claim_fault(*row, quota_enforcement) is None && row.attempt_no >= 0
                && lease_fault(*row) is None && lease_of(lease, *row, *request),
            Ok(ClaimStep::ResolveFinal { attempt_no }) => claim_fault(*row, quota_enforcement) is None
                && row.attempt_no < 0 && attempt_no == -row.attempt_no,
        },
        r matches Ok(ClaimStep::Lease(lease)) ==> lease.attempt_no == row.attempt_no && lease.task_id@ == row.task_id@
            && lease.dispatch_id@ == row.dispatch_id@ && lease.lease_token@ == request.lease_token@
            && row.payload_readable,
        r matches Ok(ClaimStep::ResolveFinal { attempt_no }) ==> attempt_no > 0 && attempt_no + row.attempt_no == 0,
{
    if row.attempt_no == i64::MIN {
        return Err(Fault::OutboxAttemptCorrupt);
    }
    let found = match reservation::read_reservation(&row.reservation) {
        Ok(found) => found,
        Err(e) => {
            return Err(e);
        },
    };
    if quota_enforcement && found.is_none() {
        return Err(Fault::ClaimableOutboxUnreserved);
    }
    if row.attempt_no < 0 {
        return Ok(ClaimStep::ResolveFinal { attempt_no: -row.attempt_no });
    }
    match build_lease(row, request, found) {
        Ok(lease) => Ok(ClaimStep::Lease(lease)),
        Err(e) => Err(e),
    }
}

/// A receiver's stored state.
#[derive(Clone, Copy, Debug, PartialEq, Eq, Structural)]
pub enum ReceiverState {
    Processing,
    Completed,
    Other,
}

/// What the receiver has on record for a dispatch.
pub struct ReceiverRow {
    pub payload_digest: String,
    pub state: ReceiverState,
    pub lease_until: Option<i64>,
}

/// What is done about a last attempt that expired.
pub enum FinalStep {
    /// Another worker holds the dispatch, or the receiver still works on it.
    Nothing,
    /// The receiver took the dispatch; it is leased to learn its outcome. Where the
    /// receiver is still processing its sender fence moves to the new lease.
    Reclaim { lease: OutboxLease, move_fence: bool },
    /// The receiver never took the dispatch; it is dead.
    DeadLetter,
}

/// Whether the receiver is working on a dispatch under a lease that still runs.
pub open spec fn receiver_busy(row: ReceiverRow, now: i64) -> bool {
    row.state == ReceiverState::Processing && row.lease_until is Some && row.lease_until->0 > now
}

/// Resolves a last attempt that expired. `payload_digest` is that of the dispatch
/// where the claim still holds it, `receiver` what the receiver has on record.
pub fn resolve_final_attempt(
    row: &ClaimRow,
    request: &ClaimRequest,
    payload_digest: &Option<String>,
    receiver: &Option<ReceiverRow>,
) -> (r: Result<FinalStep, Fault>)
    requires
        i64::MIN < row.attempt_no < 0,
        reservation::columns_fault(row.reservation) is None,
    ensures
        match *payload_digest {
            None => r == Ok::<FinalStep, Fault>(FinalStep::Nothing),
            Some(digest) => match *receiver {
                None => r == Ok::<FinalStep, Fault>(FinalStep::DeadLetter),
                Some(found) => if found.payload_digest@ != digest@ {
                    r == Err::<FinalStep, Fault>(Fault::ReceiverPayloadConflict)
                } else if receiver_busy(found, request.now) {
                    r == Ok::<FinalStep, Fault>(FinalStep::Nothing)
                } else if found.state == ReceiverState::Other {
                    r == Ok::<FinalStep, Fault>(FinalStep::DeadLetter)
                } else {
                    match r {
                        Err(e) => lease_fault(*row) == Some(e),
                        Ok(step) => lease_fault(*row) is None && (step matches FinalStep::Reclaim { lease, move_fence }
                            && lease_of(lease, *row, *request) && move_fence == (found.state
                            == ReceiverState::Processing)),
                    }
                },
            },
        },
        r matches Ok(FinalStep::DeadLetter) ==> *payload_digest is Some && (*receiver is None || receiver->0.state
            == ReceiverState::Other),
        r matches Ok(FinalStep::Reclaim { lease, move_fence }) ==> *receiver is Some && receiver->0.state
            != ReceiverState::Other && (move_fence <==> receiver->0.state == ReceiverState::Processing)
            && lease.attempt_no == -row.attempt_no && lease.task_id@ == row.task_id@,
        *payload_digest is Some && *receiver is Some && receiver->0.payload_digest@ != payload_digest->0@ ==> r is Err,
        *payload_digest is Some && *receiver is Some && receiver->0.payload_digest@ == payload_digest->0@
            && receiver->0.state == ReceiverState::Processing && receiver->0.lease_until is Some
            && receiver->0.lease_until->0 > request.now ==> r == Ok::<FinalStep, Fault>(FinalStep::Nothing),
{
    let digest = match payload_digest {
        Some(digest) => digest,
        None => {
            return Ok(FinalStep::Nothing);
        },
    };
    let found = match receiver {
        Some(found) => found,
        None => {
            return Ok(FinalStep::DeadLetter);
        },
    };
    if found.payload_digest != *digest {
        return Err(Fault::ReceiverPayloadConflict);
    }
    let live = match found.lease_until {
        Some(until) => until > request.now,
        None => false,
    };
    if found.state == ReceiverState::Processing && live {
        return Ok(FinalStep::Nothing);
    }
    if found.state == ReceiverState::Other {
        return Ok(FinalStep::DeadLetter);
    }
    match reservation::read_reservation(&row.reservation) {
        Ok(execution) => match build_lease(row, request, execution) {
            Ok(lease) => Ok(
                FinalStep::Reclaim { lease, move_fence: found.state == ReceiverState::Processing },
            ),
            Err(e) => Err(e),
        },
        Err(e) => Err(e),
    }
}

/// A dispatch as it is on record.
pub struct OutboxRow {
    pub leased: bool,
    pub lease_owner: Option<String>,
    pub lease_token: Option<String>,
    pub lease_until: Option<i64>,
    pub attempt_count: i64,
    pub max_attempts: i64,
}

/// Whether a lease still holds its dispatch.
pub open spec fn outbox_fence_holds(row: OutboxRow, lease: OutboxLease, now: i64) -> bool {
    &&& row.leased
    &&& text::opt_text(row.lease_owner) == Some(lease.lease_owner@)
    &&& text::opt_text(row.lease_token) == Some(lease.lease_token@)
    &&& row.lease_until == Some(lease.lease_until)
    &&& row.attempt_count == lease.attempt_no
    &&& row.max_attempts == lease.max_attempts
    &&& lease.lease_until > now
}

/// One lease at a time holds a dispatch: two that hold it have the same owner, token, end and
/// attempt. The lease on record holds until its end and not at it.
pub proof fn law_one_lease_holds_a_dispatch(row: OutboxRow, a: OutboxLease, b: OutboxLease, now: i64)
    ensures
        outbox_fence_holds(row, a, now) && outbox_fence_holds(row, b, now) ==> a.lease_owner@ == b.lease_owner@
            && a.lease_token@ == b.lease_token@ && a.lease_until == b.lease_until && a.attempt_no == b.attempt_no
            && a.max_attempts == b.max_attempts,
        outbox_fence_holds(row, a, now) ==> row.leased && now < a.lease_until,
        row.leased && row.lease_owner is Some && row.lease_owner->0@ == a.lease_owner@ && row.lease_token is Some
            && row.lease_token->0@ == a.lease_token@ && row.lease_until == Some(a.lease_until) && row.attempt_count
            == a.attempt_no && row.max_attempts == a.max_attempts && now < a.lease_until ==> outbox_fence_holds(
            row,
            a,
            now,
        ),
        outbox_fence_holds(row, a, now) ==> row.attempt_count == a.attempt_no && row.max_attempts == a.max_attempts
            && row.lease_until == Some(a.lease_until) && row.lease_owner is Some && row.lease_owner->0@
            == a.lease_owner@ && row.lease_token is Some && row.lease_token->0@ == a.lease_token@,
{
}

/// Whether a lease still holds its dispatch.
pub fn holds_outbox_fence(row: &OutboxRow, lease: &OutboxLease, now: i64) -> (r: bool)
    ensures
        r == outbox_fence_holds(*row, *lease, now),
{
    row.leased && text::opt_text_is(&row.lease_owner, lease.lease_owner.as_str()) && text::opt_text_is(
        &row.lease_token,
        lease.lease_token.as_str(),
    ) && row.lease_until == Some(lease.lease_until) && row.attempt_count == lease.attempt_no as i64
        && row.max_attempts == lease.max_attempts as i64 && lease.lease_until > now
}

/// How a lease renewal ended.
#[derive(Clone, Copy, Debug, PartialEq, Eq, Structural)]
pub enum LeaseRenewalOutcome {
    Applied { lease_until: i64 },
    Stale,
}

/// Renews the lease of a dispatch where it is still held and the dispatch still
/// has the reservation that the lease was handed out with.
pub fn renew_outbox_lease(
    row: &OutboxRow,
    stored: &OutboxReservation,
    lease: &OutboxLease,
    now: i64,
    lease_duration: i64,
) -> (r: Result<LeaseRenewalOutcome, Fault>)
    ensures
        r == (if !(10 <= lease_duration <= 300_000) {
            Err::<LeaseRenewalOutcome, Fault>(Fault::InvalidOutboxRenewal)
        } else if now + lease_duration > i64::MAX {
            Err(Fault::OutboxRenewalOverflow)
        } else if outbox_fence_holds(*row, *lease, now) && receiver::stored_columns_match(
            *stored,
            lease.execution_reservation,
        ) {
            Ok(LeaseRenewalOutcome::Applied { lease_until: (now + lease_duration) as i64 })
        } else {
            Ok(LeaseRenewalOutcome::Stale)
        }),
        r matches Ok(LeaseRenewalOutcome::Applied { lease_until }) ==> lease_until - now == lease_duration && row.leased
            && lease.lease_until > now && row.lease_until == Some(lease.lease_until) && row.attempt_count
            == lease.attempt_no,
        lease.lease_until <= now || !row.leased ==> !(r matches Ok(LeaseRenewalOutcome::Applied { .. })),
{
    if lease_duration < 10 || lease_duration > 300_000 {
        return Err(Fault::InvalidOutboxRenewal);
    }
    match now.checked_add(lease_duration) {
        None => Err(Fault::OutboxRenewalOverflow),
        Some(until) => if holds_outbox_fence(row, lease, now) && receiver::columns_match(
            stored,
            &lease.execution_reservation,
        ) {
            Ok(LeaseRenewalOutcome::Applied { lease_until: until })
        } else {
            Ok(LeaseRenewalOutcome::Stale)
        },
    }
}

/// How an attempt ended.
pub enum AttemptDisposition {
    Retry { available_at: i64, error: String },
    Permanent { error: String },
}

/// The recorded error of a disposition.
pub open spec fn disposition_error(d: AttemptDisposition) -> Seq<char> {
    match d {
        AttemptDisposition::Retry { available_at, error } => error@,
        AttemptDisposition::Permanent { error } => error@,
    }
}

/// What finishing an attempt does.
#[derive(Clone, Copy, Debug, PartialEq, Eq, Structural)]
pub enum FinishStep {
    /// The lease no longer holds the dispatch, or a cancellation has it.
    Stale,
    /// The receiver took the dispatch; a new fence waits for its outcome.
    Reconcile,
    /// The dispatch becomes available again.
    Retry { available_at: i64 },
    /// The dispatch is dead.
    DeadLetter,
}

/// Whether an attempt is the dispatch's last.
pub open spec fn attempt_is_final(lease: OutboxLease, d: AttemptDisposition) -> bool {
    lease.attempt_no >= lease.max_attempts || d is Permanent
}

/// What finishing an attempt does, or why it is refused.
pub open spec fn finish_outcome(
    row: Option<OutboxRow>,
    lease: OutboxLease,
    d: AttemptDisposition,
    canceling: bool,
    payload_digest: Seq<char>,
    receiver: Option<ReceiverRow>,
    now: i64,
) -> Result<FinishStep, Fault> {
    if row is None || !outbox_fence_holds(row->0, lease, now) || canceling {
        Ok(FinishStep::Stale)
    } else if text::utf8(disposition_error(d)).len() > MAX_DIAGNOSTIC_BYTES {
        Err(Fault::OutboxErrorTooLong)
    } else if attempt_is_final(lease, d) {
        match receiver {
            Some(found) => if found.payload_digest@ != payload_digest {
                Err(Fault::ReceiverPayloadConflict)
            } else if found.state == ReceiverState::Processing || found.state == ReceiverState::Completed {
                Ok(FinishStep::Reconcile)
            } else {
                Ok(FinishStep::DeadLetter)
            },
            None => Ok(FinishStep::DeadLetter),
        }
    } else {
        Ok(FinishStep::Retry { available_at: d->available_at })
    }
}

/// Decides what finishing an attempt does. An attempt that failed after the
/// receiver took the dispatch never kills it.
pub fn finish_outbox_attempt(
    row: &Option<OutboxRow>,
    lease: &OutboxLease,
    d: &AttemptDisposition,
    canceling: bool,
    payload_digest: &str,
    receiver: &Option<ReceiverRow>,
    now: i64,
) -> (r: Result<FinishStep, Fault>)
    ensures
        r == finish_outcome(*row, *lease, *d, canceling, payload_digest@, *receiver, now),
{
    match row {
        None => {
            return Ok(FinishStep::Stale);
        },
        Some(found) => {
            if !holds_outbox_fence(found, lease, now) {
                return Ok(FinishStep::Stale);
            }
        },
    }
    if canceling {
        return Ok(FinishStep::Stale);
    }
    let exhausted = lease.attempt_no >= lease.max_attempts;
    match d {
        AttemptDisposition::Retry { available_at, error } => {
            if text::byte_len(error.as_str()) > MAX_DIAGNOSTIC_BYTES {
                return Err(Fault::OutboxErrorTooLong);
            }
            if !exhausted {
                return Ok(FinishStep::Retry { available_at: *available_at });
            }
        },
        AttemptDisposition::Permanent { error } => {
            if text::byte_len(error.as_str()) > MAX_DIAGNOSTIC_BYTES {
                return Err(Fault::OutboxErrorTooLong);
            }
        },
    }
    match receiver {
        None => Ok(FinishStep::DeadLetter),
        Some(found) => {
            if !text::same_text(found.payload_digest.as_str(), payload_digest) {
                return Err(Fault::ReceiverPayloadConflict);
            }
            if found.state == ReceiverState::Processing || found.state == ReceiverState::Completed {
                Ok(FinishStep::Reconcile)
            } else {
                Ok(FinishStep::DeadLetter)
            }
        },
    }
}

/// How the end of an attempt was recorded.
#[derive(Clone, Copy, Debug, PartialEq, Eq, Structural)]
pub enum TransitionOutcome {
    Applied,
    DeadLettered,
    Stale,
}

/// How the end of an attempt was recorded, given the fewest rows that one of its
/// writes of the attempt and the dispatch reached: a write that missed its row
/// leaves the attempt to whoever holds it now.
pub fn finish_committed(step: FinishStep, rows_written: u64) -> (r: TransitionOutcome)
    ensures
        r == (match step {
            FinishStep::Stale => TransitionOutcome::Stale,
            FinishStep::Reconcile => TransitionOutcome::Applied,
            FinishStep::Retry { .. } => if rows_written == 1 {
                TransitionOutcome::Applied
            } else {
                TransitionOutcome::Stale
            },
            FinishStep::DeadLetter => if rows_written == 1 {
                TransitionOutcome::DeadLettered
            } else {
                TransitionOutcome::Stale
            },
        }),
        r == TransitionOutcome::DeadLettered <==> step is DeadLetter && rows_written == 1,
        r == TransitionOutcome::Applied <==> step is Reconcile || (step is Retry && rows_written == 1),
        (step is Retry || step is DeadLetter) && rows_written != 1 ==> r == TransitionOutcome::Stale,
{
    match step {
        FinishStep::Stale => TransitionOutcome::Stale,
        FinishStep::Reconcile => TransitionOutcome::Applied,
        FinishStep::Retry { .. } => if rows_written == 1 {
            TransitionOutcome::Applied
        } else {
            TransitionOutcome::Stale
        },
        FinishStep::DeadLetter => if rows_written == 1 {
            TransitionOutcome::DeadLettered
        } else {
            TransitionOutcome::Stale
        },
    }
}

/// A write that has to reach exactly the row that was read and locked before it.
#[derive(Clone, Copy, Debug, PartialEq, Eq, Structural)]
pub enum FencedWrite {
    /// The receiver's sender fence, moved to the lease that reclaims a last attempt.
    FinalReceiver,
    /// A last attempt that expired, closed as dead.
    FinalAttempt,
    /// The dispatch of a last attempt that expired.
    FinalDispatch,
    /// A task that fails with its dead letter.
    DeadLetterTask,
    /// The record that answers a dead-lettered request.
    DeadLetterRecord,
    /// The receiver's sender fence, moved to the reconciliation lease.
    ReceiverReconciliation,
    /// The seal of a transcript after a progress frame.
    StreamProgress,
    /// The seal of a delivered transcript.
    StreamCompletion,
    /// A dispatch that a receiver reclaims.
    ReceiverReclaim,
    /// A dispatch that a receiver completes, and the transcript it leaves.
    ReceiverCompletion,
    /// A task that takes a continuation.
    Continuation,
}

/// The refusal where a fenced write missed its row.
pub open spec fn lost_fence(write: FencedWrite) -> Fault {
    match write {
        FencedWrite::FinalReceiver => Fault::FinalReceiverFenceStale,
        FencedWrite::FinalAttempt => Fault::FinalAttemptFenceCorrupt,
        FencedWrite::FinalDispatch => Fault::FinalDeadLetterFenceStale,
        FencedWrite::DeadLetterTask => Fault::DeadLetterTaskLost,
        FencedWrite::DeadLetterRecord => Fault::DeadLetterBindingCorrupt,
        FencedWrite::ReceiverReconciliation => Fault::ReceiverReconciliationStale,
        FencedWrite::StreamProgress => Fault::StreamProgressStale,
        FencedWrite::StreamCompletion => Fault::StreamCompletionStale,
        FencedWrite::ReceiverReclaim => Fault::ReceiverReclaimFailed,
        FencedWrite::ReceiverCompletion => Fault::ReceiverLeaseStale,
        FencedWrite::Continuation => Fault::TaskNoLongerAcceptsContinuation,
    }
}

/// Refuses a fenced write that did not reach exactly its row.
pub fn check_fenced_write(write: FencedWrite, rows_written: u64) -> (r: Result<(), Fault>)
    ensures
        r == (if rows_written == 1 {
            Ok::<(), Fault>(())
        } else {
            Err(lost_fence(write))
        }),
{
    if rows_written == 1 {
        return Ok(());
    }
    Err(
        match write {
            FencedWrite::FinalReceiver => Fault::FinalReceiverFenceStale,
            FencedWrite::FinalAttempt => Fault::FinalAttemptFenceCorrupt,
            FencedWrite::FinalDispatch => Fault::FinalDeadLetterFenceStale,
            FencedWrite::DeadLetterTask => Fault::DeadLetterTaskLost,
            FencedWrite::DeadLetterRecord => Fault::DeadLetterBindingCorrupt,
            FencedWrite::ReceiverReconciliation => Fault::ReceiverReconciliationStale,
            FencedWrite::StreamProgress => Fault::StreamProgressStale,
            FencedWrite::StreamCompletion => Fault::StreamCompletionStale,
            FencedWrite::ReceiverReclaim => Fault::ReceiverReclaimFailed,
            FencedWrite::ReceiverCompletion => Fault::ReceiverLeaseStale,
            FencedWrite::Continuation => Fault::TaskNoLongerAcceptsContinuation,
        },
    )
}

/// A dispatch dies only at its last attempt and only where the receiver does not
/// have it.
pub proof fn law_only_final_unaccepted_attempts_die(
    row: Option<OutboxRow>,
    lease: OutboxLease,
    d: AttemptDisposition,
    canceling: bool,
    payload_digest: Seq<char>,
    receiver: Option<ReceiverRow>,
    now: i64,
)
    requires
        finish_outcome(row, lease, d, canceling, payload_digest, receiver, now) == Ok::<FinishStep, Fault>(
            FinishStep::DeadLetter,
        ),
    ensures
        attempt_is_final(lease, d),
        receiver matches Some(found) ==> found.state == ReceiverState::Other,
        !canceling,
{
}

/// An attempt that ends under its own lease, with no cancellation under way, is tried again at
/// the time that was asked for exactly where it may be retried and attempts are left. At its
/// last attempt a dispatch that the receiver has taken is reconciled and any other is dead.
pub proof fn law_attempts_end_as_the_receiver_has_them(
    row: OutboxRow,
    lease: OutboxLease,
    d: AttemptDisposition,
    payload_digest: Seq<char>,
    receiver: Option<ReceiverRow>,
    now: i64,
)
    requires
        outbox_fence_holds(row, lease, now),
        text::utf8(disposition_error(d)).len() <= 4096,
    ensures
        ({
            let r = finish_outcome(Some(row), lease, d, false, payload_digest, receiver, now);
            let last = lease.attempt_no >= lease.max_attempts || d is Permanent;
            &&& !last ==> r == Ok::<FinishStep, Fault>(FinishStep::Retry { available_at: d->available_at })
            &&& last && receiver is None ==> r == Ok::<FinishStep, Fault>(FinishStep::DeadLetter)
            &&& last && receiver is Some && receiver->0.payload_digest@ != payload_digest ==> r == Err::<
                FinishStep,
                Fault,
            >(Fault::ReceiverPayloadConflict)
            &&& last && receiver is Some && receiver->0.payload_digest@ == payload_digest && (receiver->0.state
                == ReceiverState::Processing || receiver->0.state == ReceiverState::Completed) ==> r == Ok::<
                FinishStep,
                Fault,
            >(FinishStep::Reconcile)
            &&& last && receiver is Some && receiver->0.payload_digest@ == payload_digest && receiver->0.state
                != ReceiverState::Processing && receiver->0.state != ReceiverState::Completed ==> r == Ok::<
                FinishStep,
                Fault,
            >(FinishStep::DeadLetter)
        }),
{
}

/// An attempt whose lease no longer holds its dispatch, or that meets a cancellation, ends
/// without any effect; an error that is too long to be recorded is refused.
pub proof fn law_lost_attempts_have_no_effect(
    row: Option<OutboxRow>,
    lease: OutboxLease,
    d: AttemptDisposition,
    canceling: bool,
    payload_digest: Seq<char>,
    receiver: Option<ReceiverRow>,
    now: i64,
)
    ensures
        canceling || row is None || now >= lease.lease_until || !row->0.leased || row->0.attempt_count
            != lease.attempt_no || row->0.lease_token is None || row->0.lease_token->0@ != lease.lease_token@
            ==> finish_outcome(row, lease, d, canceling, payload_digest, receiver, now) == Ok::<FinishStep, Fault>(
            FinishStep::Stale,
        ),
        finish_outcome(row, lease, d, canceling, payload_digest, receiver, now) == Err::<FinishStep, Fault>(
            Fault::OutboxErrorTooLong,
        ) ==> text::utf8(disposition_error(d)).len() > 4096,
        d is Retry ==> disposition_error(d) == d->Retry_error@,
        d is Permanent ==> disposition_error(d) == d->Permanent_error@,
        !canceling && row is Some && outbox_fence_holds(row->0, lease, now) && text::utf8(disposition_error(d)).len()
            > 4096 ==> finish_outcome(row, lease, d, canceling, payload_digest, receiver, now) is Err,
{
}

/// Every write that misses its row is refused by a fault of its own.
pub proof fn law_lost_fences_are_told_apart(a: FencedWrite, b: FencedWrite)
    ensures
        lost_fence(a) == lost_fence(b) <==> a == b,
{
}

/// The message of a dead-lettered task's status.
pub open spec fn dead_letter_text(error: Seq<char>) -> Seq<char> {
    "Dispatch dead-lettered after bounded retries: "@ + error
}

/// The message of a dead-lettered task's status.
pub fn dead_letter_message(error: &str) -> (r: String)
    ensures
        r@ == dead_letter_text(error@),
{
    let mut out = "Dispatch dead-lettered after bounded retries: ".to_owned();
    out.append(error);
    out
}

/// What a dead letter does to its task.
pub enum DeadLetterStep {
    /// The task ended before; the dispatch is only superseded.
    AlreadyTerminal,
    /// The task fails at the next revision.
    Fail { task: Task, revision: i64 },
}

/// A task that failed, with the status message and time that it failed with.
pub open spec fn failed_task(t: task::TaskView, message: Seq<char>, timestamp: Option<Seq<char>>) -> task::TaskView {
    task::TaskView {
        status: task::StatusView { state: TaskState::Failed, message: Some(message), timestamp },
        ..t
    }
}

/// The encoded status message of a dead-lettered task.
pub open spec fn dead_letter_status(t: task::TaskView, message_id: Seq<char>, error: Seq<char>) -> Seq<char> {
    task::agent_message_of(message_id, t.id, t.context_id, dead_letter_text(error))
}

/// A task that fails keeps everything but its status, which is the failure with its message
/// and time.
pub proof fn law_failed_tasks_keep_their_work(t: task::TaskView, message: Seq<char>, timestamp: Option<Seq<char>>)
    ensures
        failed_task(t, message, timestamp).status.state == TaskState::Failed,
        failed_task(t, message, timestamp).status.message == Some(message),
        failed_task(t, message, timestamp).status.timestamp == timestamp,
        failed_task(t, message, timestamp).id == t.id,
        failed_task(t, message, timestamp).context_id == t.context_id,
        failed_task(t, message, timestamp).artifacts == t.artifacts,
        failed_task(t, message, timestamp).history == t.history,
        failed_task(t, message, timestamp).metadata == t.metadata,
{
}

/// The status message of a dead letter ends with the error that killed it.
pub proof fn law_dead_letters_quote_their_error(error: Seq<char>)
    ensures
        ({
            let said = dead_letter_text(error);
            let lead = said.len() - error.len();
            &&& lead == 46
            &&& said.subrange(lead, said.len() as int) == error
        }),
{
    reveal_strlit("Dispatch dead-lettered after bounded retries: ");
    let said = dead_letter_text(error);
    assert(said.subrange(said.len() - error.len(), said.len() as int) =~= error);
}

/// Decides what a dead letter does to its task. `stored` is absent where the
/// task's text is corrupt; `message_id` is the id drawn for the status message.
pub fn materialize_postgres_dead_letter(
    stored: &Option<Task>,
    revision: i64,
    message_id: &str,
    error: &str,
    now: i64,
) -> (r: Result<DeadLetterStep, Fault>)
    ensures
        match *stored {
            None => r == Err::<DeadLetterStep, Fault>(Fault::StoredTaskCorrupt),
            Some(t) => if task::terminal(t.status.state) {
                r == Ok::<DeadLetterStep, Fault>(DeadLetterStep::AlreadyTerminal)
            } else if revision == i64::MAX {
                r == Err::<DeadLetterStep, Fault>(Fault::RevisionExhausted)
            } else {
                r matches Ok(DeadLetterStep::Fail { task: failed, revision: next }) && failed@ == failed_task(
                    t@,
                    dead_letter_status(t@, message_id@, error@),
                    task::rfc3339_of(now),
                ) && next == revision + 1
            },
        },
        r matches Ok(DeadLetterStep::Fail { task: failed, revision: next }) ==> *stored is Some && failed.status.state
            == TaskState::Failed && failed.id@ == stored->0.id@ && failed.context_id@ == stored->0.context_id@
            && failed@.artifacts == stored->0@.artifacts && failed@.history == stored->0@.history && next - revision
            == 1,
{
    let t = match stored {
        Some(t) => t,
        None => {
            return Err(Fault::StoredTaskCorrupt);
        },
    };
    if t.status.state.is_terminal() {
        return Ok(DeadLetterStep::AlreadyTerminal);
    }
    if revision == i64::MAX {
        return Err(Fault::RevisionExhausted);
    }
    let said = dead_letter_message(error);
    let message = match task::agent_message(message_id, t.id.as_str(), t.context_id.as_str(), said.as_str()) {
        Some(message) => message,
        None => {
            return Err(Fault::DeadLetterUnencodable);
        },
    };
    let mut failed = t.copy();
    failed.status = TaskStatus { state: TaskState::Failed, message: Some(message), timestamp: task::rfc3339(now) };
    Ok(DeadLetterStep::Fail { task: failed, revision: revision + 1 })
}

/// A dead letter only ever makes a transition that the lifecycle allows.
pub proof fn law_dead_letter_is_a_legal_transition(from: TaskState)
    requires
        !task::terminal(from),
    ensures
        task::transition_allowed(from, TaskState::Failed),
{
}

/// The bytes of an error that an interruption keeps.
pub open spec fn interruption_room() -> int {
    MAX_DIAGNOSTIC_BYTES - text::utf8("durable stream interrupted: "@).len()
}

/// Where an error is cut so that the interruption that quotes it fits: the last
/// character boundary within the room.
pub open spec fn interruption_cut(error: Seq<u8>, end: int) -> bool {
    &&& 0 <= end <= error.len()
    &&& end <= interruption_room()
    &&& is_char_boundary(error, end)
    &&& forall|e: int|
        end < e <= error.len() && e <= interruption_room() ==> !#[trigger] is_char_boundary(error, e)
}

/// The recorded reason of an interrupted stream: the error behind a fixed
/// prefix, cut at a character boundary so that it can be recorded.
pub fn stream_interruption(error: &str) -> (r: String)
    ensures
        exists|end: int| #[trigger]
            interruption_cut(text::utf8(error@), end) && text::utf8(r@) == text::utf8(
                "durable stream interrupted: "@,
            ) + text::utf8(error@).subrange(0, end),
        text::utf8(r@).len() <= MAX_DIAGNOSTIC_BYTES,
{
    let prefix = "durable stream interrupted: ";
    proof {
        reveal_strlit("durable stream interrupted: ");
        assert forall|i: int| 0 <= i < prefix@.len() implies '\0' <= #[trigger] prefix@[i] <= '\u{7f}' by {}
        assert(is_ascii_chars(prefix@));
        is_ascii_chars_encode_utf8(prefix@);
        assert(prefix@.len() == 28);
    }
    let room: usize = MAX_DIAGNOSTIC_BYTES - text::byte_len(prefix);
    let n: usize = text::byte_len(error);
    let ghost bytes = text::utf8(error@);
    let mut end: usize = if n < room {
        n
    } else {
        room
    };
    proof {
        encode_utf8_valid_utf8(error@);
        is_char_boundary_start_end_of_seq(bytes);
        is_char_boundary_start_end_of_seq(Seq::<u8>::empty());
    }
    while !error.is_char_boundary(end)
        invariant
            bytes == text::utf8(error@),
            room == interruption_room(),
            end <= bytes.len(),
            end <= room,
            is_char_boundary(bytes, 0),
            forall|e: int| end < e <= bytes.len() && e <= room ==> !#[trigger] is_char_boundary(bytes, e),
        decreases end,
    {
        assert(end != 0);
        end -= 1;
    }
    assert(interruption_cut(bytes, end as int));
    let (kept, _) = error.split_at(end);
    let mut out = prefix.to_owned();
    out.append(kept);
    proof {
        text::lemma_utf8_concat(prefix@, kept@);
    }
    out
}

/// Why a delivery is refused before anything is read. `result` is the task that
/// the result carries, absent where it carries a message; `sizes` are the encoded
/// sizes of the frames, absent where one cannot be encoded.
pub open spec fn delivery_preflight_fault(
    lease: OutboxLease,
    t: Task,
    result: Option<Task>,
    frames: Seq<Frame>,
    transcript_bytes: usize,
    sizes: Seq<Option<usize>>,
) -> Option<Fault> {
    if t.id@ != lease.task_id@ || !task::dispatch_closed(t.status.state) || !(result is Some && result->0@ == t@) {
        Some(Fault::InvalidDeliveryResult)
    } else if !task::complete_transcript(task::frame_views(frames), t@) {
        Some(Fault::InvalidAgentResponse)
    } else if transcript_bytes > MAX_TRANSCRIPT_BYTES || exists|i: int|
        0 <= i < sizes.len() && oversized_frame(#[trigger] sizes[i]) {
        Some(Fault::PublicTranscriptTooLarge)
    } else {
        None
    }
}

/// A frame that is too large, or that cannot be encoded.
pub open spec fn oversized_frame(size: Option<usize>) -> bool {
    size is None || size->0 > MAX_FRAME_BYTES
}

/// A delivery passes its first checks exactly where it is the closed task of the lease, its
/// result is that task, its frames are the complete stream of it and none of them, nor all of
/// them together, is too large.
pub proof fn law_deliveries_are_complete(
    lease: OutboxLease,
    t: Task,
    result: Option<Task>,
    frames: Seq<Frame>,
    transcript_bytes: usize,
    sizes: Seq<Option<usize>>,
)
    ensures
        ({
            let fault = delivery_preflight_fault(lease, t, result, frames, transcript_bytes, sizes);
            let state = t.status.state;
            let closed = state != TaskState::Unspecified && state != TaskState::Submitted && state
                != TaskState::Working;
            let own = t.id@ == lease.task_id@ && closed && result is Some && result->0@ == t@;
            let whole = task::complete_transcript(task::frame_views(frames), t@);
            let fits = transcript_bytes <= 67_108_864 && forall|i: int|
                0 <= i < sizes.len() ==> (#[trigger] sizes[i]) is Some && sizes[i]->0 <= 1_048_576;
            &&& !own ==> fault == Some(Fault::InvalidDeliveryResult)
            &&& own && !whole ==> fault == Some(Fault::InvalidAgentResponse)
            &&& own && whole && !fits ==> fault == Some(Fault::PublicTranscriptTooLarge)
            &&& own && whole && fits ==> fault is None
        }),
{
    let fits = transcript_bytes <= 67_108_864 && forall|i: int|
        0 <= i < sizes.len() ==> (#[trigger] sizes[i]) is Some && sizes[i]->0 <= 1_048_576;
    if transcript_bytes <= 67_108_864 && !fits {
        let i = choose|i: int|
            0 <= i < sizes.len() && !((#[trigger] sizes[i]) is Some && sizes[i]->0 <= 1_048_576);
        assert(oversized_frame(sizes[i]));
    }
    if fits {
        assert forall|i: int| 0 <= i < sizes.len() implies !oversized_frame(#[trigger] sizes[i]) by {}
    }
}

/// Refuses a delivery that cannot be committed whatever is on record.
pub fn preflight_delivery(
    lease: &OutboxLease,
    t: &Task,
    result: &Option<Task>,
    frames: &Vec<Frame>,
    transcript_bytes: usize,
    sizes: &Vec<Option<usize>>,
) -> (r: Result<(), Fault>)
    ensures
        match r {
            Ok(_) => delivery_preflight_fault(*lease, *t, *result, frames@, transcript_bytes, sizes@) is None,
            Err(e) => delivery_preflight_fault(*lease, *t, *result, frames@, transcript_bytes, sizes@) == Some(e),
        },
{
    let result_matches = match result {
        Some(found) => found.same(t),
        None => false,
    };
    if t.id != lease.task_id || !task::is_dispatch_closed(t.status.state) || !result_matches {
        return Err(Fault::InvalidDeliveryResult);
    }
    match task::validate_terminal_public_transcript(frames, t) {
        Err(e) => {
            return Err(e);
        },
        Ok(_) => {},
    }
    if transcript_bytes > MAX_TRANSCRIPT_BYTES || any_oversized(sizes) {
        return Err(Fault::PublicTranscriptTooLarge);
    }
    Ok(())
}

fn any_oversized(sizes: &Vec<Option<usize>>) -> (r: bool)
    ensures
        r == exists|i: int| 0 <= i < sizes@.len() && oversized_frame(#[trigger] sizes@[i]),
{
    let mut i: usize = 0;
    while i < sizes.len()
        invariant
            i <= sizes@.len(),
            forall|j: int| 0 <= j < i ==> !oversized_frame(#[trigger] sizes@[j]),
        decreases sizes@.len() - i,
    {
        let large = match sizes[i] {
            Some(n) => n > MAX_FRAME_BYTES,
            None => true,
        };
        if large {
            assert(oversized_frame(sizes@[i as int]));
            return true;
        }
        i += 1;
    }
    false
}

/// The first step of committing a delivery.
#[derive(Clone, Copy, Debug, PartialEq, Eq, Structural)]
pub enum DeliveryStep {
    /// The lease no longer holds the dispatch, or the task moved on without it.
    Stale,
    /// The task is written at this revision.
    Commit { revision: i64 },
}

/// Decides whether a delivery is committed: only under a lease that holds, and
/// only onto the revision that the dispatch was made from.
pub fn commit_delivery(
    row: &Option<OutboxRow>,
    lease: &OutboxLease,
    causative_revision: i64,
    task_revision: i64,
    now: i64,
) -> (r: Result<DeliveryStep, Fault>)
    ensures
        r == (if row is None || !outbox_fence_holds(row->0, *lease, now) {
            Ok::<DeliveryStep, Fault>(DeliveryStep::Stale)
        } else if causative_revision == i64::MAX {
            Err(Fault::RevisionExhausted)
        } else if task_revision != causative_revision {
            Ok(DeliveryStep::Stale)
        } else {
            Ok(DeliveryStep::Commit { revision: (causative_revision + 1) as i64 })
        }),
        r matches Ok(DeliveryStep::Commit { revision }) ==> revision == task_revision + 1 && task_revision
            == causative_revision && row is Some && row->0.leased && lease.lease_until > now,
{
    match row {
        None => {
            return Ok(DeliveryStep::Stale);
        },
        Some(found) => {
            if !holds_outbox_fence(found, lease, now) {
                return Ok(DeliveryStep::Stale);
            }
        },
    }
    if causative_revision == i64::MAX {
        return Err(Fault::RevisionExhausted);
    }
    if task_revision != causative_revision {
        return Ok(DeliveryStep::Stale);
    }
    Ok(DeliveryStep::Commit { revision: causative_revision + 1 })
}

/// Why the open transcript of a delivered task cannot be completed.
pub open spec fn completion_fault(
    rows: Seq<StoredFrame>,
    count: i64,
    digest: Seq<char>,
    delivered: Seq<task::FrameView>,
) -> Option<Fault> {
    if count < 0 || count > delivered.len() {
        Some(Fault::PersistedPrefixDiverges)
    } else if !transcript::stored_frames_intact(rows) {
        Some(Fault::PersistedPrefixCorrupt)
    } else if !transcript::transcript_sealed(rows, count, digest) || transcript::stored_views(rows)
        != delivered.subrange(0, count as int) {
        Some(Fault::PersistedPrefixDiverges)
    } else {
        None
    }
}

/// The open transcript of a delivered task is completed exactly where its stored frames are
/// intact, sealed as they stand, and the beginning of what is delivered.
pub proof fn law_completions_extend_what_is_stored(
    rows: Seq<StoredFrame>,
    count: i64,
    digest: Seq<char>,
    delivered: Seq<task::FrameView>,
)
    ensures
        completion_fault(rows, count, digest, delivered) is None ==> {
            &&& rows.len() == count <= delivered.len()
            &&& forall|i: int|
                0 <= i < rows.len() ==> (#[trigger] rows[i]).frame is Some && rows[i].frame->0@ == delivered[i]
                    && rows[i].seq == i + 1
        },
        count < 0 || count > delivered.len() ==> completion_fault(rows, count, digest, delivered) == Some(
            Fault::PersistedPrefixDiverges,
        ),
        0 <= count <= delivered.len() && !transcript::stored_frames_intact(rows) ==> completion_fault(
            rows,
            count,
            digest,
            delivered,
        ) == Some(Fault::PersistedPrefixCorrupt),
        count == rows.len() && transcript::transcript_sealed(rows, count, digest) && transcript::stored_frames_intact(
            rows,
        ) && rows.len() <= delivered.len() && (forall|i: int|
            0 <= i < rows.len() ==> (#[trigger] rows[i]).frame->0@ == delivered[i]) ==> completion_fault(
            rows,
            count,
            digest,
            delivered,
        ) is None,
{
    if completion_fault(rows, count, digest, delivered) is None {
        assert forall|i: int| 0 <= i < rows.len() implies (#[trigger] rows[i]).frame is Some && rows[i].frame->0@
            == delivered[i] && rows[i].seq == i + 1 by {
            assert(transcript::stored_frame_intact(rows[i], i));
            assert(transcript::stored_views(rows)[i] == delivered.subrange(0, count as int)[i]);
        }
    }
    if count == rows.len() && rows.len() <= delivered.len() && (forall|i: int|
        0 <= i < rows.len() ==> (#[trigger] rows[i]).frame->0@ == delivered[i]) {
        assert(transcript::stored_views(rows) =~= delivered.subrange(0, count as int));
    }
}

/// What completing an open transcript writes: the frames from this position on,
/// and the count and digest of the whole.
pub struct TranscriptCompletion {
    pub first_new: usize,
    pub frame_count: i64,
    pub transcript_digest: String,
}

/// Completes the open transcript of a delivered task: what is stored must be the
/// beginning of what is delivered. `encoded` holds the encoded text of each
/// delivered frame.
pub fn complete_transcript(
    rows: &Vec<StoredFrame>,
    count: i64,
    digest: &str,
    delivered: &Vec<Frame>,
    encoded: &Vec<String>,
) -> (r: Result<TranscriptCompletion, Fault>)
    requires
        delivered@.len() <= 1024,
        encoded@.len() == delivered@.len(),
    ensures
        match r {
            Err(e) => completion_fault(rows@, count, digest@, task::frame_views(delivered@)) == Some(e),
            Ok(c) => {
                &&& completion_fault(rows@, count, digest@, task::frame_views(delivered@)) is None
                &&& c.first_new == rows@.len()
                &&& c.frame_count == delivered@.len()
                &&& c.transcript_digest@ == transcript::transcript_digest_of(text::texts(encoded@))
            },
        },
        r matches Ok(c) ==> c.first_new <= c.frame_count,
{
    let ghost views = task::frame_views(delivered@);
    assert(views.len() == delivered@.len());
    if count < 0 || count as u64 > delivered.len() as u64 {
        return Err(Fault::PersistedPrefixDiverges);
    }
    let persisted = match transcript::read_frames(rows, Fault::PersistedPrefixCorrupt) {
        Ok(frames) => frames,
        Err(e) => {
            return Err(e);
        },
    };
    if !transcript::is_sealed_as(rows, count, digest) {
        return Err(Fault::PersistedPrefixDiverges);
    }
    let ghost stored = transcript::stored_views(rows@);
    proof {
        assert(stored.len() == rows@.len());
        assert(task::frame_views(persisted@).len() == persisted@.len());
    }
    let mut i: usize = 0;
    while i < persisted.len()
        invariant
            i <= persisted@.len() == rows@.len() == count <= delivered@.len(),
            views == task::frame_views(delivered@),
            views.len() == delivered@.len(),
            stored == transcript::stored_views(rows@),
            stored == task::frame_views(persisted@),
            transcript::stored_frames_intact(rows@),
            forall|j: int| 0 <= j < i ==> stored[j] == views[j],
        ensures
            i == persisted@.len(),
        decreases persisted@.len() - i,
    {
        assert(stored[i as int] == persisted@[i as int]@);
        assert(views[i as int] == delivered@[i as int]@);
        if !persisted[i].same(&delivered[i]) {
            assert(views.subrange(0, count as int)[i as int] != stored[i as int]);
            return Err(Fault::PersistedPrefixDiverges);
        }
        i += 1;
    }
    assert(stored =~= views.subrange(0, count as int));
    let seal = transcript::transcript_digest(encoded);
    Ok(
        TranscriptCompletion {
            first_new: rows.len(),
            frame_count: delivered.len() as i64,
            transcript_digest: seal,
        },
    )
}

/// A receiver is busy exactly while it processes under a lease that has not run out.
pub proof fn law_busy_receivers_hold_a_lease(row: ReceiverRow, now: i64)
    ensures
        receiver_busy(row, now) ==> row.state == ReceiverState::Processing && row.lease_until is Some
            && row.lease_until->0 > now,
        row.state == ReceiverState::Completed ==> !receiver_busy(row, now),
        row.lease_until is None ==> !receiver_busy(row, now),
        row.lease_until is Some && row.lease_until->0 <= now ==> !receiver_busy(row, now),
        row.state == ReceiverState::Processing && row.lease_until is Some && row.lease_until->0 > now ==> receiver_busy(
            row,
            now,
        ),
{
}

/// Whoever loses a fence is told of which: the receiver of its lease, the stream of its progress or
/// its completion, the attempt and the dispatch of their last one.
pub proof fn law_lost_fences_name_their_write()
    ensures
        lost_fence(FencedWrite::ReceiverCompletion) == Fault::ReceiverLeaseStale,
        lost_fence(FencedWrite::ReceiverReclaim) == Fault::ReceiverReclaimFailed,
        lost_fence(FencedWrite::ReceiverReconciliation) == Fault::ReceiverReconciliationStale,
        lost_fence(FencedWrite::StreamProgress) == Fault::StreamProgressStale,
        lost_fence(FencedWrite::StreamCompletion) == Fault::StreamCompletionStale,
        lost_fence(FencedWrite::FinalReceiver) == Fault::FinalReceiverFenceStale,
        lost_fence(FencedWrite::FinalAttempt) == Fault::FinalAttemptFenceCorrupt,
        lost_fence(FencedWrite::FinalDispatch) == Fault::FinalDeadLetterFenceStale,
        lost_fence(FencedWrite::DeadLetterTask) == Fault::DeadLetterTaskLost,
        lost_fence(FencedWrite::DeadLetterRecord) == Fault::DeadLetterBindingCorrupt,
        lost_fence(FencedWrite::Continuation) == Fault::TaskNoLongerAcceptsContinuation,
{
}

/// A dead-lettered task says so in a message of the agent about that task, which quotes the error.
pub proof fn law_dead_letters_speak_of_their_task(t: task::TaskView, message_id: Seq<char>, error: Seq<char>)
    ensures
        exists|said: Seq<char>|
            dead_letter_status(t, message_id, error) == #[trigger] task::agent_message_of(
                message_id,
                t.id,
                t.context_id,
                said,
            ) && said.len() == 46 + error.len() && said.subrange(46, said.len() as int) == error,
{
    law_dead_letters_quote_their_error(error);
    let said = dead_letter_text(error);
    assert(said.len() == 46 + error.len());
    assert(dead_letter_status(t, message_id, error) == task::agent_message_of(message_id, t.id, t.context_id, said));
}

/// An interruption is recorded with as much of its error as fits: all of it where it is short, and
/// never a part of a character.
pub proof fn law_interruptions_keep_what_fits(error: Seq<u8>, end: int, other: int)
    requires
        interruption_cut(error, end),
    ensures
        end <= error.len(),
        end <= 4096 - text::utf8("durable stream interrupted: "@).len(),
        is_char_boundary(error, end),
        is_char_boundary(error, error.len() as int) && error.len() <= 4096 - text::utf8(
            "durable stream interrupted: "@,
        ).len() ==> end == error.len(),
        interruption_cut(error, other) ==> other == end,
{
    if interruption_cut(error, other) && other != end {
        if other < end {
            assert(is_char_boundary(error, end));
        } else {
            assert(is_char_boundary(error, other));
        }
    }
}

/// A diagnosis of more than four kibibytes is refused while the lease holds, and what is stored must
/// be the beginning of what is delivered under its seal.
pub proof fn law_attempts_are_refused_for_what_they_bring(
    row: OutboxRow,
    lease: OutboxLease,
    d: AttemptDisposition,
    payload_digest: Seq<char>,
    receiver: Option<ReceiverRow>,
    now: i64,
    rows: Seq<StoredFrame>,
    count: i64,
    digest: Seq<char>,
    delivered: Seq<task::FrameView>,
)
    ensures
        outbox_fence_holds(row, lease, now) && text::utf8(disposition_error(d)).len() > 4 * 1024 ==> finish_outcome(
            Some(row),
            lease,
            d,
            false,
            payload_digest,
            receiver,
            now,
        ) == Err::<FinishStep, Fault>(Fault::OutboxErrorTooLong),
        0 <= count <= delivered.len() && transcript::stored_frames_intact(rows) && (!transcript::transcript_sealed(
            rows,
            count,
            digest,
        ) || transcript::stored_views(rows) != delivered.subrange(0, count as int)) ==> completion_fault(
            rows,
            count,
            digest,
            delivered,
        ) == Some(Fault::PersistedPrefixDiverges),
{
}

} // verus!
