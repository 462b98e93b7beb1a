//! The receiver's inbox: admission of dispatches, leases, artifacts and durable
//! completion.

use vstd::prelude::*;

use crate::admission;
use crate::admission::OutboxReservation;
use crate::crypto;
use crate::fault::Fault;
use crate::outbox::{LeaseRenewalOutcome, ReceiverState};
use crate::quota;
use crate::reservation;
use crate::reservation::{ExecutionReservation, ReservationColumns};
use crate::text;
use crate::transcript;

verus! {

/// The most events that a completed dispatch has.
pub const MAX_RECEIVER_EVENTS: usize = 1024;

/// What a dispatch asks of its receiver.
pub struct MeshRequest {
    pub protocol: String,
    pub task_id: String,
    pub context_id: String,
    pub text: String,
}

/// A dispatch as it reaches its receiver.
pub struct DurableDispatchEnvelope {
    pub tenant_scope: String,
    pub dispatch_id: String,
    pub request: MeshRequest,
    pub payload_digest: String,
    pub execution_reservation: Option<ExecutionReservation>,
}

/// A receiver's lease on a dispatch.
pub struct ReceiverLease {
    pub tenant_scope: String,
    pub task_id: String,
    pub dispatch_id: String,
    pub payload_digest: String,
    pub sender_attempt_no: u32,
    pub sender_lease_token: String,
    pub lease_owner: String,
    pub lease_token: String,
    pub lease_epoch: u64,
    pub lease_until: i64,
    pub execution_reservation: Option<ExecutionReservation>,
}

/// How a receiver ended.
pub enum ReceiverTermination {
    Success,
    InputRequired { message: String },
    AuthRequired { message: String },
}

/// Whether two terminations are equal.
pub open spec fn terminations_equal(a: ReceiverTermination, b: ReceiverTermination) -> bool {
    match (a, b) {
        (ReceiverTermination::Success, ReceiverTermination::Success) => true,
        (ReceiverTermination::InputRequired { message: x }, ReceiverTermination::InputRequired { message: y }) => x@
            == y@,
        (ReceiverTermination::AuthRequired { message: x }, ReceiverTermination::AuthRequired { message: y }) => x@
            == y@,
        _ => false,
    }
}

/// A length between one byte and a limit.
pub open spec fn bounded_text(s: Seq<char>, limit: int) -> bool {
    1 <= text::utf8(s).len() <= limit
}

fn is_bounded(s: &str, limit: usize) -> (r: bool)
    ensures
        r == bounded_text(s@, limit as int),
{
    let n: usize = text::byte_len(s);
    n >= 1 && n <= limit
}

/// Whether a request can be received.
pub open spec fn request_valid(request: MeshRequest, payload_bytes: int) -> bool {
    &&& payload_bytes <= 1_048_576
    &&& bounded_text(request.protocol@, 4096)
    &&& bounded_text(request.task_id@, 4096)
    &&& bounded_text(request.context_id@, 4096)
    &&& text::utf8(request.text@).len() <= 1_048_576
}

/// Two terminations are equal exactly where they end alike with the same message.
pub proof fn law_terminations_compare_by_kind_and_message(a: ReceiverTermination, b: ReceiverTermination)
    ensures
        terminations_equal(a, a),
        terminations_equal(a, b) == terminations_equal(b, a),
        terminations_equal(a, b) ==> (a is Success <==> b is Success) && (a is InputRequired <==> b is InputRequired)
            && (a is AuthRequired <==> b is AuthRequired),
        terminations_equal(a, b) && a is InputRequired ==> a->InputRequired_message@ == b->InputRequired_message@,
        terminations_equal(a, b) && a is AuthRequired ==> a->AuthRequired_message@ == b->AuthRequired_message@,
{
}

/// A request can be received exactly where its encoding and its text take at most a mebibyte
/// and each of its names has between one and 4096 bytes.
pub proof fn law_received_requests_are_bounded(request: MeshRequest, payload_bytes: int)
    ensures
        request_valid(request, payload_bytes) <==> {
            &&& payload_bytes <= 1024 * 1024
            &&& text::utf8(request.text@).len() <= 1024 * 1024
            &&& 1 <= text::utf8(request.protocol@).len() <= 4096
            &&& 1 <= text::utf8(request.task_id@).len() <= 4096
            &&& 1 <= text::utf8(request.context_id@).len() <= 4096
        },
{
}

/// Whether a request can be received.
pub fn receiver_request_is_valid(request: &MeshRequest, payload_bytes: usize) -> (r: bool)
    ensures
        r == request_valid(*request, payload_bytes as int),
{
    payload_bytes <= 1_048_576 && is_bounded(request.protocol.as_str(), 4096) && is_bounded(
        request.task_id.as_str(),
        4096,
    ) && is_bounded(request.context_id.as_str(), 4096) && text::byte_len(request.text.as_str()) <= 1_048_576
}

/// The termination that a completed dispatch records, or nothing where the record
/// is corrupt. `decoded` is what the recorded text says, absent where it cannot be
/// read.
pub open spec fn recorded_termination(
    kind: Option<Seq<char>>,
    payload: Option<Seq<char>>,
    decoded: Option<ReceiverTermination>,
) -> Option<ReceiverTermination> {
    if kind == Some("success"@) && payload is None {
        Some(ReceiverTermination::Success)
    } else if payload is Some && text::utf8(payload->0).len() <= 4096 && decoded is Some {
        match decoded->0 {
            ReceiverTermination::InputRequired { message } => if kind == Some("input_required"@) && message@.len()
                > 0 {
                decoded
            } else {
                None
            },
            ReceiverTermination::AuthRequired { message } => if kind == Some("auth_required"@) && message@.len()
                > 0 {
                decoded
            } else {
                None
            },
            ReceiverTermination::Success => None,
        }
    } else {
        None
    }
}

/// A record without a text is a success and nothing else; a record with a text is read as what
/// the text says, where its kind says the same and it has a message.
pub proof fn law_terminations_are_read_as_recorded(
    kind: Option<Seq<char>>,
    payload: Option<Seq<char>>,
    decoded: Option<ReceiverTermination>,
)
    ensures
        payload is None ==> (recorded_termination(kind, payload, decoded) is Some <==> kind == Some("success"@)),
        payload is None && kind == Some("success"@) ==> recorded_termination(kind, payload, decoded)->0 is Success,
        payload is Some && recorded_termination(kind, payload, decoded) is Some ==> {
            &&& recorded_termination(kind, payload, decoded) == decoded
            &&& text::utf8(payload->0).len() <= 4096
            &&& !(decoded->0 is Success)
            &&& decoded->0 is InputRequired ==> kind == Some("input_required"@)
                && decoded->0->InputRequired_message@.len() > 0
            &&& decoded->0 is AuthRequired ==> kind == Some("auth_required"@)
                && decoded->0->AuthRequired_message@.len() > 0
        },
        payload is Some && text::utf8(payload->0).len() <= 4096 && decoded is Some && decoded->0 is InputRequired
            && decoded->0->InputRequired_message@.len() > 0 && kind == Some("input_required"@) ==> recorded_termination(
            kind,
            payload,
            decoded,
        ) == decoded,
        payload is Some && text::utf8(payload->0).len() <= 4096 && decoded is Some && decoded->0 is AuthRequired
            && decoded->0->AuthRequired_message@.len() > 0 && kind == Some("auth_required"@) ==> recorded_termination(
            kind,
            payload,
            decoded,
        ) == decoded,
{
    lemma_kinds_differ();
}

fn copy_termination(t: &ReceiverTermination) -> (r: ReceiverTermination)
    ensures
        terminations_equal(r, *t),
{
    match t {
        ReceiverTermination::Success => ReceiverTermination::Success,
        ReceiverTermination::InputRequired { message } => ReceiverTermination::InputRequired {
            message: message.clone(),
        },
        ReceiverTermination::AuthRequired { message } => ReceiverTermination::AuthRequired {
            message: message.clone(),
        },
    }
}

/// Reads the termination that a completed dispatch records.
pub fn decode_receiver_termination(
    kind: &Option<String>,
    payload: &Option<String>,
    decoded: &Option<ReceiverTermination>,
) -> (r: Result<ReceiverTermination, Fault>)
    ensures
        match r {
            Ok(t) => recorded_termination(text::opt_text(*kind), text::opt_text(*payload), *decoded) matches Some(
                u,
            ) && terminations_equal(t, u),
            Err(e) => e == Fault::ReceiverTerminationCorrupt && recorded_termination(
                text::opt_text(*kind),
                text::opt_text(*payload),
                *decoded,
            ) is None,
        },
{
    if text::opt_text_is(kind, "success") && payload.is_none() {
        return Ok(ReceiverTermination::Success);
    }
    let fits = match payload {
        Some(encoded) => text::byte_len(encoded.as_str()) <= 4096,
        None => false,
    };
    if !fits {
        return Err(Fault::ReceiverTerminationCorrupt);
    }
    match decoded {
        Some(t) => {
            let named = match t {
                ReceiverTermination::InputRequired { message } => !message.as_str().is_empty() && text::opt_text_is(
                    kind,
                    "input_required",
                ),
                ReceiverTermination::AuthRequired { message } => !message.as_str().is_empty() && text::opt_text_is(
                    kind,
                    "auth_required",
                ),
                ReceiverTermination::Success => false,
            };
            if named {
                Ok(copy_termination(t))
            } else {
                Err(Fault::ReceiverTerminationCorrupt)
            }
        },
        None => Err(Fault::ReceiverTerminationCorrupt),
    }
}

/// Whether an envelope can be received by an owner for a duration. `payload` is
/// the encoded request.
pub open spec fn envelope_valid(
    envelope: DurableDispatchEnvelope,
    payload: Seq<char>,
    owner: Seq<char>,
    duration: i64,
) -> bool {
    &&& bounded_text(envelope.tenant_scope@, 64)
    &&& bounded_text(envelope.dispatch_id@, 256)
    &&& bounded_text(owner, 4096)
    &&& duration > 0
    &&& request_valid(envelope.request, text::utf8(payload).len() as int)
    &&& crypto::content_digest_of(text::utf8(payload)) == envelope.payload_digest@
}

/// An envelope can be received exactly where its names and its request are within their bounds,
/// its lease lasts for some time, and its digest is that of its payload.
pub proof fn law_received_envelopes_are_intact(
    envelope: DurableDispatchEnvelope,
    payload: Seq<char>,
    owner: Seq<char>,
    duration: i64,
)
    ensures
        envelope_valid(envelope, payload, owner, duration) <==> {
            &&& envelope.payload_digest@ == crypto::content_digest_of(text::utf8(payload))
            &&& 1 <= text::utf8(envelope.tenant_scope@).len() <= 64
            &&& 1 <= text::utf8(envelope.dispatch_id@).len() <= 256
            &&& 1 <= text::utf8(owner).len() <= 4096
            &&& duration >= 1
            &&& text::utf8(payload).len() <= 1024 * 1024
            &&& text::utf8(envelope.request.text@).len() <= 1024 * 1024
            &&& 1 <= text::utf8(envelope.request.protocol@).len() <= 4096
            &&& 1 <= text::utf8(envelope.request.task_id@).len() <= 4096
            &&& 1 <= text::utf8(envelope.request.context_id@).len() <= 4096
        },
{
}

/// Refuses an envelope that cannot be received whatever is on record.
pub fn check_envelope(
    envelope: &DurableDispatchEnvelope,
    payload: &str,
    owner: &str,
    duration: i64,
    quota_enforcement: bool,
) -> (r: Result<(), Fault>)
    ensures
        r == (if !envelope_valid(*envelope, payload@, owner@, duration) {
            Err::<(), Fault>(Fault::InvalidReceiverEnvelope)
        } else if quota_enforcement && envelope.execution_reservation is None {
            Err(Fault::ReceiverEnvelopeUnreserved)
        } else {
            Ok(())
        }),
{
    if !is_bounded(envelope.tenant_scope.as_str(), 64) || !is_bounded(envelope.dispatch_id.as_str(), 256)
        || !is_bounded(owner, 4096) || duration <= 0 || !receiver_request_is_valid(
        &envelope.request,
        text::byte_len(payload),
    ) {
        return Err(Fault::InvalidReceiverEnvelope);
    }
    let digest = crypto::text_digest(payload);
    if digest != envelope.payload_digest {
        return Err(Fault::InvalidReceiverEnvelope);
    }
    if quota_enforcement && envelope.execution_reservation.is_none() {
        return Err(Fault::ReceiverEnvelopeUnreserved);
    }
    Ok(())
}

/// Whether stored columns are those of a reservation.
pub open spec fn stored_columns_match(c: OutboxReservation, held: Option<ExecutionReservation>) -> bool {
    match held {
        None => c.binding_digest is None && c.reservation_id is None && c.reservation_version is None
            && c.reserved_output_bytes is None && c.reserved_event_count is None,
        Some(h) => {
            &&& text::opt_text(c.binding_digest) == Some(h.binding_digest@)
            &&& text::opt_text(c.reservation_id) == Some(h.reservation_id@)
            &&& c.reservation_version == Some(quota::clamp_i64(h.reservation_version) as i64)
            &&& c.reserved_output_bytes == Some(quota::clamp_i64(h.budget.max_output_bytes) as i64)
            &&& c.reserved_event_count == Some(quota::clamp_i64(h.budget.max_event_count) as i64)
        },
    }
}

/// Stored columns are those of one reservation: two that they match agree on the binding, the
/// id and every number that can be stored, and a dispatch without a reservation has none.
pub proof fn law_stored_columns_match_one_reservation(
    c: OutboxReservation,
    a: Option<ExecutionReservation>,
    b: Option<ExecutionReservation>,
)
    requires
        stored_columns_match(c, a),
        stored_columns_match(c, b),
    ensures
        a is Some <==> b is Some,
        a is Some <==> c.reservation_id is Some,
        a is None ==> c.binding_digest is None && c.reservation_version is None && c.reserved_output_bytes is None
            && c.reserved_event_count is None,
        a is Some ==> a->0.binding_digest@ == b->0.binding_digest@ && a->0.reservation_id@ == b->0.reservation_id@,
        a is Some && a->0.reservation_version < i64::MAX ==> a->0.reservation_version == b->0.reservation_version,
        a is Some && a->0.budget.max_output_bytes < i64::MAX ==> a->0.budget.max_output_bytes
            == b->0.budget.max_output_bytes && c.reserved_output_bytes->0 == a->0.budget.max_output_bytes,
        a is Some && a->0.budget.max_event_count < i64::MAX ==> a->0.budget.max_event_count
            == b->0.budget.max_event_count && c.reserved_event_count->0 == a->0.budget.max_event_count,
        a is Some ==> c.binding_digest->0@ == a->0.binding_digest@ && c.reservation_id->0@ == a->0.reservation_id@,
{
}

/// Whether the stored columns are those of a reservation.
pub fn columns_match(c: &OutboxReservation, held: &Option<ExecutionReservation>) -> (r: bool)
    ensures
        r == stored_columns_match(*c, *held),
{
    match held {
        None => c.binding_digest.is_none() && c.reservation_id.is_none() && c.reservation_version.is_none()
            && c.reserved_output_bytes.is_none() && c.reserved_event_count.is_none(),
        Some(h) => text::opt_text_is(&c.binding_digest, h.binding_digest.as_str()) && text::opt_text_is(
            &c.reservation_id,
            h.reservation_id.as_str(),
        ) && c.reservation_version == Some(admission::clamp_stored(h.reservation_version)) && c.reserved_output_bytes
            == Some(admission::clamp_stored(h.budget.max_output_bytes)) && c.reserved_event_count == Some(
            admission::clamp_stored(h.budget.max_event_count),
        ),
    }
}

/// The columns that a reservation is stored in.
pub fn columns_of(held: &Option<ExecutionReservation>) -> (r: OutboxReservation)
    ensures
        stored_columns_match(r, *held),
{
    match held {
        None => OutboxReservation {
            binding_digest: None,
            reservation_id: None,
            reservation_version: None,
            reserved_output_bytes: None,
            reserved_event_count: None,
        },
        Some(h) => OutboxReservation {
            binding_digest: Some(h.binding_digest.clone()),
            reservation_id: Some(h.reservation_id.clone()),
            reservation_version: Some(admission::clamp_stored(h.reservation_version)),
            reserved_output_bytes: Some(admission::clamp_stored(h.budget.max_output_bytes)),
            reserved_event_count: Some(admission::clamp_stored(h.budget.max_event_count)),
        },
    }
}

/// The sender's side of a dispatch: the leased outbox row that it came from.
pub struct SenderRow {
    pub attempt_count: i64,
    pub lease_token: String,
    pub reservation: ReservationColumns,
}

/// A stored event of a completed dispatch. `canonical` is its text encoded anew,
/// absent where the stored text cannot be read.
pub struct StoredEvent {
    pub seq: i64,
    pub version: i64,
    pub kind: String,
    pub encoded: String,
    pub digest: String,
    pub canonical: Option<String>,
}

/// What the receiver has on record for a dispatch.
pub struct InboxRow {
    pub payload_digest: String,
    pub state: ReceiverState,
    pub lease_until: Option<i64>,
    pub lease_epoch: i64,
    pub completion_kind: Option<String>,
    pub termination_text: Option<String>,
    pub termination: Option<ReceiverTermination>,
    pub frame_count: Option<i64>,
    pub transcript_digest: Option<String>,
    pub reservation: OutboxReservation,
    pub measured_output_bytes: Option<i64>,
    pub measured_event_count: Option<i64>,
    pub events: Vec<StoredEvent>,
}

/// Why one stored event cannot be replayed.
pub open spec fn event_fault(row: StoredEvent, position: int) -> Option<Fault> {
    if row.seq != position + 1 || row.version != 1 || row.kind@ != "mesh_event"@ || row.digest@
        != crypto::content_digest_of(text::utf8(row.encoded@)) {
        Some(Fault::ReceiverReplayCorrupt)
    } else if row.canonical is None {
        Some(Fault::ReceiverFrameCorrupt)
    } else {
        None
    }
}

/// The fault of the first stored event that cannot be replayed.
pub open spec fn events_fault(rows: Seq<StoredEvent>) -> Option<Fault>
    decreases rows.len(),
{
    if rows.len() == 0 {
        None
    } else {
        match events_fault(rows.drop_last()) {
            Some(e) => Some(e),
            None => event_fault(rows.last(), rows.len() - 1),
        }
    }
}

/// The events of a completed dispatch.
pub open spec fn replayed_events(rows: Seq<StoredEvent>) -> Seq<Seq<char>> {
    Seq::new(rows.len(), |i: int| rows[i].canonical->0@)
}

/// The encoded size of events together.
pub open spec fn total_bytes(parts: Seq<Seq<char>>) -> nat
    decreases parts.len(),
{
    if parts.len() == 0 {
        0
    } else {
        total_bytes(parts.drop_last()) + text::utf8(parts.last()).len()
    }
}

proof fn lemma_total_bytes_monotone(parts: Seq<Seq<char>>, i: int)
    requires
        0 <= i <= parts.len(),
    ensures
        total_bytes(parts.subrange(0, i)) <= total_bytes(parts),
    decreases parts.len() - i,
{
    if i == parts.len() {
        assert(parts.subrange(0, i) =~= parts);
    } else {
        lemma_total_bytes_monotone(parts, i + 1);
        assert(parts.subrange(0, i + 1).drop_last() =~= parts.subrange(0, i));
    }
}

/// Stored events can be replayed exactly where each stands at its own position in the first
/// version, is a mesh event, matches its digest and can be read.
pub proof fn law_replayed_events_are_intact(rows: Seq<StoredEvent>)
    ensures
        events_fault(rows) is None <==> forall|i: int|
            0 <= i < rows.len() ==> (#[trigger] rows[i]).seq == i + 1 && rows[i].version == 1 && rows[i].kind@
                == "mesh_event"@ && rows[i].digest@ == crypto::content_digest_of(text::utf8(rows[i].encoded@))
                && rows[i].canonical is Some,
    decreases rows.len(),
{
    if rows.len() > 0 {
        let shorter = rows.drop_last();
        law_replayed_events_are_intact(shorter);
        assert(rows.last() == rows[rows.len() - 1]);
        if events_fault(rows) is None {
            assert forall|i: int| 0 <= i < rows.len() implies (#[trigger] rows[i]).seq == i + 1 && rows[i].version == 1
                && rows[i].kind@ == "mesh_event"@ && rows[i].digest@ == crypto::content_digest_of(
                text::utf8(rows[i].encoded@),
            ) && rows[i].canonical is Some by {
                if i < shorter.len() {
                    assert(shorter[i] == rows[i]);
                }
            }
        } else if events_fault(shorter) is Some {
            let i = choose|i: int|
                0 <= i < shorter.len() && !((#[trigger] shorter[i]).seq == i + 1 && shorter[i].version == 1
                    && shorter[i].kind@ == "mesh_event"@ && shorter[i].digest@ == crypto::content_digest_of(
                    text::utf8(shorter[i].encoded@),
                ) && shorter[i].canonical is Some);
            assert(rows[i] == shorter[i]);
        }
    }
}

/// The first stored event that cannot be replayed decides why: one that cannot be read is a
/// corrupt frame, and any other a corrupt replay.
pub proof fn law_first_bad_event_decides(rows: Seq<StoredEvent>, i: int)
    requires
        0 <= i < rows.len(),
        events_fault(rows.subrange(0, i)) is None,
    ensures
        rows[i].seq != i + 1 || rows[i].version != 1 || rows[i].digest@ != crypto::content_digest_of(
            text::utf8(rows[i].encoded@),
        ) ==> events_fault(rows) == Some(Fault::ReceiverReplayCorrupt),
        rows[i].seq == i + 1 && rows[i].version == 1 && rows[i].kind@ == "mesh_event"@ && rows[i].digest@
            == crypto::content_digest_of(text::utf8(rows[i].encoded@)) && rows[i].canonical is None ==> events_fault(
            rows,
        ) == Some(Fault::ReceiverFrameCorrupt),
{
    let head = rows.subrange(0, i + 1);
    assert(head.drop_last() =~= rows.subrange(0, i));
    assert(head.last() == rows[i]);
    if events_fault(head) is Some {
        lemma_events_fault_prefix(rows, i + 1);
    }
}

/// The size of events together is the sum of their sizes: two runs take what they take each,
/// one event takes its own bytes and none take nothing.
pub proof fn law_sizes_add_up(first: Seq<Seq<char>>, second: Seq<Seq<char>>, one: Seq<char>)
    ensures
        total_bytes(first + second) == total_bytes(first) + total_bytes(second),
        total_bytes(seq![one]) == text::utf8(one).len(),
        total_bytes(Seq::empty()) == 0,
    decreases second.len(),
{
    assert(seq![one].drop_last() =~= Seq::<Seq<char>>::empty());
    assert(total_bytes(seq![one].drop_last()) == 0);
    if second.len() == 0 {
        assert(first + second =~= first);
    } else {
        law_sizes_add_up(first, second.drop_last(), one);
        assert((first + second).drop_last() =~= first + second.drop_last());
        assert((first + second).last() == second.last());
    }
}

/// Why a completed dispatch cannot be replayed.
pub open spec fn replay_fault(row: InboxRow) -> Option<Fault> {
    let events = replayed_events(row.events@);
    if events_fault(row.events@) is Some {
        events_fault(row.events@)
    } else if !(row.frame_count is Some && row.frame_count->0 == events.len()) || text::opt_text(row.transcript_digest)
        != Some(transcript::transcript_digest_of(events)) {
        Some(Fault::ReceiverReplayCorrupt)
    } else if !(row.measured_output_bytes is Some && row.measured_output_bytes->0 == total_bytes(events)) || !(
    row.measured_event_count is Some && row.measured_event_count->0 == events.len()) {
        Some(Fault::ReceiverMeasurementCorrupt)
    } else if recorded_termination(
        text::opt_text(row.completion_kind),
        text::opt_text(row.termination_text),
        row.termination,
    ) is None {
        Some(Fault::ReceiverTerminationCorrupt)
    } else {
        None
    }
}

/// A completed dispatch is replayed only where its events are all there and intact, its seal
/// and its two measurements are those of the events, and its termination can be read.
pub proof fn law_replays_are_what_was_measured(row: InboxRow)
    requires
        replay_fault(row) is None,
    ensures
        row.frame_count is Some,
        row.frame_count->0 == row.events@.len(),
        row.measured_event_count is Some,
        row.measured_event_count->0 == row.events@.len(),
        row.measured_output_bytes is Some,
        row.measured_output_bytes->0 == total_bytes(replayed_events(row.events@)),
        row.transcript_digest is Some,
        row.transcript_digest->0@ == transcript::transcript_digest_of(replayed_events(row.events@)),
        forall|i: int|
            0 <= i < row.events@.len() ==> (#[trigger] row.events@[i]).canonical is Some && replayed_events(
                row.events@,
            )[i] == row.events@[i].canonical->0@,
{
    law_replayed_events_are_intact(row.events@);
}

/// What a receiver is to do with a dispatch.
pub enum ReceiverAdmission {
    /// The dispatch completed before; its events and how it ended are handed back.
    Replay { events: Vec<String>, termination: ReceiverTermination },
    /// Another receiver works on it.
    Busy,
    /// The dispatch is executed under this lease. `reclaimed` tells whether an
    /// earlier lease ran out.
    Execute { lease: ReceiverLease, reclaimed: bool },
}

fn read_events(rows: &Vec<StoredEvent>) -> (r: Result<Vec<String>, Fault>)
    ensures
        match r {
            Ok(events) => events_fault(rows@) is None && text::texts(events@) == replayed_events(rows@),
            Err(e) => events_fault(rows@) == Some(e),
        },
{
    let mut out: Vec<String> = Vec::new();
    let mut i: usize = 0;
    assert(rows@.subrange(0, 0) =~= Seq::<StoredEvent>::empty());
    while i < rows.len()
        invariant
            i <= rows@.len(),
            out@.len() == i,
            events_fault(rows@.subrange(0, i as int)) is None,
            forall|j: int| 0 <= j < i ==> (#[trigger] out@[j])@ == rows@[j].canonical->0@,
        decreases rows@.len() - i,
    {
        let row = &rows[i];
        let ghost step = rows@.subrange(0, i + 1);
        proof {
            assert(step.drop_last() =~= rows@.subrange(0, i as int));
            assert(step.last() == rows@[i as int]);
        }
        let digest = crypto::text_digest(row.encoded.as_str());
        let seq_matches = row.seq > 0 && (row.seq as u128) == (i as u128) + 1;
        if !seq_matches || row.version != 1 || !text::same_text(row.kind.as_str(), "mesh_event") || row.digest
            != digest {
            proof {
                lemma_events_fault_prefix(rows@, i + 1);
            }
            return Err(Fault::ReceiverReplayCorrupt);
        }
        match &row.canonical {
            Some(event) => {
                out.push(event.clone());
            },
            None => {
                proof {
                    lemma_events_fault_prefix(rows@, i + 1);
                }
                return Err(Fault::ReceiverFrameCorrupt);
            },
        }
        i += 1;
    }
    assert(rows@.subrange(0, i as int) =~= rows@);
    assert(text::texts(out@) =~= replayed_events(rows@));
    Ok(out)
}

proof fn lemma_events_fault_prefix(rows: Seq<StoredEvent>, i: int)
    requires
        0 <= i <= rows.len(),
        events_fault(rows.subrange(0, i)) is Some,
    ensures
        events_fault(rows) == events_fault(rows.subrange(0, i)),
    decreases rows.len() - i,
{
    if i == rows.len() {
        assert(rows.subrange(0, i) =~= rows);
    } else {
        assert(rows.subrange(0, i + 1).drop_last() =~= rows.subrange(0, i));
        lemma_events_fault_prefix(rows, i + 1);
    }
}

fn measured(parts: &Vec<String>) -> (r: Option<u64>)
    ensures
        match r {
            Some(n) => n == total_bytes(text::texts(parts@)),
            None => total_bytes(text::texts(parts@)) > u64::MAX,
        },
{
    let ghost all = text::texts(parts@);
    let mut total: u64 = 0;
    let mut i: usize = 0;
    assert(all.subrange(0, 0) =~= Seq::<Seq<char>>::empty());
    while i < parts.len()
        invariant
            i <= parts@.len(),
            all == text::texts(parts@),
            total == total_bytes(all.subrange(0, i as int)),
        decreases parts@.len() - i,
    {
        let n: usize = text::byte_len(parts[i].as_str());
        proof {
            assert(all.subrange(0, i + 1).drop_last() =~= all.subrange(0, i as int));
            assert(all.subrange(0, i + 1).last() == parts@[i as int]@);
        }
        match total.checked_add(n as u64) {
            Some(next) => {
                total = next;
            },
            None => {
                proof {
                    lemma_total_bytes_monotone(all, i + 1);
                }
                return None;
            },
        }
        i += 1;
    }
    assert(all.subrange(0, i as int) =~= all);
    Some(total)
}

fn replay(row: &InboxRow) -> (r: Result<ReceiverAdmission, Fault>)
    ensures
        match r {
            Err(e) => replay_fault(*row) == Some(e),
            Ok(ReceiverAdmission::Replay { events, termination }) => {
                &&& replay_fault(*row) is None
                &&& text::texts(events@) == replayed_events(row.events@)
                &&& terminations_equal(
                    termination,
                    recorded_termination(
                        text::opt_text(row.completion_kind),
                        text::opt_text(row.termination_text),
                        row.termination,
                    )->0,
                )
            },
            Ok(_) => false,
        },
{
    let events = match read_events(&row.events) {
        Ok(events) => events,
        Err(e) => {
            return Err(e);
        },
    };
    proof {
        assert(text::texts(events@).len() == events@.len());
    }
    let digest = transcript::transcript_digest(&events);
    let counted = match row.frame_count {
        Some(n) => n >= 0 && n as u128 == events.len() as u128,
        None => false,
    };
    if !counted || !text::opt_text_is(&row.transcript_digest, digest.as_str()) {
        return Err(Fault::ReceiverReplayCorrupt);
    }
    let bytes_match = match (row.measured_output_bytes, measured(&events)) {
        (Some(stored), Some(n)) => stored >= 0 && stored as u64 == n,
        _ => false,
    };
    let events_match = match row.measured_event_count {
        Some(n) => n >= 0 && n as u128 == events.len() as u128,
        None => false,
    };
    if !bytes_match || !events_match {
        return Err(Fault::ReceiverMeasurementCorrupt);
    }
    match decode_receiver_termination(&row.completion_kind, &row.termination_text, &row.termination) {
        Ok(termination) => Ok(ReceiverAdmission::Replay { events, termination }),
        Err(e) => Err(e),
    }
}

/// Who receives a dispatch: the owner, the token drawn for the lease, the time and
/// how long the lease lasts.
pub struct ReceiveRequest {
    pub owner: String,
    pub token: String,
    pub now: i64,
    pub duration: i64,
}

/// Why a dispatch is refused or cannot be replayed.
pub open spec fn receive_fault(
    envelope: DurableDispatchEnvelope,
    request: ReceiveRequest,
    sender: Option<SenderRow>,
    stored: Option<InboxRow>,
) -> Option<Fault> {
    if request.now + request.duration > i64::MAX {
        Some(Fault::ReceiverLeaseOverflow)
    } else if sender is None {
        Some(Fault::InvalidReceiverEnvelope)
    } else if reservation::columns_fault(sender->0.reservation) is Some {
        reservation::columns_fault(sender->0.reservation)
    } else if !sender_reservation_matches(sender->0.reservation, envelope.execution_reservation) {
        Some(Fault::InvalidReceiverReservation)
    } else {
        match stored {
            None => if 0 <= sender->0.attempt_count <= u32::MAX {
                None
            } else {
                Some(Fault::SenderAttemptCorrupt)
            },
            Some(row) => if row.payload_digest@ != envelope.payload_digest@ {
                Some(Fault::DispatchPayloadConflict)
            } else if !stored_columns_match(row.reservation, envelope.execution_reservation) {
                Some(Fault::DispatchReservationConflict)
            } else if row.state == ReceiverState::Completed {
                replay_fault(row)
            } else if inbox_busy(row, request.now) {
                None
            } else if !(0 <= sender->0.attempt_count <= u32::MAX) {
                Some(Fault::SenderAttemptCorrupt)
            } else if row.lease_epoch + 1 < 0 {
                Some(Fault::ReceiverEpochCorrupt)
            } else {
                None
            },
        }
    }
}

/// Whether the sender's columns are the reservation that the envelope carries.
pub open spec fn sender_reservation_matches(c: ReservationColumns, held: Option<ExecutionReservation>) -> bool {
    match held {
        None => reservation::columns_empty(c),
        Some(h) => reservation::reservation_from_columns(h, c),
    }
}

/// Whether a receiver's lease on a dispatch still runs.
pub open spec fn inbox_busy(row: InboxRow, now: i64) -> bool {
    row.lease_until is Some && row.lease_until->0 > now
}

/// Whether a lease is the one that a receiver gets.
pub open spec fn lease_granted(
    lease: ReceiverLease,
    envelope: DurableDispatchEnvelope,
    request: ReceiveRequest,
    sender: SenderRow,
    epoch: int,
) -> bool {
    &&& lease.tenant_scope@ == envelope.tenant_scope@
    &&& lease.task_id@ == envelope.request.task_id@
    &&& lease.dispatch_id@ == envelope.dispatch_id@
    &&& lease.payload_digest@ == envelope.payload_digest@
    &&& lease.sender_attempt_no == sender.attempt_count
    &&& lease.sender_lease_token@ == sender.lease_token@
    &&& lease.lease_owner@ == request.owner@
    &&& lease.lease_token@ == request.token@
    &&& lease.lease_epoch == epoch
    &&& lease.lease_until == request.now + request.duration
    &&& reservation::reservations_equal(lease.execution_reservation, envelope.execution_reservation)
}

/// Whether an admission is what a dispatch that is not refused gets.
pub open spec fn receive_granted(
    admitted: ReceiverAdmission,
    envelope: DurableDispatchEnvelope,
    request: ReceiveRequest,
    sender: SenderRow,
    stored: Option<InboxRow>,
) -> bool {
    match admitted {
        ReceiverAdmission::Replay { events, termination } => {
            &&& stored is Some
            &&& stored->0.state == ReceiverState::Completed
            &&& text::texts(events@) == replayed_events(stored->0.events@)
            &&& terminations_equal(
                termination,
                recorded_termination(
                    text::opt_text(stored->0.completion_kind),
                    text::opt_text(stored->0.termination_text),
                    stored->0.termination,
                )->0,
            )
        },
        ReceiverAdmission::Busy => stored is Some && stored->0.state != ReceiverState::Completed && inbox_busy(
            stored->0,
            request.now,
        ),
        ReceiverAdmission::Execute { lease, reclaimed } => {
            &&& reclaimed == (stored is Some)
            &&& stored is Some ==> stored->0.state != ReceiverState::Completed && !inbox_busy(stored->0, request.now)
            &&& lease_granted(
                lease,
                envelope,
                request,
                sender,
                if stored is Some {
                    stored->0.lease_epoch + 1
                } else {
                    1
                },
            )
        },
    }
}

/// A dispatch that its receiver has never seen is executed under a first lease; it is refused
/// only where the lease would not end, its sender does not have it, the reservation is not the
/// sender's or the sender's attempt cannot be counted.
pub proof fn law_new_dispatches_are_executed(
    admitted: ReceiverAdmission,
    envelope: DurableDispatchEnvelope,
    request: ReceiveRequest,
    sender: Option<SenderRow>,
)
    ensures
        receive_fault(envelope, request, sender, None) is None <==> {
            &&& request.now + request.duration <= i64::MAX
            &&& sender is Some
            &&& reservation::columns_fault(sender->0.reservation) is None
            &&& sender_reservation_matches(sender->0.reservation, envelope.execution_reservation)
            &&& 0 <= sender->0.attempt_count <= 0xffff_ffff
        },
        sender is Some && receive_granted(admitted, envelope, request, sender->0, None) ==> {
            &&& admitted is Execute
            &&& !admitted->reclaimed
            &&& admitted->lease.lease_epoch == 1
            &&& admitted->lease.lease_until - request.now == request.duration
            &&& admitted->lease.lease_token@ == request.token@
            &&& admitted->lease.lease_owner@ == request.owner@
            &&& admitted->lease.task_id@ == envelope.request.task_id@
            &&& admitted->lease.dispatch_id@ == envelope.dispatch_id@
            &&& admitted->lease.tenant_scope@ == envelope.tenant_scope@
            &&& admitted->lease.payload_digest@ == envelope.payload_digest@
            &&& admitted->lease.sender_attempt_no == sender->0.attempt_count
            &&& admitted->lease.sender_lease_token@ == sender->0.lease_token@
            &&& admitted->lease.execution_reservation is Some <==> envelope.execution_reservation is Some
        },
{
}

/// A dispatch on record is replayed where it completed, waited for where its receiver's lease
/// still runs, and executed again under the next epoch where that lease has run out.
pub proof fn law_known_dispatches_are_not_executed_twice(
    admitted: ReceiverAdmission,
    envelope: DurableDispatchEnvelope,
    request: ReceiveRequest,
    sender: SenderRow,
    row: InboxRow,
)
    requires
        receive_granted(admitted, envelope, request, sender, Some(row)),
    ensures
        row.state == ReceiverState::Completed <==> admitted is Replay,
        row.state != ReceiverState::Completed && row.lease_until is Some && row.lease_until->0 > request.now
            <==> admitted is Busy,
        admitted is Execute ==> admitted->reclaimed && admitted->lease.lease_epoch == row.lease_epoch + 1 && (
        row.lease_until is None || row.lease_until->0 <= request.now),
        admitted is Replay ==> text::texts(admitted->events@) == replayed_events(row.events@),
{
}

/// A dispatch on record under another payload or another reservation is a conflict.
pub proof fn law_other_payloads_conflict(
    envelope: DurableDispatchEnvelope,
    request: ReceiveRequest,
    sender: SenderRow,
    row: InboxRow,
)
    requires
        request.now + request.duration <= i64::MAX,
        reservation::columns_fault(sender.reservation) is None,
        sender_reservation_matches(sender.reservation, envelope.execution_reservation),
    ensures
        row.payload_digest@ != envelope.payload_digest@ ==> receive_fault(envelope, request, Some(sender), Some(row))
            == Some(Fault::DispatchPayloadConflict),
        row.payload_digest@ == envelope.payload_digest@ && !stored_columns_match(
            row.reservation,
            envelope.execution_reservation,
        ) ==> receive_fault(envelope, request, Some(sender), Some(row)) == Some(Fault::DispatchReservationConflict),
        row.payload_digest@ == envelope.payload_digest@ && stored_columns_match(
            row.reservation,
            envelope.execution_reservation,
        ) && row.state == ReceiverState::Completed ==> receive_fault(envelope, request, Some(sender), Some(row))
            == replay_fault(row),
        row.payload_digest@ == envelope.payload_digest@ && stored_columns_match(
            row.reservation,
            envelope.execution_reservation,
        ) && row.state != ReceiverState::Completed && row.lease_until is Some && row.lease_until->0 > request.now
            ==> receive_fault(envelope, request, Some(sender), Some(row)) is None,
        row.payload_digest@ == envelope.payload_digest@ && stored_columns_match(
            row.reservation,
            envelope.execution_reservation,
        ) && row.state != ReceiverState::Completed && 0 <= sender.attempt_count <= 0xffff_ffff && row.lease_epoch >= -1
            ==> receive_fault(envelope, request, Some(sender), Some(row)) is None,
{
}

/// A refused dispatch is refused for its lease, its sender and its reservation before anything
/// that the receiver has on record.
pub proof fn law_senders_are_checked_first(
    envelope: DurableDispatchEnvelope,
    request: ReceiveRequest,
    sender: Option<SenderRow>,
    stored: Option<InboxRow>,
)
    ensures
        request.now + request.duration > i64::MAX ==> receive_fault(envelope, request, sender, stored) == Some(
            Fault::ReceiverLeaseOverflow,
        ),
        request.now + request.duration <= i64::MAX && sender is None ==> receive_fault(
            envelope,
            request,
            sender,
            stored,
        ) == Some(Fault::InvalidReceiverEnvelope),
        request.now + request.duration <= i64::MAX && sender is Some && reservation::columns_fault(
            sender->0.reservation,
        ) is None && envelope.execution_reservation is Some && (sender->0.reservation.reservation_id is None
            || sender->0.reservation.reservation_id->0@ != envelope.execution_reservation->0.reservation_id@)
            ==> receive_fault(envelope, request, sender, stored) == Some(Fault::InvalidReceiverReservation),
        request.now + request.duration <= i64::MAX && sender is Some && reservation::columns_fault(
            sender->0.reservation,
        ) is None && envelope.execution_reservation is None && sender->0.reservation.reservation_id is Some
            ==> receive_fault(envelope, request, sender, stored) == Some(Fault::InvalidReceiverReservation),
{
}

fn grant(
    envelope: &DurableDispatchEnvelope,
    request: &ReceiveRequest,
    sender: &SenderRow,
    until: i64,
    epoch: i64,
    reclaimed: bool,
) -> (r: Result<ReceiverAdmission, Fault>)
    requires
        until == request.now + request.duration,
    ensures
        match r {
            Ok(ReceiverAdmission::Execute { lease, reclaimed: again }) => 0 <= sender.attempt_count <= u32::MAX
                && epoch >= 0 && again == reclaimed && lease_granted(
                lease,
                *envelope,
                *request,
                *sender,
                epoch as int,
            ),
            Ok(_) => false,
            Err(e) => if !(0 <= sender.attempt_count <= u32::MAX) {
                e == Fault::SenderAttemptCorrupt
            } else {
                e == Fault::ReceiverEpochCorrupt && epoch < 0
            },
        },
{
    if sender.attempt_count < 0 || sender.attempt_count > 0xffff_ffff {
        return Err(Fault::SenderAttemptCorrupt);
    }
    if epoch < 0 {
        return Err(Fault::ReceiverEpochCorrupt);
    }
    let lease = ReceiverLease {
        tenant_scope: envelope.tenant_scope.clone(),
        task_id: envelope.request.task_id.clone(),
        dispatch_id: envelope.dispatch_id.clone(),
        payload_digest: envelope.payload_digest.clone(),
        sender_attempt_no: sender.attempt_count as u32,
        sender_lease_token: sender.lease_token.clone(),
        lease_owner: request.owner.clone(),
        lease_token: request.token.clone(),
        lease_epoch: epoch as u64,
        lease_until: until,
        execution_reservation: reservation::copy_reservation(&envelope.execution_reservation),
    };
    Ok(ReceiverAdmission::Execute { lease, reclaimed })
}

/// Admits a dispatch to its receiver: replays it where it completed, waits where
/// another receiver works on it, else leases it. `stored` is what is on record.
pub fn begin_receive(
    envelope: &DurableDispatchEnvelope,
    request: &ReceiveRequest,
    sender: &Option<SenderRow>,
    stored: &Option<InboxRow>,
) -> (r: Result<ReceiverAdmission, Fault>)
    requires
        request.duration > 0,
        stored matches Some(row) ==> (row.state != ReceiverState::Completed && !inbox_busy(*row, request.now)
            ==> row.lease_epoch < i64::MAX),
    ensures
        match r {
            Err(e) => receive_fault(*envelope, *request, *sender, *stored) == Some(e),
            Ok(admitted) => {
                &&& receive_fault(*envelope, *request, *sender, *stored) is None
                &&& receive_granted(admitted, *envelope, *request, sender->0, *stored)
            },
        },
{
    let until: i64 = match request.now.checked_add(request.duration) {
        Some(until) => until,
        None => {
            return Err(Fault::ReceiverLeaseOverflow);
        },
    };
    let from = match sender {
        Some(from) => from,
        None => {
            return Err(Fault::InvalidReceiverEnvelope);
        },
    };
    let reserved = match reservation::read_reservation(&from.reservation) {
        Ok(reserved) => reserved,
        Err(e) => {
            return Err(e);
        },
    };
    if !reservation::same_reservation(&reserved, &envelope.execution_reservation) {
        return Err(Fault::InvalidReceiverReservation);
    }
    match stored {
        None => grant(envelope, request, from, until, 1, false),
        Some(row) => {
            if row.payload_digest != envelope.payload_digest {
                return Err(Fault::DispatchPayloadConflict);
            }
            if !columns_match(&row.reservation, &envelope.execution_reservation) {
                return Err(Fault::DispatchReservationConflict);
            }
            if row.state == ReceiverState::Completed {
                return replay(row);
            }
            let busy = match row.lease_until {
                Some(old) => old > request.now,
                None => false,
            };
            if busy {
                return Ok(ReceiverAdmission::Busy);
            }
            grant(envelope, request, from, until, row.lease_epoch + 1, true)
        },
    }
}

/// The inbox row that a receiver's lease must still hold.
pub struct InboxFence {
    pub task_id: String,
    pub payload_digest: String,
    pub sender_attempt_no: i64,
    pub sender_lease_token: String,
    pub processing: bool,
    pub lease_owner: Option<String>,
    pub lease_token: Option<String>,
    pub lease_epoch: i64,
    pub lease_until: Option<i64>,
    pub reservation: OutboxReservation,
}

/// Whether a receiver's lease still holds its dispatch.
pub open spec fn receiver_fence_holds(row: InboxFence, lease: ReceiverLease, now: i64) -> bool {
    &&& row.task_id@ == lease.task_id@
    &&& row.payload_digest@ == lease.payload_digest@
    &&& row.sender_attempt_no == lease.sender_attempt_no
    &&& row.sender_lease_token@ == lease.sender_lease_token@
    &&& row.processing
    &&& text::opt_text(row.lease_owner) == Some(lease.lease_owner@)
    &&& text::opt_text(row.lease_token) == Some(lease.lease_token@)
    &&& row.lease_epoch == quota::clamp_i64(lease.lease_epoch)
    &&& row.lease_until == Some(lease.lease_until)
    &&& lease.lease_until > now
    &&& stored_columns_match(row.reservation, lease.execution_reservation)
}

/// One lease at a time holds a dispatch at its receiver: two that hold it have the same owner,
/// token, epoch, end and sender. The lease on record holds until its end and not at it.
pub proof fn law_one_receiver_holds_a_dispatch(row: InboxFence, a: ReceiverLease, b: ReceiverLease, now: i64)
    ensures
        receiver_fence_holds(row, a, now) && receiver_fence_holds(row, b, now) ==> a.lease_owner@ == b.lease_owner@
            && a.lease_token@ == b.lease_token@ && a.lease_until == b.lease_until && a.task_id@ == b.task_id@
            && a.payload_digest@ == b.payload_digest@ && a.sender_attempt_no == b.sender_attempt_no
            && a.sender_lease_token@ == b.sender_lease_token@ && (a.lease_epoch < i64::MAX ==> a.lease_epoch
            == b.lease_epoch),
        receiver_fence_holds(row, a, now) ==> row.processing && now < a.lease_until && row.lease_until == Some(
            a.lease_until,
        ) && row.task_id@ == a.task_id@ && row.payload_digest@ == a.payload_digest@ && row.sender_attempt_no
            == a.sender_attempt_no && row.sender_lease_token@ == a.sender_lease_token@ && row.lease_owner is Some
            && row.lease_owner->0@ == a.lease_owner@ && row.lease_token is Some && row.lease_token->0@
            == a.lease_token@ && (a.lease_epoch <= i64::MAX ==> row.lease_epoch == a.lease_epoch),
        receiver_fence_holds(row, a, now) ==> (a.execution_reservation is Some <==> row.reservation.reservation_id
            is Some),
        row.processing && now < a.lease_until && row.lease_until == Some(a.lease_until) && row.task_id@ == a.task_id@
            && row.payload_digest@ == a.payload_digest@ && row.sender_attempt_no == a.sender_attempt_no
            && row.sender_lease_token@ == a.sender_lease_token@ && row.lease_owner is Some && row.lease_owner->0@
            == a.lease_owner@ && row.lease_token is Some && row.lease_token->0@ == a.lease_token@ && row.lease_epoch
            == a.lease_epoch && stored_columns_match(row.reservation, a.execution_reservation)
            ==> receiver_fence_holds(row, a, now),
{
}

/// Whether a receiver's lease still holds its dispatch.
pub fn holds_receiver_fence(row: &InboxFence, lease: &ReceiverLease, now: i64) -> (r: bool)
    ensures
        r == receiver_fence_holds(*row, *lease, now),
{
    row.task_id == lease.task_id && row.payload_digest == lease.payload_digest && row.sender_attempt_no
        == lease.sender_attempt_no as i64 && row.sender_lease_token == lease.sender_lease_token && row.processing
        && text::opt_text_is(&row.lease_owner, lease.lease_owner.as_str()) && text::opt_text_is(
        &row.lease_token,
        lease.lease_token.as_str(),
    ) && row.lease_epoch == admission::clamp_stored(lease.lease_epoch) && row.lease_until == Some(lease.lease_until)
        && lease.lease_until > now && columns_match(&row.reservation, &lease.execution_reservation)
}

/// Renews a receiver's lease where it still holds its dispatch.
pub fn renew_receiver_lease(row: &Option<InboxFence>, lease: &ReceiverLease, now: i64, lease_duration: i64) -> (r:
    Result<LeaseRenewalOutcome, Fault>)
    ensures
        r == (if !(10 <= lease_duration <= 300_000) {
            Err::<LeaseRenewalOutcome, Fault>(Fault::InvalidReceiverRenewal)
        } else if now + lease_duration > i64::MAX {
            Err(Fault::ReceiverRenewalOverflow)
        } else if lease.lease_epoch > i64::MAX {
            Err(Fault::ReceiverEpochOverflow)
        } else if row is Some && receiver_fence_holds(row->0, *lease, now) {
            Ok(LeaseRenewalOutcome::Applied { lease_until: (now + lease_duration) as i64 })
        } else {
            Ok(LeaseRenewalOutcome::Stale)
        }),
        r matches Ok(LeaseRenewalOutcome::Applied { lease_until }) ==> lease_until - now == lease_duration && row is Some
            && row->0.processing && lease.lease_until > now,
        lease.lease_until <= now || row is None ==> !(r matches Ok(LeaseRenewalOutcome::Applied { .. })),
{
    if lease_duration < 10 || lease_duration > 300_000 {
        return Err(Fault::InvalidReceiverRenewal);
    }
    let until: i64 = match now.checked_add(lease_duration) {
        Some(until) => until,
        None => {
            return Err(Fault::ReceiverRenewalOverflow);
        },
    };
    if lease.lease_epoch > 0x7fff_ffff_ffff_ffff {
        return Err(Fault::ReceiverEpochOverflow);
    }
    match row {
        Some(found) => if holds_receiver_fence(found, lease, now) {
            Ok(LeaseRenewalOutcome::Applied { lease_until: until })
        } else {
            Ok(LeaseRenewalOutcome::Stale)
        },
        None => Ok(LeaseRenewalOutcome::Stale),
    }
}

/// What an artifact event carries.
pub enum ArtifactPayload {
    /// Bytes in base64.
    Binary { encoded: String },
    /// A manifest that was published before.
    Published,
    /// The text itself.
    Plain { content: String },
}

/// Where and by whom an artifact is produced.
pub struct ArtifactOrigin {
    pub tenant_scope: String,
    pub dispatch_id: String,
    pub owner: String,
    pub task_revision: i64,
    pub now: i64,
}

/// How large an artifact may be and how long it is kept.
pub struct ArtifactRuntimeLimits {
    pub max_artifact_bytes: u64,
    pub retention_millis: i64,
}

/// An artifact that is ready to be staged.
pub struct PreparedArtifact {
    pub bytes: Vec<u8>,
    pub content_digest: String,
    pub artifact_id: String,
    pub upload_id: String,
    pub reference_id: String,
    pub object_id: String,
    pub encryption_domain: String,
    pub retain_until: i64,
    pub task_revision: u64,
}

/// The digest that the identities of an artifact are cut from: the dispatch, the
/// event's position and the content.
pub open spec fn artifact_semantic_digest(dispatch: Seq<char>, ordinal: nat, content: Seq<char>) -> Seq<char> {
    crypto::content_digest_of(text::utf8(dispatch + "\0"@ + text::decimal(ordinal) + "\0"@ + content))
}

/// The identity of the object that holds a content for an owner.
pub open spec fn artifact_object_id(tenant: Seq<char>, owner: Seq<char>, content: Seq<char>) -> Seq<char> {
    crypto::content_digest_of(text::utf8(tenant + "\0"@ + owner + "\0confidential\0"@ + content))
}

/// Why the bytes of an artifact cannot be staged.
pub open spec fn artifact_bytes_fault(bytes: Seq<u8>, origin: ArtifactOrigin, limits: ArtifactRuntimeLimits) -> Option<
    Fault,
> {
    if bytes.len() > limits.max_artifact_bytes {
        Some(Fault::ArtifactPayloadTooLarge)
    } else if !(i64::MIN <= origin.now + limits.retention_millis <= i64::MAX) {
        Some(Fault::ArtifactRetentionOverflow)
    } else if origin.task_revision < 0 {
        Some(Fault::TaskRevisionCorrupt)
    } else {
        None
    }
}

/// Whether an artifact is prepared from its bytes.
pub open spec fn artifact_prepared(
    p: PreparedArtifact,
    bytes: Seq<u8>,
    ordinal: nat,
    origin: ArtifactOrigin,
    limits: ArtifactRuntimeLimits,
) -> bool {
    let content = crypto::content_digest_of(bytes);
    let semantic = artifact_semantic_digest(origin.dispatch_id@, ordinal, content);
    &&& p.bytes@ == bytes
    &&& p.content_digest@ == content
    &&& p.artifact_id@ == "artifact-"@ + semantic.subrange(7, 39)
    &&& p.upload_id@ == "upload-"@ + semantic.subrange(39, 71)
    &&& p.reference_id@ == "reference-"@ + semantic.subrange(7, 39)
    &&& p.object_id@ == artifact_object_id(origin.tenant_scope@, origin.owner@, content)
    &&& p.encryption_domain@ == origin.tenant_scope@ + "/confidential"@
    &&& p.retain_until == origin.now + limits.retention_millis
    &&& p.task_revision == origin.task_revision
}

/// The bytes of an artifact can be staged exactly where they are within the limit, the artifact
/// is kept until a time that can be stored and its task has a revision that can be counted.
pub proof fn law_artifacts_are_staged_within_their_limits(
    bytes: Seq<u8>,
    origin: ArtifactOrigin,
    limits: ArtifactRuntimeLimits,
)
    ensures
        artifact_bytes_fault(bytes, origin, limits) is None <==> bytes.len() <= limits.max_artifact_bytes && i64::MIN
            <= origin.now + limits.retention_millis <= i64::MAX && origin.task_revision >= 0,
        bytes.len() > limits.max_artifact_bytes ==> artifact_bytes_fault(bytes, origin, limits) == Some(
            Fault::ArtifactPayloadTooLarge,
        ),
        bytes.len() <= limits.max_artifact_bytes && origin.now + limits.retention_millis > i64::MAX
            ==> artifact_bytes_fault(bytes, origin, limits) == Some(Fault::ArtifactRetentionOverflow),
        artifact_bytes_fault(bytes, origin, limits) == Some(Fault::TaskRevisionCorrupt) ==> origin.task_revision < 0,
{
}

/// A prepared artifact holds the bytes that it was made of under their digest, is kept for the
/// retention that was asked for, and shares the middle of its name with its reference.
pub proof fn law_prepared_artifacts_hold_their_bytes(
    p: PreparedArtifact,
    bytes: Seq<u8>,
    ordinal: nat,
    origin: ArtifactOrigin,
    limits: ArtifactRuntimeLimits,
)
    requires
        artifact_prepared(p, bytes, ordinal, origin, limits),
    ensures
        p.bytes@ == bytes,
        p.content_digest@ == crypto::content_digest_of(bytes),
        p.retain_until - origin.now == limits.retention_millis,
        p.task_revision == origin.task_revision,
        ({
            let digest = artifact_semantic_digest(origin.dispatch_id@, ordinal, p.content_digest@);
            digest.len() >= 71 ==> {
                &&& p.artifact_id@.len() == 41
                &&& p.reference_id@.len() == 42
                &&& p.upload_id@.len() == 39
                &&& p.artifact_id@.subrange(9, 41) == p.reference_id@.subrange(10, 42)
                &&& p.artifact_id@.subrange(9, 41) + p.upload_id@.subrange(7, 39) == digest.subrange(7, 71)
            }
        }),
        p.encryption_domain@.subrange(0, origin.tenant_scope@.len() as int) == origin.tenant_scope@,
{
    reveal_strlit("artifact-");
    reveal_strlit("upload-");
    reveal_strlit("reference-");
    let digest = artifact_semantic_digest(origin.dispatch_id@, ordinal, p.content_digest@);
    if digest.len() >= 71 {
        assert(p.artifact_id@.subrange(9, 41) =~= digest.subrange(7, 39));
        assert(p.reference_id@.subrange(10, 42) =~= digest.subrange(7, 39));
        assert(p.upload_id@.subrange(7, 39) =~= digest.subrange(39, 71));
        assert(digest.subrange(7, 39) + digest.subrange(39, 71) =~= digest.subrange(7, 71));
    }
    assert(p.encryption_domain@.subrange(0, origin.tenant_scope@.len() as int) =~= origin.tenant_scope@);
}

/// Prepares an artifact from its bytes.
pub fn prepare_artifact_bytes(
    bytes: Vec<u8>,
    ordinal: usize,
    origin: &ArtifactOrigin,
    limits: &ArtifactRuntimeLimits,
) -> (r: Result<PreparedArtifact, Fault>)
    ensures
        match r {
            Err(e) => artifact_bytes_fault(bytes@, *origin, *limits) == Some(e),
            Ok(p) => artifact_bytes_fault(bytes@, *origin, *limits) is None && artifact_prepared(
                p,
                bytes@,
                ordinal as nat,
                *origin,
                *limits,
            ),
        },
{
    if bytes.len() as u64 > limits.max_artifact_bytes {
        return Err(Fault::ArtifactPayloadTooLarge);
    }
    let retain_until: i64 = match origin.now.checked_add(limits.retention_millis) {
        Some(until) => until,
        None => {
            return Err(Fault::ArtifactRetentionOverflow);
        },
    };
    if origin.task_revision < 0 {
        return Err(Fault::TaskRevisionCorrupt);
    }
    let content_digest = crypto::content_digest(bytes.as_slice());
    let mut key = origin.dispatch_id.clone();
    key.append("\0");
    key.append(text::decimal_text(ordinal as u64).as_str());
    key.append("\0");
    key.append(content_digest.as_str());
    let head = crypto::digest_part(key.as_str().as_bytes(), 7, 39);
    let tail = crypto::digest_part(key.as_str().as_bytes(), 39, 71);
    let mut artifact_id = "artifact-".to_owned();
    artifact_id.append(head.as_str());
    let mut upload_id = "upload-".to_owned();
    upload_id.append(tail.as_str());
    let mut reference_id = "reference-".to_owned();
    reference_id.append(head.as_str());
    let mut object_key = origin.tenant_scope.clone();
    object_key.append("\0");
    object_key.append(origin.owner.as_str());
    object_key.append("\0confidential\0");
    object_key.append(content_digest.as_str());
    let object_id = crypto::text_digest(object_key.as_str());
    let mut encryption_domain = origin.tenant_scope.clone();
    encryption_domain.append("/confidential");
    Ok(
        PreparedArtifact {
            bytes,
            content_digest,
            artifact_id,
            upload_id,
            reference_id,
            object_id,
            encryption_domain,
            retain_until,
            task_revision: origin.task_revision as u64,
        },
    )
}

/// The bytes that an artifact event carries, or nothing where they are corrupt.
pub open spec fn payload_bytes(payload: ArtifactPayload) -> Option<Seq<u8>> {
    match payload {
        ArtifactPayload::Binary { encoded } => crypto::base64_decoded(encoded@),
        ArtifactPayload::Published => Some(Seq::empty()),
        ArtifactPayload::Plain { content } => Some(text::utf8(content@)),
    }
}

/// Prepares the artifact of an event for staging. An artifact that was published
/// before needs no staging.
pub fn prepare_receiver_artifact(
    payload: &ArtifactPayload,
    ordinal: usize,
    origin: &ArtifactOrigin,
    limits: &ArtifactRuntimeLimits,
) -> (r: Result<Option<PreparedArtifact>, Fault>)
    ensures
        if *payload is Published {
            r == Ok::<Option<PreparedArtifact>, Fault>(None)
        } else {
            match payload_bytes(*payload) {
                None => r == Err::<Option<PreparedArtifact>, Fault>(Fault::ArtifactPayloadCorrupt),
                Some(bytes) => match r {
                    Err(e) => artifact_bytes_fault(bytes, *origin, *limits) == Some(e),
                    Ok(Some(p)) => artifact_bytes_fault(bytes, *origin, *limits) is None && artifact_prepared(
                        p,
                        bytes,
                        ordinal as nat,
                        *origin,
                        *limits,
                    ),
                    Ok(None) => false,
                },
            }
        },
{
    let bytes = match payload {
        ArtifactPayload::Published => {
            return Ok(None);
        },
        ArtifactPayload::Binary { encoded } => match crypto::base64_decode(encoded.as_str()) {
            Some(bytes) => bytes,
            None => {
                return Err(Fault::ArtifactPayloadCorrupt);
            },
        },
        ArtifactPayload::Plain { content } => text::copy_bytes(content.as_str().as_bytes()),
    };
    match prepare_artifact_bytes(bytes, ordinal, origin, limits) {
        Ok(p) => Ok(Some(p)),
        Err(e) => Err(e),
    }
}

/// Why the artifact of an event cannot be staged.
pub open spec fn payload_fault(payload: ArtifactPayload, origin: ArtifactOrigin, limits: ArtifactRuntimeLimits) -> Option<
    Fault,
> {
    if payload is Published {
        None
    } else {
        match payload_bytes(payload) {
            None => Some(Fault::ArtifactPayloadCorrupt),
            Some(bytes) => artifact_bytes_fault(bytes, origin, limits),
        }
    }
}

/// The fault of the first event whose artifact cannot be staged.
pub open spec fn payloads_fault(
    events: Seq<Option<ArtifactPayload>>,
    origin: ArtifactOrigin,
    limits: ArtifactRuntimeLimits,
) -> Option<Fault>
    decreases events.len(),
{
    if events.len() == 0 {
        None
    } else {
        match payloads_fault(events.drop_last(), origin, limits) {
            Some(e) => Some(e),
            None => match events.last() {
                Some(payload) => payload_fault(payload, origin, limits),
                None => None,
            },
        }
    }
}

/// Text is staged as its own bytes, and bytes in base64 as what they decode to. An artifact
/// that was published before cannot fail, and any other fails exactly where its bytes do.
pub proof fn law_payloads_carry_their_bytes(
    payload: ArtifactPayload,
    origin: ArtifactOrigin,
    limits: ArtifactRuntimeLimits,
)
    ensures
        payload is Plain ==> payload_bytes(payload) == Some(text::utf8(payload->content@)),
        payload is Binary ==> payload_bytes(payload) == crypto::base64_decoded(payload->encoded@),
        payload is Published ==> payload_fault(payload, origin, limits) is None,
        payload is Binary && crypto::base64_decoded(payload->encoded@) is None ==> payload_fault(
            payload,
            origin,
            limits,
        ) == Some(Fault::ArtifactPayloadCorrupt),
        payload is Plain ==> payload_fault(payload, origin, limits) == artifact_bytes_fault(
            text::utf8(payload->content@),
            origin,
            limits,
        ),
        payload is Binary && crypto::base64_decoded(payload->encoded@) is Some ==> payload_fault(
            payload,
            origin,
            limits,
        ) == artifact_bytes_fault(crypto::base64_decoded(payload->encoded@)->0, origin, limits),
{
}

/// The artifacts of a run of events can be staged exactly where each of them can.
pub proof fn law_every_artifact_must_be_stageable(
    events: Seq<Option<ArtifactPayload>>,
    origin: ArtifactOrigin,
    limits: ArtifactRuntimeLimits,
)
    ensures
        payloads_fault(events, origin, limits) is None <==> forall|i: int|
            0 <= i < events.len() && (#[trigger] events[i]) is Some ==> payload_fault(events[i]->0, origin, limits)
                is None,
    decreases events.len(),
{
    if events.len() > 0 {
        let shorter = events.drop_last();
        law_every_artifact_must_be_stageable(shorter, origin, limits);
        assert(events.last() == events[events.len() - 1]);
        if payloads_fault(events, origin, limits) is None {
            assert forall|i: int| 0 <= i < events.len() && (#[trigger] events[i]) is Some implies payload_fault(
                events[i]->0,
                origin,
                limits,
            ) is None by {
                if i < shorter.len() {
                    assert(shorter[i] == events[i]);
                }
            }
        } else if payloads_fault(shorter, origin, limits) is Some {
            let i = choose|i: int|
                0 <= i < shorter.len() && (#[trigger] shorter[i]) is Some && payload_fault(
                    shorter[i]->0,
                    origin,
                    limits,
                ) is Some;
            assert(events[i] == shorter[i]);
        }
    }
}

/// Whether what is staged for an event is what the event carries: nothing for an
/// event without an artifact, and for one that was published before.
pub open spec fn event_prepared(
    staged: Option<PreparedArtifact>,
    event: Option<ArtifactPayload>,
    ordinal: nat,
    origin: ArtifactOrigin,
    limits: ArtifactRuntimeLimits,
) -> bool {
    match event {
        None => staged is None,
        Some(payload) => if payload is Published {
            staged is None
        } else {
            staged is Some && artifact_prepared(staged->0, payload_bytes(payload)->0, ordinal, origin, limits)
        },
    }
}

proof fn lemma_payloads_prefix(
    events: Seq<Option<ArtifactPayload>>,
    origin: ArtifactOrigin,
    limits: ArtifactRuntimeLimits,
    i: int,
)
    requires
        0 <= i <= events.len(),
        payloads_fault(events.subrange(0, i), origin, limits) is Some,
    ensures
        payloads_fault(events, origin, limits) == payloads_fault(events.subrange(0, i), origin, limits),
    decreases events.len() - i,
{
    if i == events.len() {
        assert(events.subrange(0, i) =~= events);
    } else {
        assert(events.subrange(0, i + 1).drop_last() =~= events.subrange(0, i));
        lemma_payloads_prefix(events, origin, limits, i + 1);
    }
}

/// Prepares the artifacts of a receiver's events for staging, each under the position
/// of its event. Without a store of artifacts every event stays as it is.
pub fn prepare_receiver_artifacts(
    has_store: bool,
    events: &Vec<Option<ArtifactPayload>>,
    origin: &ArtifactOrigin,
    limits: &ArtifactRuntimeLimits,
) -> (r: Result<Vec<Option<PreparedArtifact>>, Fault>)
    ensures
        match r {
            Err(e) => has_store && payloads_fault(events@, *origin, *limits) == Some(e),
            Ok(staged) => {
                &&& staged@.len() == events@.len()
                &&& has_store ==> payloads_fault(events@, *origin, *limits) is None
                &&& forall|i: int|
                    0 <= i < staged@.len() ==> if has_store {
                        event_prepared(#[trigger] staged@[i], events@[i], i as nat, *origin, *limits)
                    } else {
                        staged@[i] is None
                    }
            },
        },
{
    let mut staged: Vec<Option<PreparedArtifact>> = Vec::new();
    let mut i: usize = 0;
    assert(events@.subrange(0, 0) =~= Seq::<Option<ArtifactPayload>>::empty());
    while i < events.len()
        invariant
            i <= events@.len(),
            staged@.len() == i,
            has_store ==> payloads_fault(events@.subrange(0, i as int), *origin, *limits) is None,
            forall|j: int|
                0 <= j < i ==> if has_store {
                    event_prepared(#[trigger] staged@[j], events@[j], j as nat, *origin, *limits)
                } else {
                    staged@[j] is None
                },
        decreases events@.len() - i,
    {
        proof {
            assert(events@.subrange(0, i + 1).drop_last() =~= events@.subrange(0, i as int));
            assert(events@.subrange(0, i + 1).last() == events@[i as int]);
        }
        let ghost before = staged@;
        match &events[i] {
            Some(payload) => {
                if has_store {
                    match prepare_receiver_artifact(payload, i, origin, limits) {
                        Ok(p) => {
                            staged.push(p);
                        },
                        Err(e) => {
                            proof {
                                lemma_payloads_prefix(events@, *origin, *limits, i + 1);
                            }
                            return Err(e);
                        },
                    }
                } else {
                    staged.push(None);
                }
            },
            None => {
                staged.push(None);
            },
        }
        assert forall|j: int| 0 <= j < i + 1 implies if has_store {
            event_prepared(#[trigger] staged@[j], events@[j], j as nat, *origin, *limits)
        } else {
            staged@[j] is None
        } by {
            if j < i {
                assert(staged@[j] == before[j]);
            }
        }
        i += 1;
    }
    assert(events@.subrange(0, i as int) =~= events@);
    Ok(staged)
}

/// The policy that artifacts are kept under.
pub struct ArtifactPolicy {
    pub policy_id: String,
    pub policy_revision: u64,
    pub policy_digest: String,
}

/// The policy that artifacts are kept under.
pub fn default_artifact_policy() -> (r: ArtifactPolicy)
    ensures
        r.policy_id@ == "artifact-default"@,
        r.policy_revision == 1,
        r.policy_digest@ == crypto::content_digest_of(text::utf8("smesh-artifact-default/v1"@)),
{
    ArtifactPolicy {
        policy_id: "artifact-default".to_owned(),
        policy_revision: 1,
        policy_digest: crypto::text_digest("smesh-artifact-default/v1"),
    }
}

/// A staged artifact that a completion publishes, and what is on record for it:
/// whether orphan cleanup owns the staged file, and the object that holds its
/// content.
#[derive(Clone)]
pub struct StagedArtifact {
    pub tenant_scope: String,
    pub task_id: String,
    pub dispatch_id: String,
    pub receiver_lease_epoch: u64,
    pub receiver_lease_token: String,
    pub quota_binding_digest: Option<String>,
    pub task_revision: u64,
    pub policy_revision: u64,
    pub created_at: i64,
    pub retain_until: i64,
    pub ciphertext_length: u64,
    pub owner_account_id: String,
    pub content_digest: String,
    pub classification: String,
    pub encryption_domain: String,
    pub plaintext_length: u64,
    pub owned_by_orphan_cleanup: bool,
    pub stored_owner: String,
    pub stored_content_digest: String,
    pub stored_classification: String,
    pub stored_encryption_domain: String,
    pub stored_plaintext_length: i64,
}

/// The binding that a lease's reservation has.
pub open spec fn lease_binding(lease: ReceiverLease) -> Option<Seq<char>> {
    match lease.execution_reservation {
        Some(held) => Some(held.binding_digest@),
        None => None,
    }
}

/// Whether an artifact was staged under a lease.
pub open spec fn staged_under(a: StagedArtifact, lease: ReceiverLease) -> bool {
    &&& a.tenant_scope@ == lease.tenant_scope@
    &&& a.task_id@ == lease.task_id@
    &&& a.dispatch_id@ == lease.dispatch_id@
    &&& a.receiver_lease_epoch == lease.lease_epoch
    &&& a.receiver_lease_token@ == lease.lease_token@
    &&& text::opt_text(a.quota_binding_digest) == lease_binding(lease)
    &&& a.task_revision != 0
    &&& a.policy_revision != 0
    &&& a.created_at <= a.retain_until
    &&& a.ciphertext_length >= 16
}

/// Why a staged artifact cannot be published.
pub open spec fn staged_fault(a: StagedArtifact, lease: ReceiverLease) -> Option<Fault> {
    if !staged_under(a, lease) {
        Some(Fault::ArtifactBindingStale)
    } else if a.owned_by_orphan_cleanup {
        Some(Fault::ArtifactStageOrphaned)
    } else if a.stored_owner@ != a.owner_account_id@ || a.stored_content_digest@ != a.content_digest@
        || a.stored_classification@ != a.classification@ || a.stored_encryption_domain@ != a.encryption_domain@
        || a.stored_plaintext_length != quota::clamp_i64(a.plaintext_length) {
        Some(Fault::ArtifactRegistrationConflict)
    } else {
        None
    }
}

/// A staged artifact is published only by the lease that staged it, for a task and a policy
/// that have a revision, while it is not orphaned, and only where the object on record holds
/// the same content for the same owner.
pub proof fn law_artifacts_are_published_by_their_lease(a: StagedArtifact, lease: ReceiverLease)
    ensures
        staged_fault(a, lease) is None ==> {
            &&& a.tenant_scope@ == lease.tenant_scope@
            &&& a.task_id@ == lease.task_id@
            &&& a.dispatch_id@ == lease.dispatch_id@
            &&& a.receiver_lease_epoch == lease.lease_epoch
            &&& a.receiver_lease_token@ == lease.lease_token@
            &&& a.quota_binding_digest is Some <==> lease.execution_reservation is Some
            &&& lease.execution_reservation is Some ==> a.quota_binding_digest->0@
                == lease.execution_reservation->0.binding_digest@
            &&& a.task_revision >= 1
            &&& a.policy_revision >= 1
            &&& a.created_at <= a.retain_until
            &&& a.ciphertext_length >= 16
            &&& !a.owned_by_orphan_cleanup
            &&& a.stored_owner@ == a.owner_account_id@
            &&& a.stored_content_digest@ == a.content_digest@
            &&& a.stored_classification@ == a.classification@
            &&& a.stored_encryption_domain@ == a.encryption_domain@
            &&& a.plaintext_length <= i64::MAX ==> a.stored_plaintext_length == a.plaintext_length
        },
        a.receiver_lease_epoch != lease.lease_epoch || a.receiver_lease_token@ != lease.lease_token@ || a.task_id@
            != lease.task_id@ || a.dispatch_id@ != lease.dispatch_id@ || a.tenant_scope@ != lease.tenant_scope@
            || a.ciphertext_length < 16 || a.created_at > a.retain_until ==> staged_fault(a, lease) == Some(
            Fault::ArtifactBindingStale,
        ),
        staged_fault(a, lease) == Some(Fault::ArtifactStageOrphaned) ==> a.owned_by_orphan_cleanup,
        staged_fault(a, lease) == Some(Fault::ArtifactRegistrationConflict) ==> !a.owned_by_orphan_cleanup,
{
}

/// Whether an artifact is staged as it was prepared, under a lease. What is on record
/// for it is what its own registration writes.
pub open spec fn staged_as_prepared(
    a: StagedArtifact,
    p: PreparedArtifact,
    lease: ReceiverLease,
    origin: ArtifactOrigin,
    ciphertext_length: u64,
) -> bool {
    &&& a.tenant_scope@ == lease.tenant_scope@
    &&& a.task_id@ == lease.task_id@
    &&& a.dispatch_id@ == lease.dispatch_id@
    &&& a.receiver_lease_epoch == lease.lease_epoch
    &&& a.receiver_lease_token@ == lease.lease_token@
    &&& text::opt_text(a.quota_binding_digest) == lease_binding(lease)
    &&& a.task_revision == p.task_revision
    &&& a.policy_revision == 1
    &&& a.created_at == origin.now
    &&& a.retain_until == p.retain_until
    &&& a.ciphertext_length == ciphertext_length
    &&& a.owner_account_id@ == origin.owner@
    &&& a.content_digest@ == p.content_digest@
    &&& a.classification@ == "confidential"@
    &&& a.encryption_domain@ == p.encryption_domain@
    &&& a.plaintext_length == p.bytes@.len()
    &&& !a.owned_by_orphan_cleanup
    &&& a.stored_owner@ == a.owner_account_id@
    &&& a.stored_content_digest@ == a.content_digest@
    &&& a.stored_classification@ == a.classification@
    &&& a.stored_encryption_domain@ == a.encryption_domain@
    &&& a.stored_plaintext_length == quota::clamp_i64(a.plaintext_length)
}

/// Stages a prepared artifact under a lease. `ciphertext_length` is the length of the
/// encrypted file, absent where it could not be written.
pub fn stage_artifact(
    has_store: bool,
    p: &PreparedArtifact,
    lease: &ReceiverLease,
    origin: &ArtifactOrigin,
    ciphertext_length: Option<u64>,
) -> (r: Result<StagedArtifact, Fault>)
    ensures
        match r {
            Err(e) => if !has_store {
                e == Fault::ArtifactPublicationUnsupported
            } else {
                e == Fault::ArtifactStagingFailed && ciphertext_length is None
            },
            Ok(a) => has_store && ciphertext_length is Some && staged_as_prepared(
                a,
                *p,
                *lease,
                *origin,
                ciphertext_length->0,
            ),
        },
{
    if !has_store {
        return Err(Fault::ArtifactPublicationUnsupported);
    }
    match ciphertext_length {
        None => Err(Fault::ArtifactStagingFailed),
        Some(ciphertext_length) => {
            let quota_binding_digest: Option<String> = match &lease.execution_reservation {
                Some(held) => Some(held.binding_digest.clone()),
                None => None,
            };
            let plaintext_length: u64 = p.bytes.len() as u64;
            Ok(
                StagedArtifact {
                    tenant_scope: lease.tenant_scope.clone(),
                    task_id: lease.task_id.clone(),
                    dispatch_id: lease.dispatch_id.clone(),
                    receiver_lease_epoch: lease.lease_epoch,
                    receiver_lease_token: lease.lease_token.clone(),
                    quota_binding_digest,
                    task_revision: p.task_revision,
                    policy_revision: 1,
                    created_at: origin.now,
                    retain_until: p.retain_until,
                    ciphertext_length,
                    owner_account_id: origin.owner.clone(),
                    content_digest: p.content_digest.clone(),
                    classification: "confidential".to_owned(),
                    encryption_domain: p.encryption_domain.clone(),
                    plaintext_length,
                    owned_by_orphan_cleanup: false,
                    stored_owner: origin.owner.clone(),
                    stored_content_digest: p.content_digest.clone(),
                    stored_classification: "confidential".to_owned(),
                    stored_encryption_domain: p.encryption_domain.clone(),
                    stored_plaintext_length: admission::clamp_stored(plaintext_length),
                },
            )
        },
    }
}

/// What a receiver prepares and stages for a task that has a revision, its completion
/// under the same lease publishes, where the file holds at least its seal and
/// artifacts are kept for some time.
pub proof fn law_prepared_artifacts_are_publishable(
    a: StagedArtifact,
    p: PreparedArtifact,
    bytes: Seq<u8>,
    ordinal: nat,
    lease: ReceiverLease,
    origin: ArtifactOrigin,
    limits: ArtifactRuntimeLimits,
    ciphertext_length: u64,
)
    requires
        artifact_bytes_fault(bytes, origin, limits) is None,
        artifact_prepared(p, bytes, ordinal, origin, limits),
        staged_as_prepared(a, p, lease, origin, ciphertext_length),
        origin.task_revision > 0,
        limits.retention_millis >= 0,
        ciphertext_length >= 16,
    ensures
        staged_fault(a, lease) is None,
{
}

/// The fault of the first staged artifact that cannot be published.
pub open spec fn all_staged_fault(items: Seq<StagedArtifact>, lease: ReceiverLease) -> Option<Fault>
    decreases items.len(),
{
    if items.len() == 0 {
        None
    } else {
        match all_staged_fault(items.drop_last(), lease) {
            Some(e) => Some(e),
            None => staged_fault(items.last(), lease),
        }
    }
}

/// Staged artifacts are published all together or not at all: none is refused exactly where
/// each could be published.
pub proof fn law_every_staged_artifact_must_be_publishable(items: Seq<StagedArtifact>, lease: ReceiverLease)
    ensures
        all_staged_fault(items, lease) is None <==> forall|i: int|
            0 <= i < items.len() ==> staged_fault(#[trigger] items[i], lease) is None,
    decreases items.len(),
{
    if items.len() > 0 {
        let shorter = items.drop_last();
        law_every_staged_artifact_must_be_publishable(shorter, lease);
        assert(items.last() == items[items.len() - 1]);
        if all_staged_fault(items, lease) is None {
            assert forall|i: int| 0 <= i < items.len() implies staged_fault(#[trigger] items[i], lease) is None by {
                if i < shorter.len() {
                    assert(shorter[i] == items[i]);
                }
            }
        } else if all_staged_fault(shorter, lease) is Some {
            let i = choose|i: int| 0 <= i < shorter.len() && staged_fault(#[trigger] shorter[i], lease) is Some;
            assert(items[i] == shorter[i]);
        }
    }
}

fn check_staged(a: &StagedArtifact, lease: &ReceiverLease) -> (r: Option<Fault>)
    ensures
        r == staged_fault(*a, *lease),
{
    let bound = match &lease.execution_reservation {
        Some(held) => text::opt_text_is(&a.quota_binding_digest, held.binding_digest.as_str()),
        None => a.quota_binding_digest.is_none(),
    };
    if a.tenant_scope != lease.tenant_scope || a.task_id != lease.task_id || a.dispatch_id != lease.dispatch_id
        || a.receiver_lease_epoch != lease.lease_epoch || a.receiver_lease_token != lease.lease_token || !bound
        || a.task_revision == 0 || a.policy_revision == 0 || a.created_at > a.retain_until || a.ciphertext_length
        < 16 {
        return Some(Fault::ArtifactBindingStale);
    }
    if a.owned_by_orphan_cleanup {
        return Some(Fault::ArtifactStageOrphaned);
    }
    if a.stored_owner != a.owner_account_id || a.stored_content_digest != a.content_digest || a.stored_classification
        != a.classification || a.stored_encryption_domain != a.encryption_domain || a.stored_plaintext_length
        != admission::clamp_stored(a.plaintext_length) {
        return Some(Fault::ArtifactRegistrationConflict);
    }
    None
}

proof fn lemma_staged_prefix(items: Seq<StagedArtifact>, lease: ReceiverLease, i: int)
    requires
        0 <= i <= items.len(),
        all_staged_fault(items.subrange(0, i), lease) is Some,
    ensures
        all_staged_fault(items, lease) == all_staged_fault(items.subrange(0, i), lease),
    decreases items.len() - i,
{
    if i == items.len() {
        assert(items.subrange(0, i) =~= items);
    } else {
        assert(items.subrange(0, i + 1).drop_last() =~= items.subrange(0, i));
        lemma_staged_prefix(items, lease, i + 1);
    }
}

fn check_all_staged(items: &Vec<StagedArtifact>, lease: &ReceiverLease) -> (r: Option<Fault>)
    ensures
        r == all_staged_fault(items@, *lease),
{
    let mut i: usize = 0;
    assert(items@.subrange(0, 0) =~= Seq::<StagedArtifact>::empty());
    while i < items.len()
        invariant
            i <= items@.len(),
            all_staged_fault(items@.subrange(0, i as int), *lease) is None,
        decreases items@.len() - i,
    {
        proof {
            assert(items@.subrange(0, i + 1).drop_last() =~= items@.subrange(0, i as int));
            assert(items@.subrange(0, i + 1).last() == items@[i as int]);
        }
        if let Some(e) = check_staged(&items[i], lease) {
            proof {
                lemma_staged_prefix(items@, *lease, i + 1);
            }
            return Some(e);
        }
        i += 1;
    }
    assert(items@.subrange(0, i as int) =~= items@);
    None
}

/// The recorded name of a termination.
pub open spec fn termination_kind_text(t: ReceiverTermination) -> Seq<char> {
    match t {
        ReceiverTermination::Success => "success"@,
        ReceiverTermination::InputRequired { message } => "input_required"@,
        ReceiverTermination::AuthRequired { message } => "auth_required"@,
    }
}

/// Whether a termination may be recorded.
pub open spec fn termination_valid(t: ReceiverTermination) -> bool {
    match t {
        ReceiverTermination::Success => true,
        ReceiverTermination::InputRequired { message } => bounded_text(message@, 4096),
        ReceiverTermination::AuthRequired { message } => bounded_text(message@, 4096),
    }
}

/// Whether some frame is larger than a transcript may hold.
pub open spec fn has_large_frame(parts: Seq<Seq<char>>) -> bool {
    exists|i: int| 0 <= i < parts.len() && text::utf8(#[trigger] parts[i]).len() > 1_048_576
}

/// Why a completion is refused before anything is read.
pub open spec fn completion_preflight_fault(
    lease: ReceiverLease,
    parts: Seq<Seq<char>>,
    termination: ReceiverTermination,
    quota_enforcement: bool,
) -> Option<Fault> {
    if parts.len() > MAX_RECEIVER_EVENTS {
        Some(Fault::ReceiverTranscriptTooLong)
    } else if !termination_valid(termination) {
        Some(Fault::InvalidReceiverTermination)
    } else if total_bytes(parts) > u64::MAX {
        Some(Fault::ReceiverByteCountOverflow)
    } else if lease.execution_reservation is Some && (total_bytes(parts)
        > lease.execution_reservation->0.budget.max_output_bytes || parts.len()
        > lease.execution_reservation->0.budget.max_event_count) {
        Some(Fault::ReceiverBudgetExceeded)
    } else if lease.execution_reservation is None && quota_enforcement {
        Some(Fault::ReceiverLeaseUnreserved)
    } else if has_large_frame(parts) {
        Some(Fault::ReceiverTranscriptTooLong)
    } else if text::utf8(transcript::transcript_text_of(parts)).len() > 67_108_864 {
        Some(Fault::ReceiverTranscriptTooLarge)
    } else {
        None
    }
}

/// Why a completion is refused once the records have been read.
pub open spec fn completion_fault(
    lease: ReceiverLease,
    parts: Seq<Seq<char>>,
    fence: Option<InboxFence>,
    cancel_requested: bool,
    canceled: bool,
    staged: Seq<StagedArtifact>,
    now: i64,
) -> Option<Fault> {
    if !(fence is Some && receiver_fence_holds(fence->0, lease, now) && cancel_requested == canceled) {
        Some(Fault::ReceiverLeaseStale)
    } else if all_staged_fault(staged, lease) is Some {
        all_staged_fault(staged, lease)
    } else if total_bytes(parts) > i64::MAX {
        Some(Fault::ReceiverMeasurementOverflow)
    } else {
        None
    }
}

/// What a completion writes: its kind, the digest of each event, and the count,
/// digest and measurement of them all.
pub struct ReceiverCompletion {
    pub kind: String,
    pub frame_digests: Vec<String>,
    pub frame_count: i64,
    pub transcript_digest: String,
    pub measured_output_bytes: i64,
    pub measured_event_count: i64,
}

/// Whether a completion is written for its events and its termination.
pub open spec fn completion_written(
    c: ReceiverCompletion,
    parts: Seq<Seq<char>>,
    termination: ReceiverTermination,
) -> bool {
    &&& c.kind@ == termination_kind_text(termination)
    &&& c.frame_digests@.len() == parts.len()
    &&& forall|i: int|
        0 <= i < parts.len() ==> (#[trigger] c.frame_digests@[i])@ == crypto::content_digest_of(text::utf8(parts[i]))
    &&& c.frame_count == parts.len()
    &&& c.transcript_digest@ == transcript::transcript_digest_of(parts)
    &&& c.measured_output_bytes == total_bytes(parts)
    &&& c.measured_event_count == parts.len()
}

/// A completion that passes its first checks stays within the budget that was reserved for it,
/// in bytes and in events, and is reserved at all where quota is enforced.
pub proof fn law_completions_stay_within_their_budget(
    lease: ReceiverLease,
    parts: Seq<Seq<char>>,
    termination: ReceiverTermination,
    quota_enforcement: bool,
)
    ensures
        ({
            let fault = completion_preflight_fault(lease, parts, termination, quota_enforcement);
            let reserved = lease.execution_reservation;
            &&& fault is None ==> {
                &&& parts.len() <= 1024
                &&& reserved is Some ==> total_bytes(parts) <= reserved->0.budget.max_output_bytes && parts.len()
                    <= reserved->0.budget.max_event_count
                &&& quota_enforcement ==> reserved is Some
                &&& termination is InputRequired ==> 1 <= text::utf8(termination->InputRequired_message@).len() <= 4096
                &&& termination is AuthRequired ==> 1 <= text::utf8(termination->AuthRequired_message@).len() <= 4096
                &&& forall|i: int| 0 <= i < parts.len() ==> text::utf8(#[trigger] parts[i]).len() <= 1024 * 1024
                &&& text::utf8(transcript::transcript_text_of(parts)).len() <= 64 * 1024 * 1024
            }
            &&& fault == Some(Fault::ReceiverBudgetExceeded) ==> reserved is Some && (total_bytes(parts)
                > reserved->0.budget.max_output_bytes || parts.len() > reserved->0.budget.max_event_count)
            &&& fault == Some(Fault::ReceiverLeaseUnreserved) ==> reserved is None && quota_enforcement
            &&& fault == Some(Fault::InvalidReceiverTermination) ==> !(termination is Success)
            &&& parts.len() <= 1024 && termination is Success && total_bytes(parts) <= u64::MAX && (reserved is Some
                ==> total_bytes(parts) <= reserved->0.budget.max_output_bytes && parts.len()
                <= reserved->0.budget.max_event_count) && (reserved is Some || !quota_enforcement) && (forall|i: int|
                0 <= i < parts.len() ==> text::utf8(#[trigger] parts[i]).len() <= 1024 * 1024) && text::utf8(
                transcript::transcript_text_of(parts),
            ).len() <= 64 * 1024 * 1024 ==> fault is None
            &&& parts.len() > 1024 ==> fault == Some(Fault::ReceiverTranscriptTooLong)
        }),
{
    let fault = completion_preflight_fault(lease, parts, termination, quota_enforcement);
    if fault is None {
        assert forall|i: int| 0 <= i < parts.len() implies text::utf8(#[trigger] parts[i]).len() <= 1024 * 1024 by {
            assert(!has_large_frame(parts));
        }
    }
}

/// A completion becomes durable only under a lease that holds, answers a cancellation exactly
/// where one was asked for, and publishes every artifact that was staged.
pub proof fn law_completions_are_fenced(
    lease: ReceiverLease,
    parts: Seq<Seq<char>>,
    fence: Option<InboxFence>,
    cancel_requested: bool,
    canceled: bool,
    staged: Seq<StagedArtifact>,
    now: i64,
)
    ensures
        ({
            let fault = completion_fault(lease, parts, fence, cancel_requested, canceled, staged, now);
            &&& fence is None || cancel_requested != canceled || now >= lease.lease_until || !fence->0.processing
                ==> fault == Some(Fault::ReceiverLeaseStale)
            &&& fault is None ==> fence is Some && receiver_fence_holds(fence->0, lease, now) && (cancel_requested
                <==> canceled) && total_bytes(parts) <= i64::MAX && forall|i: int|
                0 <= i < staged.len() ==> staged_fault(#[trigger] staged[i], lease) is None
            &&& fence is Some && receiver_fence_holds(fence->0, lease, now) && cancel_requested == canceled
                && total_bytes(parts) <= i64::MAX && staged.len() == 0 ==> fault is None
            &&& fence is Some && receiver_fence_holds(fence->0, lease, now) && cancel_requested == canceled
                && all_staged_fault(staged, lease) is Some ==> fault == all_staged_fault(staged, lease)
        }),
{
    law_every_staged_artifact_must_be_publishable(staged, lease);
}

/// What a completion writes counts its events, seals each and all of them and measures their
/// bytes, and the three ways to end are recorded under three names.
pub proof fn law_completions_count_their_events(
    c: ReceiverCompletion,
    parts: Seq<Seq<char>>,
    termination: ReceiverTermination,
    other: ReceiverTermination,
)
    requires
        completion_written(c, parts, termination),
    ensures
        c.frame_count == parts.len(),
        c.measured_event_count == parts.len(),
        c.measured_output_bytes == total_bytes(parts),
        c.frame_digests@.len() == parts.len(),
        c.transcript_digest@ == transcript::transcript_digest_of(parts),
        termination is Success <==> c.kind@ == "success"@,
        termination is InputRequired ==> c.kind@ == "input_required"@,
        termination is AuthRequired ==> c.kind@ == "auth_required"@,
        forall|i: int|
            0 <= i < parts.len() ==> (#[trigger] c.frame_digests@[i])@ == crypto::content_digest_of(
                text::utf8(parts[i]),
            ),
{
    lemma_kinds_differ();
}

fn any_large(parts: &Vec<String>) -> (r: bool)
    ensures
        r == has_large_frame(text::texts(parts@)),
{
    let ghost all = text::texts(parts@);
    let mut i: usize = 0;
    while i < parts.len()
        invariant
            i <= parts@.len(),
            all == text::texts(parts@),
            forall|j: int| 0 <= j < i ==> text::utf8(#[trigger] all[j]).len() <= 1_048_576,
        decreases parts@.len() - i,
    {
        assert(all[i as int] == parts@[i as int]@);
        if text::byte_len(parts[i].as_str()) > 1_048_576 {
            return true;
        }
        i += 1;
    }
    false
}

fn digests_of(parts: &Vec<String>) -> (r: Vec<String>)
    ensures
        r@.len() == parts@.len(),
        forall|i: int|
            0 <= i < parts@.len() ==> (#[trigger] r@[i])@ == crypto::content_digest_of(text::utf8(parts@[i]@)),
{
    let mut out: Vec<String> = Vec::new();
    let mut i: usize = 0;
    while i < parts.len()
        invariant
            i <= parts@.len(),
            out@.len() == i,
            forall|j: int|
                0 <= j < i ==> (#[trigger] out@[j])@ == crypto::content_digest_of(text::utf8(parts@[j]@)),
        decreases parts@.len() - i,
    {
        out.push(crypto::text_digest(parts[i].as_str()));
        i += 1;
    }
    out
}

fn preflight_completion(
    lease: &ReceiverLease,
    encoded: &Vec<String>,
    termination: &ReceiverTermination,
    quota_enforcement: bool,
) -> (r: Result<u64, Fault>)
    ensures
        match r {
            Ok(n) => completion_preflight_fault(*lease, text::texts(encoded@), *termination, quota_enforcement) is None
                && n == total_bytes(text::texts(encoded@)),
            Err(e) => completion_preflight_fault(*lease, text::texts(encoded@), *termination, quota_enforcement)
                == Some(e),
        },
{
    assert(text::texts(encoded@).len() == encoded@.len());
    if encoded.len() > MAX_RECEIVER_EVENTS {
        return Err(Fault::ReceiverTranscriptTooLong);
    }
    let valid = match termination {
        ReceiverTermination::Success => true,
        ReceiverTermination::InputRequired { message } => is_bounded(message.as_str(), 4096),
        ReceiverTermination::AuthRequired { message } => is_bounded(message.as_str(), 4096),
    };
    if !valid {
        return Err(Fault::InvalidReceiverTermination);
    }
    let bytes: u64 = match measured(encoded) {
        Some(bytes) => bytes,
        None => {
            return Err(Fault::ReceiverByteCountOverflow);
        },
    };
    match &lease.execution_reservation {
        Some(held) => {
            if bytes > held.budget.max_output_bytes || encoded.len() as u64 > held.budget.max_event_count {
                return Err(Fault::ReceiverBudgetExceeded);
            }
        },
        None => {
            if quota_enforcement {
                return Err(Fault::ReceiverLeaseUnreserved);
            }
        },
    }
    if any_large(encoded) {
        return Err(Fault::ReceiverTranscriptTooLong);
    }
    let whole = transcript::transcript_text(encoded);
    if text::byte_len(whole.as_str()) > 67_108_864 {
        return Err(Fault::ReceiverTranscriptTooLarge);
    }
    Ok(bytes)
}

/// Completes a dispatch: its events become durable only under a lease that holds,
/// and a cancellation is acknowledged exactly where one was asked for. `encoded`
/// holds the encoded text of each event.
pub fn complete_receiver(
    lease: &ReceiverLease,
    encoded: &Vec<String>,
    termination: &ReceiverTermination,
    quota_enforcement: bool,
    fence: &Option<InboxFence>,
    cancel_requested: bool,
    completion_canceled: bool,
    staged: &Vec<StagedArtifact>,
    now: i64,
) -> (r: Result<ReceiverCompletion, Fault>)
    ensures
        match r {
            Err(e) => {
                let early = completion_preflight_fault(
                    *lease,
                    text::texts(encoded@),
                    *termination,
                    quota_enforcement,
                );
                early == Some(e) || (early is None && completion_fault(
                    *lease,
                    text::texts(encoded@),
                    *fence,
                    cancel_requested,
                    completion_canceled,
                    staged@,
                    now,
                ) == Some(e))
            },
            Ok(c) => {
                &&& completion_preflight_fault(*lease, text::texts(encoded@), *termination, quota_enforcement) is None
                &&& completion_fault(
                    *lease,
                    text::texts(encoded@),
                    *fence,
                    cancel_requested,
                    completion_canceled,
                    staged@,
                    now,
                ) is None
                &&& completion_written(c, text::texts(encoded@), *termination)
            },
        },
{
    let bytes: u64 = match preflight_completion(lease, encoded, termination, quota_enforcement) {
        Ok(bytes) => bytes,
        Err(e) => {
            return Err(e);
        },
    };
    let held = match fence {
        Some(row) => holds_receiver_fence(row, lease, now) && cancel_requested == completion_canceled,
        None => false,
    };
    if !held {
        return Err(Fault::ReceiverLeaseStale);
    }
    if let Some(e) = check_all_staged(staged, lease) {
        return Err(e);
    }
    if bytes > 0x7fff_ffff_ffff_ffff {
        return Err(Fault::ReceiverMeasurementOverflow);
    }
    let kind = match termination {
        ReceiverTermination::Success => "success",
        ReceiverTermination::InputRequired { message } => "input_required",
        ReceiverTermination::AuthRequired { message } => "auth_required",
    };
    let frame_digests = digests_of(encoded);
    proof {
        let parts = text::texts(encoded@);
        assert(parts.len() == encoded@.len());
        assert forall|i: int| 0 <= i < parts.len() implies (#[trigger] frame_digests@[i])@
            == crypto::content_digest_of(text::utf8(parts[i])) by {
            assert(parts[i] == encoded@[i]@);
        }
    }
    Ok(
        ReceiverCompletion {
            kind: kind.to_owned(),
            frame_digests,
            frame_count: encoded.len() as i64,
            transcript_digest: transcript::transcript_digest(encoded),
            measured_output_bytes: bytes as i64,
            measured_event_count: encoded.len() as i64,
        },
    )
}

/// Whether an inbox row is what a completion wrote: every event at its position,
/// read back as it was encoded, and the termination read back as it was recorded.
pub open spec fn row_records(
    row: InboxRow,
    c: ReceiverCompletion,
    parts: Seq<Seq<char>>,
    termination: ReceiverTermination,
) -> bool {
    &&& row.state == ReceiverState::Completed
    &&& row.events@.len() == parts.len()
    &&& forall|i: int|
        0 <= i < parts.len() ==> {
            let e = #[trigger] row.events@[i];
            e.seq == i + 1 && e.version == 1 && e.kind@ == "mesh_event"@ && e.encoded@ == parts[i] && e.digest@
                == c.frame_digests@[i]@ && text::opt_text(e.canonical) == Some(parts[i])
        }
    &&& row.frame_count == Some(c.frame_count)
    &&& text::opt_text(row.transcript_digest) == Some(c.transcript_digest@)
    &&& row.measured_output_bytes == Some(c.measured_output_bytes)
    &&& row.measured_event_count == Some(c.measured_event_count)
    &&& text::opt_text(row.completion_kind) == Some(c.kind@)
    &&& if termination is Success {
        row.termination_text is None
    } else {
        row.termination_text is Some && text::utf8(row.termination_text->0@).len() <= 4096 && row.termination
            is Some && terminations_equal(row.termination->0, termination)
    }
}

proof fn lemma_no_events_fault(row: InboxRow, c: ReceiverCompletion, parts: Seq<Seq<char>>, t: ReceiverTermination, n: int)
    requires
        completion_written(c, parts, t),
        row_records(row, c, parts, t),
        0 <= n <= parts.len(),
    ensures
        events_fault(row.events@.subrange(0, n)) is None,
    decreases n,
{
    let rows = row.events@.subrange(0, n);
    if n > 0 {
        lemma_no_events_fault(row, c, parts, t, n - 1);
        assert(rows.drop_last() =~= row.events@.subrange(0, n - 1));
        assert(rows.last() == row.events@[n - 1]);
    }
}

/// What a receiver completed is what is replayed: the same events and the same
/// termination, for every dispatch whose termination text fits its column.
pub proof fn law_completed_dispatches_replay(
    row: InboxRow,
    c: ReceiverCompletion,
    parts: Seq<Seq<char>>,
    termination: ReceiverTermination,
)
    requires
        termination_valid(termination),
        completion_written(c, parts, termination),
        row_records(row, c, parts, termination),
    ensures
        replay_fault(row) is None,
        replayed_events(row.events@) == parts,
        terminations_equal(
            recorded_termination(
                text::opt_text(row.completion_kind),
                text::opt_text(row.termination_text),
                row.termination,
            )->0,
            termination,
        ),
{
    lemma_no_events_fault(row, c, parts, termination, parts.len() as int);
    assert(row.events@.subrange(0, parts.len() as int) =~= row.events@);
    assert forall|i: int| 0 <= i < parts.len() implies replayed_events(row.events@)[i] == parts[i] by {
        assert(text::opt_text(row.events@[i].canonical) == Some(parts[i]));
    }
    assert(replayed_events(row.events@) =~= parts);
    match termination {
        ReceiverTermination::Success => {},
        ReceiverTermination::InputRequired { message } => {
            text::lemma_utf8_empty(message@);
            lemma_kinds_differ();
        },
        ReceiverTermination::AuthRequired { message } => {
            text::lemma_utf8_empty(message@);
            lemma_kinds_differ();
        },
    }
}

proof fn lemma_kinds_differ()
    ensures
        "input_required"@ != "success"@,
        "auth_required"@ != "success"@,
{
    reveal_strlit("input_required");
    reveal_strlit("auth_required");
    reveal_strlit("success");
    assert("success"@.len() == 7);
    assert("input_required"@.len() == 14);
    assert("auth_required"@.len() == 13);
}

/// A completed dispatch is replayed as it was measured; a record that does not add up is told apart
/// by what does not: the events, the measurement or the end.
pub proof fn law_bad_records_are_told_apart(row: InboxRow)
    requires
        events_fault(row.events@) is None,
    ensures
        ({
            let events = replayed_events(row.events@);
            let sealed = row.frame_count is Some && row.frame_count->0 == events.len() && text::opt_text(
                row.transcript_digest,
            ) == Some(transcript::transcript_digest_of(events));
            let measured = row.measured_output_bytes is Some && row.measured_output_bytes->0 == total_bytes(events)
                && row.measured_event_count is Some && row.measured_event_count->0 == events.len();
            &&& !sealed ==> replay_fault(row) == Some(Fault::ReceiverReplayCorrupt)
            &&& sealed && !measured ==> replay_fault(row) == Some(Fault::ReceiverMeasurementCorrupt)
            &&& sealed && measured ==> replay_fault(row) is None || replay_fault(row) == Some(
                Fault::ReceiverTerminationCorrupt,
            )
            &&& replay_fault(row) is None ==> sealed && measured
        }),
{
}

/// A dispatch that may be executed needs a sender with a sound count of attempts, and a record whose
/// next epoch can be counted.
pub proof fn law_executions_are_counted(
    envelope: DurableDispatchEnvelope,
    request: ReceiveRequest,
    sender: SenderRow,
    stored: Option<InboxRow>,
    admitted: ReceiverAdmission,
)
    requires
        receive_fault(envelope, request, Some(sender), stored) is None,
        receive_granted(admitted, envelope, request, sender, stored),
    ensures
        admitted is Execute ==> 0 <= sender.attempt_count <= 0xffff_ffff,
        admitted is Execute && stored is Some ==> stored->0.lease_epoch + 1 >= 0 && admitted->reclaimed,
        admitted is Execute && stored is None ==> !admitted->reclaimed,
        request.now + request.duration <= i64::MAX,
        stored is None ==> admitted is Execute,
{
}

/// A sender whose attempts cannot be counted is refused before anything is executed, and so is a
/// record whose epoch cannot be.
pub proof fn law_uncountable_executions_are_refused(
    envelope: DurableDispatchEnvelope,
    request: ReceiveRequest,
    sender: SenderRow,
    row: InboxRow,
)
    requires
        request.now + request.duration <= i64::MAX,
        reservation::columns_fault(sender.reservation) is None,
        sender_reservation_matches(sender.reservation, envelope.execution_reservation),
    ensures
        sender.attempt_count < 0 || sender.attempt_count > 0xffff_ffff ==> receive_fault(
            envelope,
            request,
            Some(sender),
            None,
        ) == Some(Fault::SenderAttemptCorrupt),
        row.payload_digest@ == envelope.payload_digest@ && stored_columns_match(
            row.reservation,
            envelope.execution_reservation,
        ) && row.state != ReceiverState::Completed && !inbox_busy(row, request.now) ==> {
            &&& sender.attempt_count < 0 || sender.attempt_count > 0xffff_ffff ==> receive_fault(
                envelope,
                request,
                Some(sender),
                Some(row),
            ) == Some(Fault::SenderAttemptCorrupt)
            &&& 0 <= sender.attempt_count <= 0xffff_ffff && row.lease_epoch < -1 ==> receive_fault(
                envelope,
                request,
                Some(sender),
                Some(row),
            ) == Some(Fault::ReceiverEpochCorrupt)
            &&& 0 <= sender.attempt_count <= 0xffff_ffff && row.lease_epoch >= -1 ==> receive_fault(
                envelope,
                request,
                Some(sender),
                Some(row),
            ) is None
        },
{
}

/// A prepared artifact is named for its dispatch, its place and its content, is stored under its
/// tenant, its owner and its content, is encrypted in the domain of its tenant, and is kept from now
/// on for as long as the limits say.
pub proof fn law_prepared_artifacts_are_named_for_their_content(
    p: PreparedArtifact,
    bytes: Seq<u8>,
    ordinal: nat,
    origin: ArtifactOrigin,
    limits: ArtifactRuntimeLimits,
)
    requires
        artifact_prepared(p, bytes, ordinal, origin, limits),
        !origin.tenant_scope@.contains('\0'),
        !origin.owner@.contains('\0'),
        !origin.dispatch_id@.contains('\0'),
        !p.content_digest@.contains('\0'),
        !text::decimal(ordinal).contains('\0'),
    ensures
        p.content_digest@ == crypto::content_digest_of(bytes),
        exists|named: Seq<char>|
            p.object_id@ == crypto::content_digest_of(text::utf8(named)) && #[trigger] text::fields(named, '\0') == seq![
                origin.tenant_scope@,
                origin.owner@,
                "confidential"@,
                p.content_digest@,
            ],
        exists|named: Seq<char>|
            ({
                let d = crypto::content_digest_of(text::utf8(named));
                &&& #[trigger] text::fields(named, '\0') == seq![
                    origin.dispatch_id@,
                    text::decimal(ordinal),
                    p.content_digest@,
                ]
                &&& p.artifact_id@ == "artifact-"@ + d.subrange(7, 39)
                &&& p.upload_id@ == "upload-"@ + d.subrange(39, 71)
                &&& p.reference_id@ == "reference-"@ + d.subrange(7, 39)
            }),
        p.encryption_domain@.subrange(0, origin.tenant_scope@.len() as int) == origin.tenant_scope@,
        p.encryption_domain@.subrange(origin.tenant_scope@.len() as int, p.encryption_domain@.len() as int)
            == "/confidential"@,
        p.retain_until - origin.now == limits.retention_millis,
{
    reveal_strlit("\0");
    reveal_strlit("\0confidential\0");
    reveal_strlit("confidential");
    let content = p.content_digest@;
    let tenant = origin.tenant_scope@;
    let owner = origin.owner@;
    let class = "confidential"@;
    assert(!class.contains('\0'));
    let named = tenant + "\0"@ + owner + "\0confidential\0"@ + content;
    let c = class.push('\0') + content;
    let b = owner.push('\0') + c;
    assert(named =~= tenant.push('\0') + b);
    text::law_leading_fields_come_first(tenant, '\0', b);
    text::law_leading_fields_come_first(owner, '\0', c);
    text::law_leading_fields_come_first(class, '\0', content);
    assert(text::fields(named, '\0') =~= seq![tenant, owner, class, content]);
    let dispatch = origin.dispatch_id@;
    let place = text::decimal(ordinal);
    let other = dispatch + "\0"@ + place + "\0"@ + content;
    let d = place.push('\0') + content;
    assert(other =~= dispatch.push('\0') + d);
    text::law_leading_fields_come_first(dispatch, '\0', d);
    text::law_leading_fields_come_first(place, '\0', content);
    assert(text::fields(other, '\0') =~= seq![dispatch, place, content]);
    assert(p.encryption_domain@.subrange(0, tenant.len() as int) =~= tenant);
    assert(p.encryption_domain@.subrange(tenant.len() as int, p.encryption_domain@.len() as int) =~= "/confidential"@);
}

/// An event is staged exactly where it carries an artifact that is not published yet, and then as
/// that artifact.
pub proof fn law_unpublished_artifacts_are_staged(
    staged: Option<PreparedArtifact>,
    payload: ArtifactPayload,
    ordinal: nat,
    origin: ArtifactOrigin,
    limits: ArtifactRuntimeLimits,
)
    ensures
        event_prepared(staged, None, ordinal, origin, limits) ==> staged is None,
        event_prepared(staged, Some(payload), ordinal, origin, limits) ==> (staged is Some <==> !(payload is Published)),
        event_prepared(staged, Some(payload), ordinal, origin, limits) && staged is Some ==> staged->0.bytes@
            == payload_bytes(payload)->0 && staged->0.content_digest@ == crypto::content_digest_of(payload_bytes(payload)->0),
{
}

/// A completion holds at most 1024 events of a mebibyte each and 64 mebibytes of transcript, stays
/// within what was reserved, and is reserved where quotas are enforced.
pub proof fn law_completions_are_bounded(
    lease: ReceiverLease,
    parts: Seq<Seq<char>>,
    termination: ReceiverTermination,
    quota_enforcement: bool,
    i: int,
)
    ensures
        completion_preflight_fault(lease, parts, termination, quota_enforcement) is None ==> {
            &&& parts.len() <= 1024
            &&& termination_valid(termination)
            &&& total_bytes(parts) <= 0xffff_ffff_ffff_ffff
            &&& text::utf8(transcript::transcript_text_of(parts)).len() <= 64 * 1024 * 1024
            &&& quota_enforcement ==> lease.execution_reservation is Some
            &&& 0 <= i < parts.len() ==> text::utf8(parts[i]).len() <= 1024 * 1024
        },
        parts.len() > 1024 ==> completion_preflight_fault(lease, parts, termination, quota_enforcement) == Some(
            Fault::ReceiverTranscriptTooLong,
        ),
        parts.len() <= 1024 && termination_valid(termination) && total_bytes(parts) > 0xffff_ffff_ffff_ffff
            ==> completion_preflight_fault(lease, parts, termination, quota_enforcement) == Some(
            Fault::ReceiverByteCountOverflow,
        ),
        parts.len() <= 1024 && termination_valid(termination) && total_bytes(parts) <= 0xffff_ffff_ffff_ffff
            && lease.execution_reservation is None && !quota_enforcement && !has_large_frame(parts) && text::utf8(
            transcript::transcript_text_of(parts),
        ).len() > 64 * 1024 * 1024 ==> completion_preflight_fault(lease, parts, termination, quota_enforcement) == Some(
            Fault::ReceiverTranscriptTooLarge,
        ),
        0 <= i < parts.len() && text::utf8(parts[i]).len() > 1024 * 1024 ==> has_large_frame(parts),
{
}

/// What a completion measures must fit its column.
pub proof fn law_measurements_fit_their_column(
    lease: ReceiverLease,
    parts: Seq<Seq<char>>,
    fence: Option<InboxFence>,
    cancel_requested: bool,
    canceled: bool,
    staged: Seq<StagedArtifact>,
    now: i64,
)
    ensures
        completion_fault(lease, parts, fence, cancel_requested, canceled, staged, now) is None ==> total_bytes(parts)
            <= 0x7fff_ffff_ffff_ffff && cancel_requested == canceled,
        cancel_requested != canceled ==> completion_fault(
            lease,
            parts,
            fence,
            cancel_requested,
            canceled,
            staged,
            now,
        ) == Some(Fault::ReceiverLeaseStale),
        fence is Some && receiver_fence_holds(fence->0, lease, now) && cancel_requested == canceled && all_staged_fault(
            staged,
            lease,
        ) is None && total_bytes(parts) > 0x7fff_ffff_ffff_ffff ==> completion_fault(
            lease,
            parts,
            fence,
            cancel_requested,
            canceled,
            staged,
            now,
        ) == Some(Fault::ReceiverMeasurementOverflow),
{
}

/// An artifact is staged only for a task whose revision is sound, and after its size and its
/// retention were found to be.
pub proof fn law_artifacts_belong_to_a_sound_revision(
    bytes: Seq<u8>,
    origin: ArtifactOrigin,
    limits: ArtifactRuntimeLimits,
)
    requires
        bytes.len() <= limits.max_artifact_bytes,
        i64::MIN <= origin.now + limits.retention_millis <= i64::MAX,
    ensures
        origin.task_revision < 0 ==> artifact_bytes_fault(bytes, origin, limits) == Some(Fault::TaskRevisionCorrupt),
        origin.task_revision >= 0 ==> artifact_bytes_fault(bytes, origin, limits) is None,
{
}

/// An artifact that was staged under the lease is refused where cleanup has it, and where what is on
/// record of it is not what was staged.
pub proof fn law_staged_artifacts_are_told_apart(a: StagedArtifact, lease: ReceiverLease)
    ensures
        !staged_under(a, lease) ==> staged_fault(a, lease) == Some(Fault::ArtifactBindingStale),
        staged_under(a, lease) && a.owned_by_orphan_cleanup ==> staged_fault(a, lease) == Some(
            Fault::ArtifactStageOrphaned,
        ),
        staged_under(a, lease) && !a.owned_by_orphan_cleanup && (a.stored_owner@ != a.owner_account_id@
            || a.stored_content_digest@ != a.content_digest@ || a.stored_classification@ != a.classification@
            || a.stored_encryption_domain@ != a.encryption_domain@) ==> staged_fault(a, lease) == Some(
            Fault::ArtifactRegistrationConflict,
        ),
        staged_under(a, lease) && !a.owned_by_orphan_cleanup && a.plaintext_length <= 0x7fff_ffff_ffff_ffff
            && a.stored_plaintext_length != a.plaintext_length ==> staged_fault(a, lease) == Some(
            Fault::ArtifactRegistrationConflict,
        ),
{
}

/// A completion is refused for how it ends before its size is looked at, for its budget before
/// anything larger, and where quotas are enforced for want of a reservation.
pub proof fn law_completions_are_refused_in_order(
    lease: ReceiverLease,
    parts: Seq<Seq<char>>,
    termination: ReceiverTermination,
    quota_enforcement: bool,
)
    requires
        parts.len() <= 1024,
    ensures
        !termination_valid(termination) ==> completion_preflight_fault(lease, parts, termination, quota_enforcement)
            == Some(Fault::InvalidReceiverTermination),
        termination_valid(termination) && total_bytes(parts) <= u64::MAX && lease.execution_reservation is Some && (
        total_bytes(parts) > lease.execution_reservation->0.budget.max_output_bytes || parts.len()
            > lease.execution_reservation->0.budget.max_event_count) ==> completion_preflight_fault(
            lease,
            parts,
            termination,
            quota_enforcement,
        ) == Some(Fault::ReceiverBudgetExceeded),
        termination_valid(termination) && total_bytes(parts) <= u64::MAX && lease.execution_reservation is None
            && quota_enforcement ==> completion_preflight_fault(lease, parts, termination, quota_enforcement) == Some(
            Fault::ReceiverLeaseUnreserved,
        ),
{
}

} // verus!
