//! What a receiver of a dispatch is told, and what it may complete.

use smesh_authority::admission::OutboxReservation;
use smesh_authority::crypto::text_digest;
use smesh_authority::fault::Fault;
use smesh_authority::outbox::{LeaseRenewalOutcome, ReceiverState};
use smesh_authority::quota::ExecutionBudget;
use smesh_authority::receiver::{
    begin_receive, check_envelope, columns_of, complete_receiver, decode_receiver_termination,
    default_artifact_policy, holds_receiver_fence, prepare_artifact_bytes, prepare_receiver_artifact,
    prepare_receiver_artifacts, receiver_request_is_valid, renew_receiver_lease, stage_artifact, ArtifactOrigin,
    ArtifactPayload, ArtifactRuntimeLimits, DurableDispatchEnvelope, InboxFence, InboxRow, MeshRequest,
    ReceiveRequest, ReceiverAdmission, ReceiverLease, ReceiverTermination, SenderRow, StagedArtifact, StoredEvent,
};
use smesh_authority::reservation::{ExecutionReservation, ReservationColumns};

const PAYLOAD: &str = "{\"text\":\"hello\"}";

fn request() -> MeshRequest {
    MeshRequest {
        protocol: "mesh".to_string(),
        task_id: "task".to_string(),
        context_id: "context".to_string(),
        text: "hello".to_string(),
    }
}

fn reserved() -> ExecutionReservation {
    ExecutionReservation {
        reservation_id: "r".to_string(),
        reservation_version: 1,
        binding_digest: "binding".to_string(),
        policy_id: "policy".to_string(),
        policy_revision: 4,
        policy_digest: "digest".to_string(),
        budget: ExecutionBudget { max_output_bytes: 10, max_event_count: 2 },
    }
}

fn envelope() -> DurableDispatchEnvelope {
    DurableDispatchEnvelope {
        tenant_scope: "t".to_string(),
        dispatch_id: "d".to_string(),
        request: request(),
        payload_digest: text_digest(PAYLOAD),
        execution_reservation: Some(reserved()),
    }
}

#[test]
fn requests_name_their_task() {
    assert!(receiver_request_is_valid(&request(), 100));
    assert!(!receiver_request_is_valid(&request(), 1_048_577));
    assert!(!receiver_request_is_valid(&MeshRequest { task_id: String::new(), ..request() }, 100));
    assert!(!receiver_request_is_valid(&MeshRequest { protocol: "p".repeat(4_097), ..request() }, 100));
    assert!(receiver_request_is_valid(&MeshRequest { text: String::new(), ..request() }, 100));
}

#[test]
fn envelopes_seal_their_payload() {
    assert_eq!(check_envelope(&envelope(), PAYLOAD, "o", 10, true), Ok(()));
    assert_eq!(check_envelope(&envelope(), "{}", "o", 10, true), Err(Fault::InvalidReceiverEnvelope));
    assert_eq!(check_envelope(&envelope(), PAYLOAD, "", 10, true), Err(Fault::InvalidReceiverEnvelope));
    assert_eq!(check_envelope(&envelope(), PAYLOAD, "o", 0, true), Err(Fault::InvalidReceiverEnvelope));
    let mut bare = envelope();
    bare.execution_reservation = None;
    assert_eq!(check_envelope(&bare, PAYLOAD, "o", 10, false), Ok(()));
    assert_eq!(check_envelope(&bare, PAYLOAD, "o", 10, true), Err(Fault::ReceiverEnvelopeUnreserved));
}

#[test]
fn terminations_are_read_back() {
    let input = || ReceiverTermination::InputRequired { message: "which?".to_string() };
    let read = |kind: &str, payload: Option<&str>, decoded: Option<ReceiverTermination>| {
        decode_receiver_termination(&Some(kind.to_string()), &payload.map(|p| p.to_string()), &decoded)
    };
    assert!(matches!(read("success", None, None), Ok(ReceiverTermination::Success)));
    assert!(matches!(
        read("input_required", Some("{}"), Some(input())),
        Ok(ReceiverTermination::InputRequired { message }) if message == "which?"
    ));
    let corrupt = Some(Fault::ReceiverTerminationCorrupt);
    assert_eq!(read("auth_required", Some("{}"), Some(input())).err(), corrupt);
    assert_eq!(read("input_required", Some("{}"), None).err(), corrupt);
    assert_eq!(read("input_required", Some(&"x".repeat(4_097)), Some(input())).err(), corrupt);
    assert_eq!(
        read("input_required", Some("{}"), Some(ReceiverTermination::InputRequired { message: String::new() })).err(),
        corrupt
    );
}

fn sender() -> SenderRow {
    SenderRow {
        attempt_count: 2,
        lease_token: "sender".to_string(),
        reservation: ReservationColumns {
            binding_digest: Some("binding".to_string()),
            reservation_id: Some("r".to_string()),
            reservation_version: Some(1),
            reserved_output_bytes: Some(10),
            reserved_event_count: Some(2),
            policy_id: Some("policy".to_string()),
            policy_revision: Some(4),
            policy_digest: Some("digest".to_string()),
            budget_accepted: true,
        },
    }
}

fn columns() -> OutboxReservation {
    columns_of(&Some(reserved()))
}

fn receiving() -> ReceiveRequest {
    ReceiveRequest { owner: "o".to_string(), token: "k".to_string(), now: 10, duration: 30 }
}

fn inbox(state: ReceiverState, lease_until: Option<i64>) -> InboxRow {
    InboxRow {
        payload_digest: text_digest(PAYLOAD),
        state,
        lease_until,
        lease_epoch: 3,
        completion_kind: None,
        termination_text: None,
        termination: None,
        frame_count: None,
        transcript_digest: None,
        reservation: columns(),
        measured_output_bytes: None,
        measured_event_count: None,
        events: Vec::new(),
    }
}

#[test]
fn dispatches_are_executed_under_a_lease() {
    assert_eq!(columns().reserved_output_bytes, Some(10));
    match begin_receive(&envelope(), &receiving(), &Some(sender()), &None).unwrap() {
        ReceiverAdmission::Execute { lease, reclaimed } => {
            assert!(!reclaimed);
            assert_eq!(lease.lease_epoch, 1);
            assert_eq!(lease.lease_until, 40);
            assert_eq!(lease.sender_attempt_no, 2);
        }
        _ => panic!("nothing was received yet"),
    }
    let lapsed = Some(inbox(ReceiverState::Processing, Some(10)));
    match begin_receive(&envelope(), &receiving(), &Some(sender()), &lapsed).unwrap() {
        ReceiverAdmission::Execute { lease, reclaimed } => {
            assert!(reclaimed);
            assert_eq!(lease.lease_epoch, 4);
        }
        _ => panic!("the lease had lapsed"),
    }
    let mut live = inbox(ReceiverState::Processing, Some(11));
    live.lease_epoch = i64::MAX;
    assert!(matches!(
        begin_receive(&envelope(), &receiving(), &Some(sender()), &Some(live)),
        Ok(ReceiverAdmission::Busy)
    ));
}

#[test]
fn conflicting_dispatches_are_refused() {
    let refused = |sender: Option<SenderRow>, row: Option<InboxRow>| {
        begin_receive(&envelope(), &receiving(), &sender, &row).err()
    };
    assert_eq!(refused(None, None), Some(Fault::InvalidReceiverEnvelope));
    let mut other = sender();
    other.reservation.reserved_output_bytes = Some(11);
    assert_eq!(refused(Some(other), None), Some(Fault::InvalidReceiverReservation));
    let mut negative = sender();
    negative.attempt_count = -1;
    assert_eq!(refused(Some(negative), None), Some(Fault::SenderAttemptCorrupt));
    let mut row = inbox(ReceiverState::Processing, None);
    row.payload_digest = "x".to_string();
    assert_eq!(refused(Some(sender()), Some(row)), Some(Fault::DispatchPayloadConflict));
    let mut row = inbox(ReceiverState::Processing, None);
    row.reservation.reserved_event_count = Some(3);
    assert_eq!(refused(Some(sender()), Some(row)), Some(Fault::DispatchReservationConflict));
    let mut row = inbox(ReceiverState::Processing, None);
    row.lease_epoch = -5;
    assert_eq!(refused(Some(sender()), Some(row)), Some(Fault::ReceiverEpochCorrupt));
    let late = ReceiveRequest { now: i64::MAX, ..receiving() };
    assert_eq!(
        begin_receive(&envelope(), &late, &Some(sender()), &None).err(),
        Some(Fault::ReceiverLeaseOverflow)
    );
}

fn lease() -> ReceiverLease {
    ReceiverLease {
        tenant_scope: "t".to_string(),
        task_id: "task".to_string(),
        dispatch_id: "d".to_string(),
        payload_digest: text_digest(PAYLOAD),
        sender_attempt_no: 2,
        sender_lease_token: "sender".to_string(),
        lease_owner: "o".to_string(),
        lease_token: "k".to_string(),
        lease_epoch: 1,
        lease_until: 40,
        execution_reservation: Some(reserved()),
    }
}

fn fence() -> InboxFence {
    InboxFence {
        task_id: "task".to_string(),
        payload_digest: text_digest(PAYLOAD),
        sender_attempt_no: 2,
        sender_lease_token: "sender".to_string(),
        processing: true,
        lease_owner: Some("o".to_string()),
        lease_token: Some("k".to_string()),
        lease_epoch: 1,
        lease_until: Some(40),
        reservation: columns(),
    }
}

#[test]
fn receiver_leases_are_renewed_while_they_hold() {
    assert!(holds_receiver_fence(&fence(), &lease(), 39));
    assert!(!holds_receiver_fence(&fence(), &lease(), 40));
    assert!(!holds_receiver_fence(&InboxFence { lease_epoch: 2, ..fence() }, &lease(), 39));
    assert_eq!(
        renew_receiver_lease(&Some(fence()), &lease(), 20, 100),
        Ok(LeaseRenewalOutcome::Applied { lease_until: 120 })
    );
    assert_eq!(renew_receiver_lease(&None, &lease(), 20, 100), Ok(LeaseRenewalOutcome::Stale));
    assert_eq!(renew_receiver_lease(&Some(fence()), &lease(), 20, 0), Err(Fault::InvalidReceiverRenewal));
    assert_eq!(
        renew_receiver_lease(&Some(fence()), &lease(), i64::MAX, 100),
        Err(Fault::ReceiverRenewalOverflow)
    );
}

fn origin() -> ArtifactOrigin {
    ArtifactOrigin {
        tenant_scope: "t".to_string(),
        dispatch_id: "d".to_string(),
        owner: "a".to_string(),
        task_revision: 4,
        now: 10,
    }
}

const LIMITS: ArtifactRuntimeLimits = ArtifactRuntimeLimits { max_artifact_bytes: 5, retention_millis: 90 };

#[test]
fn artifacts_are_named_by_their_content() {
    let prepared = prepare_artifact_bytes(b"hello".to_vec(), 3, &origin(), &LIMITS).unwrap();
    let content = text_digest("hello");
    let semantic = text_digest(&format!("d\x003\0{content}"));
    assert_eq!(prepared.content_digest, content);
    assert_eq!(prepared.artifact_id, format!("artifact-{}", &semantic[7..39]));
    assert_eq!(prepared.upload_id, format!("upload-{}", &semantic[39..71]));
    assert_eq!(prepared.reference_id, format!("reference-{}", &semantic[7..39]));
    assert_eq!(prepared.object_id, text_digest(&format!("t\0a\0confidential\0{content}")));
    assert_eq!(prepared.encryption_domain, "t/confidential");
    assert_eq!(prepared.retain_until, 100);
    assert_eq!(prepared.task_revision, 4);
}

#[test]
fn artifacts_are_bounded() {
    assert_eq!(
        prepare_artifact_bytes(b"hello!".to_vec(), 0, &origin(), &LIMITS).err(),
        Some(Fault::ArtifactPayloadTooLarge)
    );
    assert_eq!(
        prepare_artifact_bytes(Vec::new(), 0, &ArtifactOrigin { now: i64::MAX, ..origin() }, &LIMITS).err(),
        Some(Fault::ArtifactRetentionOverflow)
    );
    assert_eq!(
        prepare_artifact_bytes(Vec::new(), 0, &ArtifactOrigin { task_revision: -1, ..origin() }, &LIMITS).err(),
        Some(Fault::TaskRevisionCorrupt)
    );
}

#[test]
fn binary_artifacts_are_decoded() {
    let prepare = |payload: ArtifactPayload| prepare_receiver_artifact(&payload, 0, &origin(), &LIMITS);
    let binary = prepare(ArtifactPayload::Binary { encoded: "aGVsbG8=".to_string() }).unwrap().unwrap();
    assert_eq!(binary.bytes, b"hello");
    let plain = prepare(ArtifactPayload::Plain { content: "hello".to_string() }).unwrap().unwrap();
    assert_eq!(plain.bytes, binary.bytes);
    assert_eq!(plain.artifact_id, binary.artifact_id);
    assert!(prepare(ArtifactPayload::Published).unwrap().is_none());
    assert_eq!(
        prepare(ArtifactPayload::Binary { encoded: "!".to_string() }).err(),
        Some(Fault::ArtifactPayloadCorrupt)
    );
}

fn plain(content: &str) -> Option<ArtifactPayload> {
    Some(ArtifactPayload::Plain { content: content.to_string() })
}

#[test]
fn artifacts_are_known_by_their_event() {
    let events = vec![None, plain("a"), Some(ArtifactPayload::Published), plain("a")];
    let prepared = prepare_receiver_artifacts(true, &events, &origin(), &LIMITS).unwrap();
    assert_eq!(prepared.len(), 4);
    assert!(prepared[0].is_none() && prepared[2].is_none());
    let (first, second) = (prepared[1].as_ref().unwrap(), prepared[3].as_ref().unwrap());
    assert_eq!(first.object_id, second.object_id);
    let semantic = text_digest(&format!("d\x003\0{}", text_digest("a")));
    assert_eq!(second.artifact_id, format!("artifact-{}", &semantic[7..39]));
    assert_ne!(first.artifact_id, second.artifact_id);
    let bare = prepare_receiver_artifacts(false, &events, &origin(), &LIMITS).unwrap();
    assert!(bare.len() == 4 && bare.iter().all(|p| p.is_none()));
    let broken = vec![plain("a"), Some(ArtifactPayload::Binary { encoded: "!".to_string() }), plain("abcdef")];
    assert_eq!(
        prepare_receiver_artifacts(true, &broken, &origin(), &LIMITS).err(),
        Some(Fault::ArtifactPayloadCorrupt)
    );
    assert!(prepare_receiver_artifacts(false, &broken, &origin(), &LIMITS).is_ok());
}

#[test]
fn prepared_artifacts_are_published() {
    let prepared = prepare_artifact_bytes(b"hello".to_vec(), 0, &origin(), &LIMITS).unwrap();
    let a = stage_artifact(true, &prepared, &lease(), &origin(), Some(21)).unwrap();
    assert_eq!(a.plaintext_length, 5);
    assert_eq!(a.quota_binding_digest.as_deref(), Some("binding"));
    assert_eq!(complete(&["x"], &ReceiverTermination::Success, vec![a]), Ok(()));
    let short = stage_artifact(true, &prepared, &lease(), &origin(), Some(15)).unwrap();
    assert_eq!(complete(&["x"], &ReceiverTermination::Success, vec![short]), Err(Fault::ArtifactBindingStale));
    assert_eq!(
        stage_artifact(true, &prepared, &lease(), &origin(), None).err(),
        Some(Fault::ArtifactStagingFailed)
    );
    assert_eq!(
        stage_artifact(false, &prepared, &lease(), &origin(), Some(21)).err(),
        Some(Fault::ArtifactPublicationUnsupported)
    );
    let policy = default_artifact_policy();
    assert_eq!((policy.policy_id.as_str(), policy.policy_revision), ("artifact-default", 1));
    assert_eq!(policy.policy_digest, text_digest("smesh-artifact-default/v1"));
}

fn staged() -> StagedArtifact {
    StagedArtifact {
        tenant_scope: "t".to_string(),
        task_id: "task".to_string(),
        dispatch_id: "d".to_string(),
        receiver_lease_epoch: 1,
        receiver_lease_token: "k".to_string(),
        quota_binding_digest: Some("binding".to_string()),
        task_revision: 4,
        policy_revision: 4,
        created_at: 10,
        retain_until: 100,
        ciphertext_length: 21,
        owner_account_id: "a".to_string(),
        content_digest: "content".to_string(),
        classification: "confidential".to_string(),
        encryption_domain: "t/confidential".to_string(),
        plaintext_length: 5,
        owned_by_orphan_cleanup: false,
        stored_owner: "a".to_string(),
        stored_content_digest: "content".to_string(),
        stored_classification: "confidential".to_string(),
        stored_encryption_domain: "t/confidential".to_string(),
        stored_plaintext_length: 5,
    }
}

fn complete(parts: &[&str], termination: &ReceiverTermination, staged: Vec<StagedArtifact>) -> Result<(), Fault> {
    let encoded: Vec<String> = parts.iter().map(|p| p.to_string()).collect();
    complete_receiver(&lease(), &encoded, termination, true, &Some(fence()), false, false, &staged, 20).map(|_| ())
}

#[test]
fn completed_dispatches_replay() {
    let encoded = vec!["{}".to_string(), "[1]".to_string()];
    let done = complete_receiver(
        &lease(),
        &encoded,
        &ReceiverTermination::Success,
        true,
        &Some(fence()),
        false,
        false,
        &vec![staged()],
        20,
    )
    .unwrap();
    assert_eq!(done.kind, "success");
    assert_eq!(done.frame_count, 2);
    assert_eq!(done.transcript_digest, text_digest("[{},[1]]"));
    assert_eq!(done.measured_output_bytes, 5);
    assert_eq!(done.measured_event_count, 2);
    let mut row = inbox(ReceiverState::Completed, None);
    row.completion_kind = Some(done.kind);
    row.frame_count = Some(done.frame_count);
    row.transcript_digest = Some(done.transcript_digest);
    row.measured_output_bytes = Some(done.measured_output_bytes);
    row.measured_event_count = Some(done.measured_event_count);
    row.events = encoded
        .iter()
        .enumerate()
        .map(|(i, e)| StoredEvent {
            seq: i as i64 + 1,
            version: 1,
            kind: "mesh_event".to_string(),
            encoded: e.clone(),
            digest: done.frame_digests[i].clone(),
            canonical: Some(e.clone()),
        })
        .collect();
    row.lease_epoch = i64::MAX;
    match begin_receive(&envelope(), &receiving(), &Some(sender()), &Some(row)).unwrap() {
        ReceiverAdmission::Replay { events, termination } => {
            assert_eq!(events, encoded);
            assert!(matches!(termination, ReceiverTermination::Success));
        }
        _ => panic!("it was completed"),
    }
}

#[test]
fn corrupt_completions_are_not_replayed() {
    let row = || {
        let mut row = inbox(ReceiverState::Completed, None);
        row.completion_kind = Some("success".to_string());
        row.frame_count = Some(0);
        row.transcript_digest = Some(text_digest("[]"));
        row.measured_output_bytes = Some(0);
        row.measured_event_count = Some(0);
        row
    };
    let replay = |change: fn(&mut InboxRow)| {
        let mut r = row();
        change(&mut r);
        begin_receive(&envelope(), &receiving(), &Some(sender()), &Some(r)).err()
    };
    assert_eq!(replay(|_| ()), None);
    assert_eq!(replay(|r| r.frame_count = Some(1)), Some(Fault::ReceiverReplayCorrupt));
    assert_eq!(replay(|r| r.transcript_digest = None), Some(Fault::ReceiverReplayCorrupt));
    assert_eq!(replay(|r| r.measured_output_bytes = Some(1)), Some(Fault::ReceiverMeasurementCorrupt));
    assert_eq!(replay(|r| r.completion_kind = None), Some(Fault::ReceiverTerminationCorrupt));
    let unreadable = |r: &mut InboxRow| {
        r.events = vec![StoredEvent {
            seq: 1,
            version: 1,
            kind: "mesh_event".to_string(),
            encoded: "{}".to_string(),
            digest: text_digest("{}"),
            canonical: None,
        }]
    };
    assert_eq!(replay(unreadable), Some(Fault::ReceiverFrameCorrupt));
}

#[test]
fn completions_stay_within_their_budget() {
    let success = ReceiverTermination::Success;
    assert_eq!(complete(&["{}"], &success, Vec::new()), Ok(()));
    assert_eq!(complete(&["12345678901"], &success, Vec::new()), Err(Fault::ReceiverBudgetExceeded));
    assert_eq!(complete(&["1", "2", "3"], &success, Vec::new()), Err(Fault::ReceiverBudgetExceeded));
    assert_eq!(complete(&["1"; 1_025], &success, Vec::new()), Err(Fault::ReceiverTranscriptTooLong));
    let silent = ReceiverTermination::AuthRequired { message: String::new() };
    assert_eq!(complete(&["1"], &silent, Vec::new()), Err(Fault::InvalidReceiverTermination));
}

#[test]
fn completions_are_fenced() {
    let encoded = vec!["{}".to_string()];
    let stale = |fence: &Option<InboxFence>, requested, canceled| {
        complete_receiver(
            &lease(),
            &encoded,
            &ReceiverTermination::Success,
            true,
            fence,
            requested,
            canceled,
            &Vec::new(),
            20,
        )
        .err()
    };
    assert_eq!(stale(&Some(fence()), true, true), None);
    assert_eq!(stale(&None, false, false), Some(Fault::ReceiverLeaseStale));
    assert_eq!(stale(&Some(fence()), true, false), Some(Fault::ReceiverLeaseStale));
    let mut bare = lease();
    bare.execution_reservation = None;
    assert_eq!(
        complete_receiver(
            &bare,
            &encoded,
            &ReceiverTermination::Success,
            true,
            &Some(fence()),
            false,
            false,
            &Vec::new(),
            20
        )
        .err(),
        Some(Fault::ReceiverLeaseUnreserved)
    );
}

#[test]
fn staged_artifacts_belong_to_their_lease() {
    let refused = |change: fn(&mut StagedArtifact)| {
        let mut a = staged();
        change(&mut a);
        complete(&["{}"], &ReceiverTermination::Success, vec![a]).err()
    };
    assert_eq!(refused(|_| ()), None);
    assert_eq!(refused(|a| a.receiver_lease_epoch = 2), Some(Fault::ArtifactBindingStale));
    assert_eq!(refused(|a| a.ciphertext_length = 15), Some(Fault::ArtifactBindingStale));
    assert_eq!(refused(|a| a.owned_by_orphan_cleanup = true), Some(Fault::ArtifactStageOrphaned));
    assert_eq!(refused(|a| a.stored_plaintext_length = 6), Some(Fault::ArtifactRegistrationConflict));
}
