//! Published artifacts, their workers, and the audit of decisions.

use smesh_authority::admission::{AuthorizationAudit, OwnedTaskScope};
use smesh_authority::artifacts::{
    acquire_artifact_backup_lease, artifact_capabilities, begin_artifact_resolution, check_deletion_receipt,
    claim_artifact_gc, claim_artifact_promotion, claim_orphan, commit_artifact_gc,
    commit_artifact_promotion, gc_claims, grant_backup_lease, lease_names, order_orphan_candidates,
    orphans_to_enumerate, place_artifact_hold, promotion_claims, read_artifact_resolution, recovered_candidates,
    register_artifact, renew_artifact_backup_lease, resolution_audit, resolution_egress, resolve_artifact,
    scan_artifact_stage_orphans, GcRow, GcStep, OrphanCandidate, OrphanEvent, OrphanRun, OrphanStage,
    PromotionRow, RecoveredRow, RegistrationEffects, ResolutionRead, ResolutionRow, ResolutionStep,
    StageOrphanCleanup,
};
use smesh_authority::audit::{
    atomic_record_counts, audit_projection_capabilities, authorization_resource_digest, checked_count,
    claim_audit_projection, cleanup_audit_projection, cleanup_authorization_decisions, cleanup_with_route, diagnostic_count,
    fail_audit_projection, gc_quota_authority, insert_audit_parts, quota_denial_count, quota_gc_report,
    quota_used_units, read_projection_row, retained_authority_bytes, retention_report, AtomicRecordCounts,
    AuditProjectionState, ProjectionRow, RetentionCleanup, RetentionRow,
};
use smesh_authority::crypto::{content_digest, text_digest};
use smesh_authority::fault::Fault;
use smesh_authority::receiver::StagedArtifact;
use smesh_authority::store_config::{PostgresStoreConfig, PostgresStoreError};

fn staged() -> StagedArtifact {
    StagedArtifact {
        tenant_scope: "t".to_string(),
        task_id: "task".to_string(),
        dispatch_id: "d".to_string(),
        receiver_lease_epoch: 1,
        receiver_lease_token: "k".to_string(),
        quota_binding_digest: None,
        task_revision: 4,
        policy_revision: 4,
        created_at: 10,
        retain_until: 100,
        ciphertext_length: 16,
        owner_account_id: "a".to_string(),
        content_digest: "content".to_string(),
        classification: "confidential".to_string(),
        encryption_domain: "t/confidential".to_string(),
        plaintext_length: 0,
        owned_by_orphan_cleanup: false,
        stored_owner: "a".to_string(),
        stored_content_digest: "content".to_string(),
        stored_classification: "confidential".to_string(),
        stored_encryption_domain: "t/confidential".to_string(),
        stored_plaintext_length: 0,
    }
}

#[test]
fn artifacts_are_registered_once() {
    assert!(artifact_capabilities(true).resolution);
    assert!(!artifact_capabilities(false).publication);
    assert_eq!(
        register_artifact(true, &staged(), true, false),
        Ok(RegistrationEffects { counts_reference: false, records_upload: true })
    );
    let refused = |change: fn(&mut StagedArtifact)| {
        let mut a = staged();
        change(&mut a);
        register_artifact(true, &a, true, true).err()
    };
    assert_eq!(register_artifact(false, &staged(), true, true), Err(Fault::ArtifactPublicationUnsupported));
    assert_eq!(refused(|a| a.owned_by_orphan_cleanup = true), Some(Fault::ArtifactStageOrphaned));
    assert_eq!(refused(|a| a.task_revision = 0), Some(Fault::InvalidArtifactRegistration));
    assert_eq!(refused(|a| a.retain_until = 9), Some(Fault::InvalidArtifactRegistration));
    assert_eq!(refused(|a| a.stored_owner = "b".to_string()), Some(Fault::ArtifactRegistrationConflict));
}

fn promotion() -> PromotionRow {
    PromotionRow {
        tenant_scope: "t".to_string(),
        upload_id: "u".to_string(),
        artifact_id: "a".to_string(),
        object_id: "o".to_string(),
        stage_locator: "stage".to_string(),
        final_locator: "final".to_string(),
        ciphertext_digest: "c".to_string(),
        ciphertext_length: 16,
        lease_token: "k".to_string(),
        lease_epoch: 2,
        lease_until: 40,
    }
}

#[test]
fn promotions_are_claimed_in_batches() {
    assert_eq!(claim_artifact_promotion(true, "w", 10, 1), Ok(1));
    assert_eq!(claim_artifact_promotion(false, "w", 10, 1), Err(Fault::ArtifactPromotionUnsupported));
    for (owner, duration, batch) in [("", 10, 1), ("w", 9, 1), ("w", 300_001, 1), ("w", 10, 0), ("w", 10, 1_001)] {
        assert_eq!(
            claim_artifact_promotion(true, owner, duration, batch),
            Err(Fault::InvalidArtifactPromotionLease)
        );
    }
    let claims = promotion_claims(&vec![promotion()], "w").unwrap();
    assert_eq!(claims[0].lease_owner, "w");
    assert_eq!(claims[0].lease_epoch, 2);
    let mut corrupt = promotion();
    corrupt.lease_epoch = -1;
    assert_eq!(promotion_claims(&vec![promotion(), corrupt], "w").err(), Some(Fault::ArtifactPromotionCorrupt));
    assert_eq!(commit_artifact_promotion(true, true, 1), Ok(true));
    assert_eq!(commit_artifact_promotion(true, true, 0), Ok(false));
    assert_eq!(commit_artifact_promotion(true, false, 0), Err(Fault::ArtifactPromotionIntegrityFailed));
    assert_eq!(commit_artifact_promotion(false, true, 1), Err(Fault::ArtifactPromotionUnsupported));
}

#[test]
fn collection_leaves_a_tombstone() {
    assert_eq!(claim_artifact_gc(true, "w", 10, 1), Ok(1));
    assert_eq!(claim_artifact_gc(true, "w", 10, 0), Err(Fault::InvalidArtifactGcLease));
    let row = |generation| GcRow {
        tenant_scope: "t".to_string(),
        job_id: "j".to_string(),
        object_id: "o".to_string(),
        backend_locator: "locator".to_string(),
        tombstone_generation: generation,
        lease_token: "k".to_string(),
        lease_epoch: 2,
    };
    assert_eq!(gc_claims(&vec![row(3)], "w").unwrap()[0].tombstone_generation, 3);
    assert_eq!(gc_claims(&vec![row(-1)], "w").err(), Some(Fault::ArtifactGcCorrupt));
    assert_eq!(check_deletion_receipt(true, "sha256:00"), Ok(()));
    assert_eq!(check_deletion_receipt(true, "00"), Err(Fault::InvalidDeletionReceipt));
    assert_eq!(check_deletion_receipt(false, "sha256:00"), Err(Fault::ArtifactGcUnsupported));
    match commit_artifact_gc(1, 1, "locator", "sha256:00").unwrap() {
        GcStep::Record(tombstone) => {
            assert_eq!(tombstone.reason_digest, text_digest("retention-expired"));
            assert_eq!(tombstone.locator_digest, text_digest("locator"));
            assert_eq!(tombstone.deletion_receipt_digest, "sha256:00");
        }
        GcStep::Lost => panic!("the job was held"),
    }
    assert!(matches!(commit_artifact_gc(0, 1, "locator", "sha256:00"), Ok(GcStep::Lost)));
    assert_eq!(commit_artifact_gc(1, 0, "locator", "sha256:00").err(), Some(Fault::ArtifactGcFenceLost));
}

fn scope() -> OwnedTaskScope {
    OwnedTaskScope { tenant_scope: "t".to_string(), owner_account_id: "a".to_string(), own_only: true }
}

fn audit() -> AuthorizationAudit {
    AuthorizationAudit {
        tenant_scope: "t".to_string(),
        actor_account_id: "a".to_string(),
        allow: true,
        decision_id: "decision".to_string(),
    }
}

fn resolution() -> ResolutionRow {
    ResolutionRow {
        owner_account_id: "a".to_string(),
        task_id: "task".to_string(),
        media_type: "text/plain".to_string(),
        content_digest: "content".to_string(),
        manifest_digest: "manifest".to_string(),
        plaintext_length: 5,
        classification: "confidential".to_string(),
        encryption_domain: "t/confidential".to_string(),
        ciphertext_digest: "c".to_string(),
        ciphertext_length: 21,
        backend_locator: "locator".to_string(),
        nonce: vec![0; 12],
        key_generation: "1".to_string(),
        canonical_manifest_json: "{}".to_string(),
        state: "available".to_string(),
    }
}

#[test]
fn resolutions_are_authorized() {
    let check = |store, duration, enforced| {
        begin_artifact_resolution(store, duration, &audit(), &scope(), enforced, &None)
    };
    assert_eq!(check(true, 10, false), Ok(()));
    assert_eq!(check(false, 10, false), Err(Fault::ArtifactResolutionUnsupported));
    assert_eq!(check(true, 9, false), Err(Fault::InvalidArtifactReadPreflight));
    assert_eq!(check(true, 10, true), Err(Fault::QuotaAuthorityUnavailable));
    assert_eq!(resolution_audit(&None), (false, "not_found_or_forbidden"));
    assert_eq!(resolution_audit(&Some(resolution())), (true, "authorized_task_reference"));
}

#[test]
fn resolved_artifacts_are_leased() {
    let names = || lease_names("t", "artifact", b"id", b"token");
    assert_eq!(names().lease_id, content_digest(b"id"));
    assert_eq!(names().lease_token, content_digest(b"token"));
    match resolve_artifact(&Some(resolution()), names(), 10, 30).unwrap() {
        ResolutionStep::Granted(lease) => {
            assert_eq!(lease.lease_until, 40);
            assert_eq!(lease.lease_epoch, 1);
            assert_eq!(lease.plaintext_length, 5);
            assert_eq!(lease.artifact_id, "artifact");
        }
        ResolutionStep::Absent => panic!("it was found"),
    }
    assert!(matches!(resolve_artifact(&None, names(), 10, 30), Ok(ResolutionStep::Absent)));
    assert_eq!(resolution_egress(&resolution()), Ok(5));
    assert_eq!(resolution_egress(&ResolutionRow { plaintext_length: 0, ..resolution() }), Ok(1));
    let refused = |row: ResolutionRow, now| resolve_artifact(&Some(row), names(), now, 30).err();
    assert_eq!(
        refused(ResolutionRow { plaintext_length: -1, ..resolution() }, 10),
        Some(Fault::ArtifactMetadataCorrupt)
    );
    assert_eq!(
        refused(ResolutionRow { nonce: vec![0; 11], ..resolution() }, 10),
        Some(Fault::ArtifactMetadataCorrupt)
    );
    assert_eq!(refused(resolution(), i64::MAX), Some(Fault::ArtifactLeaseOverflow));
}

#[test]
fn quarantined_artifacts_are_not_leased() {
    let row = ResolutionRow { state: "quarantined".to_string(), ..resolution() };
    assert_eq!(resolution_audit(&Some(ResolutionRow { state: "quarantined".to_string(), ..resolution() })).0, false);
    assert_eq!(
        resolve_artifact(&Some(row), lease_names("t", "artifact", b"id", b"token"), 10, 30).err(),
        Some(Fault::ArtifactQuarantined)
    );
}

#[test]
fn corrupt_content_is_quarantined() {
    assert!(matches!(
        read_artifact_resolution(true, "t", "artifact", "c", Some(b"hello".to_vec())),
        Ok(ResolutionRead::Content(bytes)) if bytes == b"hello"
    ));
    match read_artifact_resolution(true, "t", "artifact", "c", None).unwrap() {
        ResolutionRead::Quarantine(found, fault) => {
            assert_eq!(fault, Fault::ArtifactIntegrityFailed);
            assert_eq!(found.detection_digest, text_digest("smesh-artifact-corruption/v1\0t\0artifact\0c"));
            assert_eq!(found.audit_id, format!("corruption-{}", &found.detection_digest[7..39]));
        }
        ResolutionRead::Content(_) => panic!("nothing was read"),
    }
    assert_eq!(
        read_artifact_resolution(false, "t", "artifact", "c", None).err(),
        Some(Fault::ArtifactResolutionUnsupported)
    );
}

#[test]
fn holds_and_backups_are_leased() {
    assert_eq!(place_artifact_hold(true), Ok(()));
    assert_eq!(place_artifact_hold(false), Err(Fault::ArtifactHoldUnavailable));
    assert_eq!(acquire_artifact_backup_lease(true, "t", "o", "w", 86_400_000), Ok(()));
    assert_eq!(
        acquire_artifact_backup_lease(true, "t", "", "w", 10),
        Err(Fault::InvalidArtifactBackupLease)
    );
    assert_eq!(
        grant_backup_lease("t", "o", "w", b"id", b"token", None).err(),
        Some(Fault::ArtifactBackupUnavailable)
    );
    let lease = || grant_backup_lease("t", "o", "w", b"id", b"token", Some(40)).unwrap();
    assert_eq!(lease().lease_id, format!("backup-{}", content_digest(b"id")));
    assert_eq!(lease().lease_until, 40);
    let next = renew_artifact_backup_lease(lease(), 10, b"next", Some((2, 50))).unwrap().unwrap();
    assert_eq!(next.lease_epoch, 2);
    assert_eq!(next.lease_until, 50);
    assert_eq!(next.lease_token, content_digest(b"next"));
    assert_eq!(next.lease_id, lease().lease_id);
    assert!(renew_artifact_backup_lease(lease(), 10, b"next", None).unwrap().is_none());
    assert_eq!(
        renew_artifact_backup_lease(lease(), 9, b"next", None).err(),
        Some(Fault::InvalidArtifactBackupRenewal)
    );
    assert_eq!(
        renew_artifact_backup_lease(lease(), 10, b"next", Some((-1, 50))).err(),
        Some(Fault::ArtifactBackupLeaseCorrupt)
    );
}

fn candidate(locator: &str, bytes: u64) -> OrphanCandidate {
    OrphanCandidate { locator: locator.to_string(), bytes }
}

#[test]
fn orphans_are_scanned_in_order() {
    assert_eq!(scan_artifact_stage_orphans(true, 100, 5, 150), Ok(50));
    assert_eq!(scan_artifact_stage_orphans(true, 100, 5, 50), Ok(0));
    assert_eq!(scan_artifact_stage_orphans(true, 0, 5, 150), Err(Fault::InvalidArtifactOrphanScan));
    assert_eq!(scan_artifact_stage_orphans(false, 100, 5, 150), Err(Fault::ArtifactOrphanScanUnsupported));
    let ordered = order_orphan_candidates(&vec![
        candidate("b", 1),
        candidate("ab", 2),
        candidate("b", 3),
        candidate("a", 4),
    ]);
    let seen: Vec<(&str, u64)> = ordered.iter().map(|c| (c.locator.as_str(), c.bytes)).collect();
    assert_eq!(seen, vec![("a", 4), ("ab", 2), ("b", 1)]);
    let recovered = recovered_candidates(&vec![
        RecoveredRow { locator: "x".to_string(), ciphertext_length: 7 },
        RecoveredRow { locator: "y".to_string(), ciphertext_length: -1 },
    ]);
    assert_eq!(recovered.len(), 1);
    assert_eq!(recovered[0].bytes, 7);
    assert_eq!(orphans_to_enumerate(5, 2), Some(3));
    assert_eq!(orphans_to_enumerate(5, 5), None);
    let claim = claim_orphan(&candidate("x", u64::MAX), b"r");
    assert_eq!(claim.locator_digest, text_digest("x"));
    assert_eq!(claim.ciphertext_length, i64::MAX);
    assert_eq!(claim.claim_token, content_digest(b"r"));
}

fn cleaned(events: &[OrphanEvent]) -> OrphanRun {
    let mut run = OrphanRun::start(StageOrphanCleanup { deleted: 1, refunded_bytes: 10 });
    for event in events {
        run = run.advance(*event);
    }
    run
}

#[test]
fn files_are_refunded_once() {
    let path = |inserted, rows| {
        cleaned(&[
            OrphanEvent::Fenced { live: false },
            OrphanEvent::Claimed { won: true },
            OrphanEvent::Deleted,
            OrphanEvent::Owned { durable_bytes: Some(5) },
            OrphanEvent::Audited { inserted },
            OrphanEvent::Finalized { rows },
        ])
    };
    assert_eq!(path(true, 1).outcome(), Ok(StageOrphanCleanup { deleted: 2, refunded_bytes: 15 }));
    assert_eq!(path(false, 1).outcome(), Ok(StageOrphanCleanup { deleted: 1, refunded_bytes: 10 }));
    assert_eq!(path(true, 0).outcome(), Err(Fault::ArtifactOrphanOwnershipLost));
    let done = path(true, 1);
    assert_eq!(done.advance(OrphanEvent::Finalized { rows: 1 }), done);
}

#[test]
fn files_in_use_are_skipped() {
    assert_eq!(cleaned(&[OrphanEvent::Fenced { live: true }]).stage, OrphanStage::Skipped);
    let lost = cleaned(&[OrphanEvent::Fenced { live: false }, OrphanEvent::Claimed { won: false }]);
    assert_eq!(lost.stage, OrphanStage::Skipped);
    assert_eq!(lost.outcome(), Ok(StageOrphanCleanup { deleted: 1, refunded_bytes: 10 }));
}

#[test]
fn decisions_are_audited() {
    assert_eq!(insert_audit_parts(true, 4), Ok(("allow", 4)));
    assert_eq!(insert_audit_parts(false, 4), Ok(("deny", 4)));
    assert_eq!(insert_audit_parts(true, u64::MAX), Err(Fault::PolicyRevisionTooLarge));
    assert_eq!(authorization_resource_digest(&[7; 32], "r"), "sha256:98dc57864ef186a3d6aa8049a6c5bdc2fb1396281113385617d260fd8612e4b7");
}

#[test]
fn decisions_are_projected_in_batches() {
    assert_eq!(claim_audit_projection(true, true, 1, 1_000), Ok(1_000));
    assert_eq!(claim_audit_projection(false, true, 1, 1), Err(Fault::InvalidAuditProjectionClaim));
    assert_eq!(claim_audit_projection(true, true, 300_001, 1), Err(Fault::InvalidAuditProjectionClaim));
    let row = |source_known, kind_known| ProjectionRow {
        tenant: "t".to_string(),
        source_known,
        kind_known,
        lease_epoch: -1,
        attempts: 3,
    };
    let claim = read_projection_row(&row(true, true)).unwrap();
    assert_eq!(claim.tenant_digest, text_digest("t"));
    assert_eq!((claim.lease_epoch, claim.attempts), (0, 3));
    assert_eq!(read_projection_row(&row(false, false)).err(), Some(Fault::InvalidProjectionSource));
    assert_eq!(read_projection_row(&row(true, false)).err(), Some(Fault::InvalidProjectionKind));
    assert!(audit_projection_capabilities(false).starts_at_enable);
    assert_eq!(fail_audit_projection("pending"), AuditProjectionState::Pending);
    assert_eq!(fail_audit_projection("dead"), AuditProjectionState::Dead);
    assert_eq!(fail_audit_projection("leased"), AuditProjectionState::Leased);
    assert_eq!(cleanup_audit_projection(1_000), Ok(1_000));
    assert_eq!(cleanup_audit_projection(1_001), Err(Fault::InvalidAuditProjectionCleanup));
}

#[test]
fn old_decisions_are_cleaned_up() {
    let cleanup = |plaintext| Ok(RetentionCleanup { plaintext, limit: 1 });
    assert_eq!(cleanup_with_route(true, 0, 1, Ok(false)), cleanup(false));
    assert_eq!(cleanup_with_route(true, 0, 1, Ok(true)), cleanup(true));
    assert_eq!(
        cleanup_with_route(true, 0, 1, Err(PostgresStoreError::TlsRequired)),
        Err(Fault::AuthorizationRetentionConfigInvalid)
    );
    let config = |sslmode: &str| {
        let url = |user: &str| format!("postgres://{user}@db.example/db?sslmode={sslmode}");
        PostgresStoreConfig::new(url("migrator"), url("runtime"), "s".to_string()).unwrap()
    };
    assert_eq!(cleanup_authorization_decisions(&config("require"), true, 0, 1), cleanup(false));
    assert_eq!(
        cleanup_authorization_decisions(&config("verify-full"), true, 0, 1),
        Err(Fault::AuthorizationRetentionConfigInvalid)
    );
    let refused = Err(Fault::InvalidAuthorizationRetention);
    assert_eq!(cleanup_authorization_decisions(&config("verify-full"), true, -1, 1), refused);
    assert_eq!(cleanup_authorization_decisions(&config("require"), false, 0, 1), refused);
    let report = retention_report(&RetentionRow {
        deleted: 3,
        projection_blocked: -1,
        has_more: true,
        oldest_remaining: Some(8),
        cutoff: 9,
    });
    assert_eq!((report.deleted, report.projection_blocked), (3, 0));
    assert_eq!(report.oldest_remaining, Some(8));
}

#[test]
fn counts_are_never_negative() {
    assert_eq!(diagnostic_count(-3), 0);
    assert_eq!(checked_count(-1, Fault::QuotaGcCorrupt), Err(Fault::QuotaGcCorrupt));
    assert_eq!(retained_authority_bytes(3, 2), Ok((3, 2)));
    assert_eq!(retained_authority_bytes(-1, 2), Err(Fault::RetainedTenantCorrupt));
    assert_eq!(retained_authority_bytes(3, -1), Err(Fault::RetainedPrincipalCorrupt));
    assert_eq!(gc_quota_authority(1_000), Ok(1_000));
    assert_eq!(gc_quota_authority(0), Err(Fault::QuotaGcBatch));
    assert_eq!(quota_gc_report(-1), Err(Fault::QuotaGcCorrupt));
    assert_eq!(quota_used_units(-1), Err(Fault::QuotaDiagnosticsCorrupt));
    assert_eq!(quota_denial_count(-1), Err(Fault::QuotaDenialDiagnosticsCorrupt));
    assert_eq!(
        atomic_record_counts(1, 2, -3, 4),
        AtomicRecordCounts { tasks: 1, events: 2, idempotency_records: 0, outbox: 4 }
    );
}
