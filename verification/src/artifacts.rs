//! Artifacts: registration, promotion, resolution, retention, backup and the
//! cleanup of staged files that nobody registered.

use vstd::prelude::*;

use crate::admission;
use crate::admission::{AuthorizationAudit, OwnedTaskScope};
use crate::crypto;
use crate::fault::Fault;
use crate::quota;
use crate::quota::{QuotaIntent, QuotaOperation};
use crate::receiver;
use crate::receiver::StagedArtifact;
use crate::text;

verus! {

/// Which artifact operations a store offers: all of them or none.
#[derive(Clone, Copy, Debug, PartialEq, Eq, Structural)]
pub struct ArtifactCapabilities {
    pub publication: bool,
    pub promotion: bool,
    pub resolution: bool,
    pub retention_gc: bool,
}

/// Which artifact operations a store offers.
pub fn artifact_capabilities(has_store: bool) -> (r: ArtifactCapabilities)
    ensures
        r == (ArtifactCapabilities {
            publication: has_store,
            promotion: has_store,
            resolution: has_store,
            retention_gc: has_store,
        }),
{
    ArtifactCapabilities {
        publication: has_store,
        promotion: has_store,
        resolution: has_store,
        retention_gc: has_store,
    }
}

/// What a registration writes beside its object and manifest.
#[derive(Clone, Copy, Debug, PartialEq, Eq, Structural)]
pub struct RegistrationEffects {
    pub counts_reference: bool,
    pub records_upload: bool,
}

/// Why an artifact cannot be registered.
pub open spec fn registration_fault(has_store: bool, a: StagedArtifact) -> Option<Fault> {
    if !has_store {
        Some(Fault::ArtifactPublicationUnsupported)
    } else if a.owned_by_orphan_cleanup {
        Some(Fault::ArtifactStageOrphaned)
    } else if a.task_revision == 0 || a.policy_revision == 0 || a.created_at > a.retain_until || a.ciphertext_length
        < 16 {
        Some(Fault::InvalidArtifactRegistration)
    } else if a.stored_owner@ != a.owner_account_id@ || a.stored_content_digest@ != a.content_digest@
        || a.stored_classification@ != a.classification@ || a.stored_encryption_domain@ != a.encryption_domain@
        || a.stored_plaintext_length != quota::clamp_i64(a.plaintext_length) {
        Some(Fault::ArtifactRegistrationConflict)
    } else {
        None
    }
}

/// An artifact is registered exactly where there is a store, the staged file is not orphaned,
/// its task and its policy have a revision, it is kept for some time, it holds at least its
/// seal, and the object on record holds the same content for the same owner.
pub proof fn law_registered_artifacts_are_their_objects(has_store: bool, a: StagedArtifact)
    ensures
        !has_store ==> registration_fault(has_store, a) == Some(Fault::ArtifactPublicationUnsupported),
        has_store && a.owned_by_orphan_cleanup ==> registration_fault(has_store, a) == Some(
            Fault::ArtifactStageOrphaned,
        ),
        has_store && !a.owned_by_orphan_cleanup && (a.task_revision == 0 || a.policy_revision == 0
            || a.ciphertext_length < 16 || a.retain_until < a.created_at) ==> registration_fault(has_store, a) == Some(
            Fault::InvalidArtifactRegistration,
        ),
        registration_fault(has_store, a) is None ==> {
            &&& has_store
            &&& !a.owned_by_orphan_cleanup
            &&& a.task_revision > 0
            &&& a.policy_revision > 0
            &&& a.created_at <= a.retain_until
            &&& a.ciphertext_length >= 16
            &&& a.stored_owner@ == a.owner_account_id@
            &&& a.stored_content_digest@ == a.content_digest@
            &&& a.stored_classification@ == a.classification@
            &&& a.stored_encryption_domain@ == a.encryption_domain@
        },
        has_store && !a.owned_by_orphan_cleanup && a.task_revision > 0 && a.policy_revision > 0 && a.created_at
            <= a.retain_until && a.ciphertext_length >= 16 && a.stored_owner@ == a.owner_account_id@
            && a.stored_content_digest@ == a.content_digest@ && a.stored_classification@ == a.classification@
            && a.stored_encryption_domain@ == a.encryption_domain@ && a.stored_plaintext_length == a.plaintext_length
            ==> registration_fault(has_store, a) is None,
        has_store && !a.owned_by_orphan_cleanup && a.task_revision > 0 && a.policy_revision > 0 && a.created_at
            <= a.retain_until && a.ciphertext_length >= 16 && (a.stored_owner@ != a.owner_account_id@
            || a.stored_content_digest@ != a.content_digest@ || a.plaintext_length <= i64::MAX
            && a.stored_plaintext_length != a.plaintext_length) ==> registration_fault(has_store, a) == Some(
            Fault::ArtifactRegistrationConflict,
        ),
{
}

/// Decides what a registration writes. An object that is there already is shared
/// where it is the same in every part, and never changed.
pub fn register_artifact(has_store: bool, a: &StagedArtifact, object_inserted: bool, reference_inserted: bool) -> (r:
    Result<RegistrationEffects, Fault>)
    ensures
        match r {
            Err(e) => registration_fault(has_store, *a) == Some(e),
            Ok(effects) => registration_fault(has_store, *a) is None && effects == (RegistrationEffects {
                counts_reference: reference_inserted,
                records_upload: object_inserted,
            }),
        },
{
    if !has_store {
        return Err(Fault::ArtifactPublicationUnsupported);
    }
    if a.owned_by_orphan_cleanup {
        return Err(Fault::ArtifactStageOrphaned);
    }
    if a.task_revision == 0 || a.policy_revision == 0 || a.created_at > a.retain_until || a.ciphertext_length < 16 {
        return Err(Fault::InvalidArtifactRegistration);
    }
    if a.stored_owner != a.owner_account_id || a.stored_content_digest != a.content_digest || a.stored_classification
        != a.classification || a.stored_encryption_domain != a.encryption_domain || a.stored_plaintext_length
        != admission::clamp_stored(a.plaintext_length) {
        return Err(Fault::ArtifactRegistrationConflict);
    }
    Ok(RegistrationEffects { counts_reference: reference_inserted, records_upload: object_inserted })
}

/// What a receiver publishes could be registered by itself.
pub proof fn law_published_artifacts_are_registrable(a: StagedArtifact, lease: receiver::ReceiverLease)
    requires
        receiver::staged_fault(a, lease) is None,
    ensures
        registration_fault(true, a) is None,
{
}

/// Whether a worker's claim is well formed: it is named, lasts a while, and takes a
/// bounded batch.
pub open spec fn worker_claim_valid(owner: Seq<char>, duration: i64, batch: usize) -> bool {
    owner.len() > 0 && 10 <= duration <= 300_000 && 1 <= batch <= 1000
}

/// Claims are refused below ten milliseconds and above five minutes, for no owner, for no file
/// and for more than a thousand, and accepted at every bound.
pub proof fn law_worker_claims_are_bounded(owner: Seq<char>, duration: i64, batch: usize)
    ensures
        worker_claim_valid(owner, duration, batch) ==> owner.len() >= 1 && duration >= 10 && duration <= 300_000
            && batch >= 1 && batch <= 1000,
        owner.len() >= 1 ==> worker_claim_valid(owner, 10, 1) && worker_claim_valid(owner, 300_000, 1000),
        worker_claim_valid(owner, duration, batch) && duration < 300_000 ==> worker_claim_valid(
            owner,
            (duration + 1) as i64,
            batch,
        ),
        worker_claim_valid(owner, duration, batch) && batch < 1000 ==> worker_claim_valid(
            owner,
            duration,
            (batch + 1) as usize,
        ),
{
}

/// Whether uploads may be claimed for promotion.
pub fn claim_artifact_promotion(has_store: bool, owner: &str, duration: i64, batch: usize) -> (r: Result<i32, Fault>)
    ensures
        r == (if !has_store {
            Err::<i32, Fault>(Fault::ArtifactPromotionUnsupported)
        } else if !worker_claim_valid(owner@, duration, batch) {
            Err(Fault::InvalidArtifactPromotionLease)
        } else {
            Ok(batch as i32)
        }),
{
    if !has_store {
        return Err(Fault::ArtifactPromotionUnsupported);
    }
    if owner.is_empty() || duration < 10 || duration > 300_000 || batch < 1 || batch > 1000 {
        return Err(Fault::InvalidArtifactPromotionLease);
    }
    Ok(batch as i32)
}

/// A claimed upload as the store returns it.
pub struct PromotionRow {
    pub tenant_scope: String,
    pub upload_id: String,
    pub artifact_id: String,
    pub object_id: String,
    pub stage_locator: String,
    pub final_locator: String,
    pub ciphertext_digest: String,
    pub ciphertext_length: i64,
    pub lease_token: String,
    pub lease_epoch: i64,
    pub lease_until: i64,
}

/// An upload that a worker may promote.
pub struct ArtifactPromotionClaim {
    pub tenant_scope: String,
    pub upload_id: String,
    pub artifact_id: String,
    pub object_id: String,
    pub stage_locator: String,
    pub final_locator: String,
    pub ciphertext_digest: String,
    pub ciphertext_length: u64,
    pub lease_owner: String,
    pub lease_token: String,
    pub lease_epoch: u64,
    pub lease_until: i64,
}

/// Whether the numbers of a claimed upload can be read.
pub open spec fn promotion_sound(row: PromotionRow) -> bool {
    row.ciphertext_length >= 0 && row.lease_epoch >= 0
}

/// Whether a claim is that of a row, for an owner.
pub open spec fn promotes(c: ArtifactPromotionClaim, row: PromotionRow, owner: Seq<char>) -> bool {
    &&& c.tenant_scope@ == row.tenant_scope@
    &&& c.upload_id@ == row.upload_id@
    &&& c.artifact_id@ == row.artifact_id@
    &&& c.object_id@ == row.object_id@
    &&& c.stage_locator@ == row.stage_locator@
    &&& c.final_locator@ == row.final_locator@
    &&& c.ciphertext_digest@ == row.ciphertext_digest@
    &&& c.ciphertext_length == row.ciphertext_length
    &&& c.lease_owner@ == owner
    &&& c.lease_token@ == row.lease_token@
    &&& c.lease_epoch == row.lease_epoch
    &&& c.lease_until == row.lease_until
}

/// A promotion claim is that of one row: two claims of it agree in every part, and each part is
/// the row's own.
pub proof fn law_promotions_are_of_their_row(
    a: ArtifactPromotionClaim,
    row: PromotionRow,
    owner: Seq<char>,
)
    requires
        promotes(a, row, owner),
    ensures
        a.tenant_scope@ == row.tenant_scope@,
        a.upload_id@ == row.upload_id@,
        a.artifact_id@ == row.artifact_id@,
        a.object_id@ == row.object_id@,
        a.stage_locator@ == row.stage_locator@,
        a.final_locator@ == row.final_locator@,
        a.ciphertext_digest@ == row.ciphertext_digest@,
        a.ciphertext_length == row.ciphertext_length,
        a.lease_token@ == row.lease_token@,
        a.lease_epoch == row.lease_epoch,
        a.lease_until == row.lease_until,
        a.lease_owner@ == owner,
        promotion_sound(row),
{
}

/// Reads the uploads that a worker claimed. One that cannot be read fails the claim.
pub fn promotion_claims(rows: &Vec<PromotionRow>, lease_owner: &str) -> (r: Result<Vec<ArtifactPromotionClaim>, Fault>)
    ensures
        match r {
            Ok(claims) => {
                &&& claims@.len() == rows@.len()
                &&& forall|i: int|
                    0 <= i < rows@.len() ==> promotion_sound(#[trigger] rows@[i]) && promotes(
                        claims@[i],
                        rows@[i],
                        lease_owner@,
                    )
            },
            Err(e) => e == Fault::ArtifactPromotionCorrupt && exists|i: int|
                0 <= i < rows@.len() && !promotion_sound(#[trigger] rows@[i]),
        },
{
    let mut claims: Vec<ArtifactPromotionClaim> = Vec::new();
    let mut i: usize = 0;
    while i < rows.len()
        invariant
            i <= rows@.len(),
            claims@.len() == i,
            forall|j: int|
                0 <= j < i ==> promotion_sound(#[trigger] rows@[j]) && promotes(claims@[j], rows@[j], lease_owner@),
        decreases rows@.len() - i,
    {
        let row = &rows[i];
        if row.ciphertext_length < 0 || row.lease_epoch < 0 {
            assert(!promotion_sound(rows@[i as int]));
            return Err(Fault::ArtifactPromotionCorrupt);
        }
        let ghost before = claims@;
        let claim = ArtifactPromotionClaim {
            tenant_scope: row.tenant_scope.clone(),
            upload_id: row.upload_id.clone(),
            artifact_id: row.artifact_id.clone(),
            object_id: row.object_id.clone(),
            stage_locator: row.stage_locator.clone(),
            final_locator: row.final_locator.clone(),
            ciphertext_digest: row.ciphertext_digest.clone(),
            ciphertext_length: row.ciphertext_length as u64,
            lease_owner: lease_owner.to_owned(),
            lease_token: row.lease_token.clone(),
            lease_epoch: row.lease_epoch as u64,
            lease_until: row.lease_until,
        };
        claims.push(claim);
        assert forall|j: int| 0 <= j < i implies promotion_sound(#[trigger] rows@[j]) && promotes(
            claims@[j],
            rows@[j],
            lease_owner@,
        ) by {
            assert(claims@[j] == before[j]);
        }
        i += 1;
    }
    Ok(claims)
}

/// Commits a promotion. The file must have been promoted whole; the object becomes
/// available only where the upload was then still claimed.
pub fn commit_artifact_promotion(has_store: bool, promoted: bool, uploads_written: u64) -> (r: Result<bool, Fault>)
    ensures
        r == (if !has_store {
            Err::<bool, Fault>(Fault::ArtifactPromotionUnsupported)
        } else if !promoted {
            Err(Fault::ArtifactPromotionIntegrityFailed)
        } else {
            Ok(uploads_written == 1)
        }),
        r == Ok::<bool, Fault>(true) <==> has_store && promoted && uploads_written == 1,
        r is Err <==> !has_store || !promoted,
{
    if !has_store {
        return Err(Fault::ArtifactPromotionUnsupported);
    }
    if !promoted {
        return Err(Fault::ArtifactPromotionIntegrityFailed);
    }
    Ok(uploads_written == 1)
}

/// Whether objects may be claimed for deletion.
pub fn claim_artifact_gc(has_store: bool, owner: &str, duration: i64, batch: usize) -> (r: Result<i32, Fault>)
    ensures
        r == (if !has_store {
            Err::<i32, Fault>(Fault::ArtifactGcUnsupported)
        } else if !worker_claim_valid(owner@, duration, batch) {
            Err(Fault::InvalidArtifactGcLease)
        } else {
            Ok(batch as i32)
        }),
{
    if !has_store {
        return Err(Fault::ArtifactGcUnsupported);
    }
    if owner.is_empty() || duration < 10 || duration > 300_000 || batch < 1 || batch > 1000 {
        return Err(Fault::InvalidArtifactGcLease);
    }
    Ok(batch as i32)
}

/// An object claimed for deletion as the store returns it.
pub struct GcRow {
    pub tenant_scope: String,
    pub job_id: String,
    pub object_id: String,
    pub backend_locator: String,
    pub tombstone_generation: i64,
    pub lease_token: String,
    pub lease_epoch: i64,
}

/// An object that a worker may delete.
pub struct ArtifactGcClaim {
    pub tenant_scope: String,
    pub job_id: String,
    pub object_id: String,
    pub backend_locator: String,
    pub tombstone_generation: u64,
    pub lease_owner: String,
    pub lease_token: String,
    pub lease_epoch: u64,
}

/// Whether the numbers of an object claimed for deletion can be read.
pub open spec fn gc_sound(row: GcRow) -> bool {
    row.tombstone_generation >= 0 && row.lease_epoch >= 0
}

/// Whether a claim is that of a row, for an owner.
pub open spec fn collects(c: ArtifactGcClaim, row: GcRow, owner: Seq<char>) -> bool {
    &&& c.tenant_scope@ == row.tenant_scope@
    &&& c.job_id@ == row.job_id@
    &&& c.object_id@ == row.object_id@
    &&& c.backend_locator@ == row.backend_locator@
    &&& c.tombstone_generation == row.tombstone_generation
    &&& c.lease_owner@ == owner
    &&& c.lease_token@ == row.lease_token@
    &&& c.lease_epoch == row.lease_epoch
}

/// A deletion claim is that of its row, for its owner.
pub proof fn law_deletions_are_of_their_row(a: ArtifactGcClaim, row: GcRow, owner: Seq<char>)
    requires
        collects(a, row, owner),
    ensures
        a.tenant_scope@ == row.tenant_scope@,
        a.job_id@ == row.job_id@,
        a.object_id@ == row.object_id@,
        a.backend_locator@ == row.backend_locator@,
        a.tombstone_generation == row.tombstone_generation,
        a.lease_token@ == row.lease_token@,
        a.lease_epoch == row.lease_epoch,
        a.lease_owner@ == owner,
        gc_sound(row),
{
}

/// Reads the objects that a worker claimed. One that cannot be read fails the claim.
pub fn gc_claims(rows: &Vec<GcRow>, lease_owner: &str) -> (r: Result<Vec<ArtifactGcClaim>, Fault>)
    ensures
        match r {
            Ok(claims) => {
                &&& claims@.len() == rows@.len()
                &&& forall|i: int|
                    0 <= i < rows@.len() ==> gc_sound(#[trigger] rows@[i]) && collects(
                        claims@[i],
                        rows@[i],
                        lease_owner@,
                    )
            },
            Err(e) => e == Fault::ArtifactGcCorrupt && exists|i: int|
                0 <= i < rows@.len() && !gc_sound(#[trigger] rows@[i]),
        },
{
    let mut claims: Vec<ArtifactGcClaim> = Vec::new();
    let mut i: usize = 0;
    while i < rows.len()
        invariant
            i <= rows@.len(),
            claims@.len() == i,
            forall|j: int|
                0 <= j < i ==> gc_sound(#[trigger] rows@[j]) && collects(claims@[j], rows@[j], lease_owner@),
        decreases rows@.len() - i,
    {
        let row = &rows[i];
        if row.tombstone_generation < 0 || row.lease_epoch < 0 {
            assert(!gc_sound(rows@[i as int]));
            return Err(Fault::ArtifactGcCorrupt);
        }
        let ghost before = claims@;
        let claim = ArtifactGcClaim {
            tenant_scope: row.tenant_scope.clone(),
            job_id: row.job_id.clone(),
            object_id: row.object_id.clone(),
            backend_locator: row.backend_locator.clone(),
            tombstone_generation: row.tombstone_generation as u64,
            lease_owner: lease_owner.to_owned(),
            lease_token: row.lease_token.clone(),
            lease_epoch: row.lease_epoch as u64,
        };
        claims.push(claim);
        assert forall|j: int| 0 <= j < i implies gc_sound(#[trigger] rows@[j]) && collects(
            claims@[j],
            rows@[j],
            lease_owner@,
        ) by {
            assert(claims@[j] == before[j]);
        }
        i += 1;
    }
    Ok(claims)
}

/// What a deleted object leaves behind.
pub struct Tombstone {
    pub reason_digest: String,
    pub locator_digest: String,
    pub deletion_receipt_digest: String,
}

/// What committing a deletion does.
pub enum GcStep {
    /// The claim is no longer held.
    Lost,
    /// The object is gone; this is recorded.
    Record(Tombstone),
}

/// Whether the blob of a claimed object may be deleted: only against a receipt.
pub fn check_deletion_receipt(has_store: bool, receipt: &str) -> (r: Result<(), Fault>)
    ensures
        r == (if !text::begins_with(text::utf8(receipt@), text::utf8("sha256:"@)) {
            Err::<(), Fault>(Fault::InvalidDeletionReceipt)
        } else if !has_store {
            Err(Fault::ArtifactGcUnsupported)
        } else {
            Ok(())
        }),
        r is Ok ==> has_store && text::begins_with(text::utf8(receipt@), text::utf8("sha256:"@)),
{
    if !text::starts_with_bytes(receipt.as_bytes(), "sha256:".as_bytes()) {
        return Err(Fault::InvalidDeletionReceipt);
    }
    if !has_store {
        return Err(Fault::ArtifactGcUnsupported);
    }
    Ok(())
}

/// Commits a deletion. The job must still be held, and the object must then still be
/// the one that the claim named.
pub fn commit_artifact_gc(jobs_written: u64, objects_written: u64, locator: &str, receipt: &str) -> (r: Result<
    GcStep,
    Fault,
>)
    ensures
        match r {
            Ok(GcStep::Lost) => jobs_written != 1,
            Ok(GcStep::Record(t)) => {
                &&& jobs_written == 1 && objects_written == 1
                &&& t.reason_digest@ == crypto::content_digest_of(text::utf8("retention-expired"@))
                &&& t.locator_digest@ == crypto::content_digest_of(text::utf8(locator@))
                &&& t.deletion_receipt_digest@ == receipt@
            },
            Err(e) => e == Fault::ArtifactGcFenceLost && jobs_written == 1 && objects_written != 1,
        },
        r is Err <==> jobs_written == 1 && objects_written != 1,
        jobs_written != 1 ==> (r matches Ok(step) && step is Lost),
{
    if jobs_written != 1 {
        return Ok(GcStep::Lost);
    }
    if objects_written != 1 {
        return Err(Fault::ArtifactGcFenceLost);
    }
    Ok(
        GcStep::Record(
            Tombstone {
                reason_digest: crypto::text_digest("retention-expired"),
                locator_digest: crypto::text_digest(locator),
                deletion_receipt_digest: receipt.to_owned(),
            },
        ),
    )
}

/// Why an artifact's resolution is refused before anything is read.
pub open spec fn resolution_preflight_fault(
    has_store: bool,
    duration: i64,
    audit: AuthorizationAudit,
    scope: OwnedTaskScope,
    quota_enforcement: bool,
    intent: Option<QuotaIntent>,
) -> Option<Fault> {
    if !has_store {
        Some(Fault::ArtifactResolutionUnsupported)
    } else if !(10 <= duration <= 300_000) || !admission::audit_matches(audit, scope) {
        Some(Fault::InvalidArtifactReadPreflight)
    } else if quota_enforcement && intent is None {
        Some(Fault::QuotaAuthorityUnavailable)
    } else if intent is Some && intent->0.operation != QuotaOperation::TaskGet {
        Some(Fault::ArtifactQuotaIntentMismatch)
    } else {
        None
    }
}

/// A resolution is begun exactly where there is a store, it lasts between ten milliseconds and
/// five minutes, the audit is the caller's own, and the intent, which is there where quota is
/// enforced, pays for a read.
pub proof fn law_resolutions_are_paid_for(
    has_store: bool,
    duration: i64,
    audit: AuthorizationAudit,
    scope: OwnedTaskScope,
    quota_enforcement: bool,
    intent: Option<QuotaIntent>,
)
    ensures
        ({
            let fault = resolution_preflight_fault(has_store, duration, audit, scope, quota_enforcement, intent);
            let own = audit.tenant_scope@ == scope.tenant_scope@ && audit.actor_account_id@ == scope.owner_account_id@;
            let lasts = 10 <= duration <= 300_000;
            &&& !has_store ==> fault == Some(Fault::ArtifactResolutionUnsupported)
            &&& has_store && !(own && lasts) ==> fault == Some(Fault::InvalidArtifactReadPreflight)
            &&& has_store && own && lasts && intent is None && quota_enforcement ==> fault == Some(
                Fault::QuotaAuthorityUnavailable,
            )
            &&& has_store && own && lasts && intent is None && !quota_enforcement ==> fault is None
            &&& has_store && own && lasts && intent is Some && intent->0.operation == QuotaOperation::TaskGet
                ==> fault is None
            &&& has_store && own && lasts && intent is Some && intent->0.operation != QuotaOperation::TaskGet
                ==> fault == Some(Fault::ArtifactQuotaIntentMismatch)
        }),
{
}

/// Whether an artifact may be resolved at all.
pub fn begin_artifact_resolution(
    has_store: bool,
    duration: i64,
    audit: &AuthorizationAudit,
    scope: &OwnedTaskScope,
    quota_enforcement: bool,
    intent: &Option<QuotaIntent>,
) -> (r: Result<(), Fault>)
    ensures
        match r {
            Ok(_) => resolution_preflight_fault(has_store, duration, *audit, *scope, quota_enforcement, *intent) is None,
            Err(e) => resolution_preflight_fault(has_store, duration, *audit, *scope, quota_enforcement, *intent)
                == Some(e),
        },
{
    if !has_store {
        return Err(Fault::ArtifactResolutionUnsupported);
    }
    if duration < 10 || duration > 300_000 || !admission::same_scope(audit, scope) {
        return Err(Fault::InvalidArtifactReadPreflight);
    }
    match intent {
        None => {
            if quota_enforcement {
                return Err(Fault::QuotaAuthorityUnavailable);
            }
        },
        Some(i) => {
            if i.operation != QuotaOperation::TaskGet {
                return Err(Fault::ArtifactQuotaIntentMismatch);
            }
        },
    }
    Ok(())
}

/// What is on record of an artifact that is resolved.
pub struct ResolutionRow {
    pub owner_account_id: String,
    pub task_id: String,
    pub media_type: String,
    pub content_digest: String,
    pub manifest_digest: String,
    pub plaintext_length: i64,
    pub classification: String,
    pub encryption_domain: String,
    pub ciphertext_digest: String,
    pub ciphertext_length: i64,
    pub backend_locator: String,
    pub nonce: Vec<u8>,
    pub key_generation: String,
    pub canonical_manifest_json: String,
    pub state: String,
}

/// How many bytes a resolution is charged: an empty artifact counts as one.
pub fn resolution_egress(row: &ResolutionRow) -> (r: Result<u64, Fault>)
    ensures
        r == (if row.plaintext_length < 0 {
            Err::<u64, Fault>(Fault::ArtifactMetadataCorrupt)
        } else if row.plaintext_length == 0 {
            Ok(1u64)
        } else {
            Ok(row.plaintext_length as u64)
        }),
        r matches Ok(charged) ==> charged >= 1 && charged >= row.plaintext_length && charged <= row.plaintext_length + 1
            && (row.plaintext_length > 0 ==> charged == row.plaintext_length),
        row.plaintext_length >= 0 ==> r is Ok,
{
    if row.plaintext_length < 0 {
        return Err(Fault::ArtifactMetadataCorrupt);
    }
    if row.plaintext_length == 0 {
        return Ok(1);
    }
    Ok(row.plaintext_length as u64)
}

/// The right to read an artifact for a while.
pub struct ArtifactReadLease {
    pub tenant_scope: String,
    pub owner_account_id: String,
    pub task_id: String,
    pub artifact_id: String,
    pub media_type: String,
    pub content_digest: String,
    pub manifest_digest: String,
    pub plaintext_length: u64,
    pub classification: String,
    pub encryption_domain: String,
    pub ciphertext_digest: String,
    pub ciphertext_length: u64,
    pub backend_locator: String,
    pub nonce: Vec<u8>,
    pub key_generation: String,
    pub canonical_manifest_json: String,
    pub lease_id: String,
    pub lease_token: String,
    pub lease_epoch: u64,
    pub lease_until: i64,
}

/// What names a lease that is granted.
pub struct LeaseNames {
    pub tenant_scope: String,
    pub artifact_id: String,
    pub lease_id: String,
    pub lease_token: String,
}

/// Names a lease with random bytes.
pub fn lease_names(tenant_scope: &str, artifact_id: &str, id_bytes: &[u8], token_bytes: &[u8]) -> (r: LeaseNames)
    ensures
        r.tenant_scope@ == tenant_scope@,
        r.artifact_id@ == artifact_id@,
        r.lease_id@ == crypto::content_digest_of(id_bytes@),
        r.lease_token@ == crypto::content_digest_of(token_bytes@),
{
    LeaseNames {
        tenant_scope: tenant_scope.to_owned(),
        artifact_id: artifact_id.to_owned(),
        lease_id: crypto::content_digest(id_bytes),
        lease_token: crypto::content_digest(token_bytes),
    }
}

/// What a resolution does with what it found.
pub enum ResolutionStep {
    /// Nothing that the caller may see: the denial is recorded, and says no more.
    Absent,
    /// The artifact is leased for reading, and the permission is recorded.
    Granted(ArtifactReadLease),
}

/// Why a resolution of an artifact that was found fails.
pub open spec fn resolution_fault(row: ResolutionRow, now: i64, duration: i64) -> Option<Fault> {
    if row.plaintext_length < 0 {
        Some(Fault::ArtifactMetadataCorrupt)
    } else if row.state@ == "quarantined"@ {
        Some(Fault::ArtifactQuarantined)
    } else if now + duration > i64::MAX {
        Some(Fault::ArtifactLeaseOverflow)
    } else if row.nonce@.len() != 12 || row.ciphertext_length < 0 {
        Some(Fault::ArtifactMetadataCorrupt)
    } else {
        None
    }
}

/// Whether a lease is that of a row under some names.
pub open spec fn leases(l: ArtifactReadLease, row: ResolutionRow, names: LeaseNames, until: int) -> bool {
    &&& l.tenant_scope@ == names.tenant_scope@
    &&& l.owner_account_id@ == row.owner_account_id@
    &&& l.task_id@ == row.task_id@
    &&& l.artifact_id@ == names.artifact_id@
    &&& l.media_type@ == row.media_type@
    &&& l.content_digest@ == row.content_digest@
    &&& l.manifest_digest@ == row.manifest_digest@
    &&& l.plaintext_length == row.plaintext_length
    &&& l.classification@ == row.classification@
    &&& l.encryption_domain@ == row.encryption_domain@
    &&& l.ciphertext_digest@ == row.ciphertext_digest@
    &&& l.ciphertext_length == row.ciphertext_length
    &&& l.backend_locator@ == row.backend_locator@
    &&& l.nonce@ == row.nonce@
    &&& l.key_generation@ == row.key_generation@
    &&& l.canonical_manifest_json@ == row.canonical_manifest_json@
    &&& l.lease_id@ == names.lease_id@
    &&& l.lease_token@ == names.lease_token@
    &&& l.lease_epoch == 1
    &&& l.lease_until == until
}

/// An artifact that was found is leased exactly where its lengths can be read, it is not
/// quarantined, its lease ends and its nonce has twelve bytes.
pub proof fn law_sound_artifacts_are_leased(row: ResolutionRow, now: i64, duration: i64)
    ensures
        resolution_fault(row, now, duration) is None <==> row.plaintext_length >= 0 && row.state@ != "quarantined"@
            && now + duration <= i64::MAX && row.nonce@.len() == 12 && row.ciphertext_length >= 0,
        row.plaintext_length >= 0 && row.state@ == "quarantined"@ ==> resolution_fault(row, now, duration) == Some(
            Fault::ArtifactQuarantined,
        ),
        row.plaintext_length < 0 ==> resolution_fault(row, now, duration) == Some(Fault::ArtifactMetadataCorrupt),
        resolution_fault(row, now, duration) == Some(Fault::ArtifactLeaseOverflow) ==> now + duration > i64::MAX,
{
}

/// A read lease shows the artifact on record under the names that were drawn for it, in its
/// first epoch and until its end.
pub proof fn law_read_leases_show_their_artifact(
    l: ArtifactReadLease,
    row: ResolutionRow,
    names: LeaseNames,
    until: int,
)
    requires
        leases(l, row, names, until),
    ensures
        l.lease_until == until,
        l.lease_epoch == 1,
        l.lease_id@ == names.lease_id@,
        l.lease_token@ == names.lease_token@,
        l.tenant_scope@ == names.tenant_scope@,
        l.artifact_id@ == names.artifact_id@,
        l.owner_account_id@ == row.owner_account_id@,
        l.task_id@ == row.task_id@,
        l.media_type@ == row.media_type@,
        l.content_digest@ == row.content_digest@,
        l.manifest_digest@ == row.manifest_digest@,
        l.ciphertext_digest@ == row.ciphertext_digest@,
        l.classification@ == row.classification@,
        l.encryption_domain@ == row.encryption_domain@,
        l.backend_locator@ == row.backend_locator@,
        l.key_generation@ == row.key_generation@,
        l.canonical_manifest_json@ == row.canonical_manifest_json@,
        l.nonce@ == row.nonce@,
        l.plaintext_length == row.plaintext_length,
        l.ciphertext_length == row.ciphertext_length,
{
}

/// Decides what a resolution does with what it found.
pub fn resolve_artifact(row: &Option<ResolutionRow>, names: LeaseNames, now: i64, duration: i64) -> (r: Result<
    ResolutionStep,
    Fault,
>)
    requires
        duration > 0,
    ensures
        match row {
            None => r matches Ok(ResolutionStep::Absent),
            Some(f) => match r {
                Err(e) => resolution_fault(*f, now, duration) == Some(e),
                Ok(ResolutionStep::Absent) => false,
                Ok(ResolutionStep::Granted(lease)) => resolution_fault(*f, now, duration) is None && leases(
                    lease,
                    *f,
                    names,
                    now + duration,
                ),
            },
        },
{
    match row {
        None => Ok(ResolutionStep::Absent),
        Some(f) => {
            if f.plaintext_length < 0 {
                return Err(Fault::ArtifactMetadataCorrupt);
            }
            if text::same_text(f.state.as_str(), "quarantined") {
                return Err(Fault::ArtifactQuarantined);
            }
            let lease_until: i64 = match now.checked_add(duration) {
                Some(until) => until,
                None => {
                    return Err(Fault::ArtifactLeaseOverflow);
                },
            };
            if f.nonce.len() != 12 || f.ciphertext_length < 0 {
                return Err(Fault::ArtifactMetadataCorrupt);
            }
            Ok(
                ResolutionStep::Granted(
                    ArtifactReadLease {
                        tenant_scope: names.tenant_scope,
                        owner_account_id: f.owner_account_id.clone(),
                        task_id: f.task_id.clone(),
                        artifact_id: names.artifact_id,
                        media_type: f.media_type.clone(),
                        content_digest: f.content_digest.clone(),
                        manifest_digest: f.manifest_digest.clone(),
                        plaintext_length: f.plaintext_length as u64,
                        classification: f.classification.clone(),
                        encryption_domain: f.encryption_domain.clone(),
                        ciphertext_digest: f.ciphertext_digest.clone(),
                        ciphertext_length: f.ciphertext_length as u64,
                        backend_locator: f.backend_locator.clone(),
                        nonce: text::copy_bytes(f.nonce.as_slice()),
                        key_generation: f.key_generation.clone(),
                        canonical_manifest_json: f.canonical_manifest_json.clone(),
                        lease_id: names.lease_id,
                        lease_token: names.lease_token,
                        lease_epoch: 1,
                        lease_until,
                    },
                ),
            )
        },
    }
}

/// The reason that is recorded with the decision on a resolution, and whether it
/// allows: an absent artifact and one that the caller may not see are recorded alike.
pub fn resolution_audit(row: &Option<ResolutionRow>) -> (r: (bool, &'static str))
    ensures
        match row {
            None => !r.0 && r.1@ == "not_found_or_forbidden"@,
            Some(f) => if f.state@ == "quarantined"@ {
                !r.0 && r.1@ == "artifact_quarantined"@
            } else {
                r.0 && r.1@ == "authorized_task_reference"@
            },
        },
        r.0 <==> row is Some && row->0.state@ != "quarantined"@,
{
    match row {
        None => (false, "not_found_or_forbidden"),
        Some(f) => if text::same_text(f.state.as_str(), "quarantined") {
            (false, "artifact_quarantined")
        } else {
            (true, "authorized_task_reference")
        },
    }
}

/// A damaged artifact is never handed out.
pub proof fn law_quarantined_artifacts_are_not_leased(row: ResolutionRow, now: i64, duration: i64)
    requires
        row.state@ == "quarantined"@,
    ensures
        resolution_fault(row, now, duration) is Some,
{
}

/// What a resolution that finds damaged content records.
pub struct CorruptionAudit {
    pub detection_digest: String,
    pub audit_id: String,
}

/// The digest of a detected corruption.
pub open spec fn detection_digest_of(tenant: Seq<char>, artifact: Seq<char>, ciphertext: Seq<char>) -> Seq<char> {
    crypto::content_digest_of(
        text::utf8("smesh-artifact-corruption/v1\0"@ + tenant + "\0"@ + artifact + "\0"@ + ciphertext),
    )
}

/// What a resolution does with the content that it read.
pub enum ResolutionRead {
    /// The content is what its manifest says.
    Content(Vec<u8>),
    /// The content is damaged: the artifact is quarantined, this is recorded, and the
    /// request fails.
    Quarantine(CorruptionAudit, Fault),
}

/// Hands out the content of an artifact, where it could be read and is what its
/// manifest says.
pub fn read_artifact_resolution(
    has_store: bool,
    tenant: &str,
    artifact_id: &str,
    ciphertext_digest: &str,
    content: Option<Vec<u8>>,
) -> (r: Result<ResolutionRead, Fault>)
    ensures
        match r {
            Err(e) => !has_store && e == Fault::ArtifactResolutionUnsupported,
            Ok(ResolutionRead::Content(bytes)) => has_store && content == Some(bytes),
            Ok(ResolutionRead::Quarantine(audit, fault)) => {
                &&& has_store && content is None
                &&& fault == Fault::ArtifactIntegrityFailed
                &&& audit.detection_digest@ == detection_digest_of(tenant@, artifact_id@, ciphertext_digest@)
                &&& audit.audit_id@ == "corruption-"@ + audit.detection_digest@.subrange(7, 39)
            },
        },
        r is Ok <==> has_store,
        r matches Ok(read) ==> (read is Content <==> content is Some),
{
    if !has_store {
        return Err(Fault::ArtifactResolutionUnsupported);
    }
    match content {
        Some(bytes) => Ok(ResolutionRead::Content(bytes)),
        None => Ok(
            ResolutionRead::Quarantine(
                corruption_audit(tenant, artifact_id, ciphertext_digest),
                Fault::ArtifactIntegrityFailed,
            ),
        ),
    }
}

/// Describes a detected corruption. The same one is recorded once.
fn corruption_audit(tenant: &str, artifact_id: &str, ciphertext_digest: &str) -> (r: CorruptionAudit)
    ensures
        r.detection_digest@ == detection_digest_of(tenant@, artifact_id@, ciphertext_digest@),
        r.audit_id@ == "corruption-"@ + r.detection_digest@.subrange(7, 39),
{
    let mut key = "smesh-artifact-corruption/v1\0".to_owned();
    key.append(tenant);
    key.append("\0");
    key.append(artifact_id);
    key.append("\0");
    key.append(ciphertext_digest);
    let detection_digest = crypto::text_digest(key.as_str());
    let part = crypto::digest_part(key.as_str().as_bytes(), 7, 39);
    let mut audit_id = "corruption-".to_owned();
    audit_id.append(part.as_str());
    CorruptionAudit { detection_digest, audit_id }
}

/// Whether a hold may be placed.
pub fn place_artifact_hold(object_available: bool) -> (r: Result<(), Fault>)
    ensures
        r == (if object_available {
            Ok::<(), Fault>(())
        } else {
            Err(Fault::ArtifactHoldUnavailable)
        }),
{
    if object_available {
        Ok(())
    } else {
        Err(Fault::ArtifactHoldUnavailable)
    }
}

/// How long a backup lease may last.
pub open spec fn backup_duration_valid(duration: i64) -> bool {
    10 <= duration <= 86_400_000
}

/// The right to back up an object for a while.
#[derive(Clone)]
pub struct ArtifactBackupLease {
    pub tenant_scope: String,
    pub object_id: String,
    pub lease_id: String,
    pub lease_owner: String,
    pub lease_token: String,
    pub lease_epoch: u64,
    pub lease_until: i64,
}

/// Whether a backup lease may be asked for.
pub fn acquire_artifact_backup_lease(
    has_store: bool,
    tenant_scope: &str,
    object_id: &str,
    lease_owner: &str,
    lease_duration: i64,
) -> (r: Result<(), Fault>)
    ensures
        r == (if !has_store || tenant_scope@.len() == 0 || object_id@.len() == 0 || lease_owner@.len() == 0
            || !backup_duration_valid(lease_duration) {
            Err::<(), Fault>(Fault::InvalidArtifactBackupLease)
        } else {
            Ok(())
        }),
{
    if !has_store || tenant_scope.is_empty() || object_id.is_empty() || lease_owner.is_empty() || lease_duration < 10
        || lease_duration > 86_400_000 {
        return Err(Fault::InvalidArtifactBackupLease);
    }
    Ok(())
}

/// The backup lease that is granted, named with random bytes. `lease_until` is when it
/// ends, where the object is there to be backed up.
pub fn grant_backup_lease(
    tenant_scope: &str,
    object_id: &str,
    lease_owner: &str,
    id_bytes: &[u8],
    token_bytes: &[u8],
    lease_until: Option<i64>,
) -> (r: Result<ArtifactBackupLease, Fault>)
    ensures
        match r {
            Err(e) => e == Fault::ArtifactBackupUnavailable && lease_until is None,
            Ok(l) => {
                &&& lease_until == Some(l.lease_until)
                &&& l.tenant_scope@ == tenant_scope@
                &&& l.object_id@ == object_id@
                &&& l.lease_owner@ == lease_owner@
                &&& l.lease_id@ == "backup-"@ + crypto::content_digest_of(id_bytes@)
                &&& l.lease_token@ == crypto::content_digest_of(token_bytes@)
                &&& l.lease_epoch == 1
            },
        },
{
    match lease_until {
        None => Err(Fault::ArtifactBackupUnavailable),
        Some(until) => {
            let digest = crypto::content_digest(id_bytes);
            let mut lease_id = "backup-".to_owned();
            lease_id.append(digest.as_str());
            Ok(
                ArtifactBackupLease {
                    tenant_scope: tenant_scope.to_owned(),
                    object_id: object_id.to_owned(),
                    lease_id,
                    lease_owner: lease_owner.to_owned(),
                    lease_token: crypto::content_digest(token_bytes),
                    lease_epoch: 1,
                    lease_until: until,
                },
            )
        },
    }
}

/// Renews a backup lease under a new token. `renewed` is the epoch and the end that
/// the store wrote, where the lease was still held.
pub fn renew_artifact_backup_lease(
    lease: ArtifactBackupLease,
    lease_duration: i64,
    token_bytes: &[u8],
    renewed: Option<(i64, i64)>,
) -> (r: Result<Option<ArtifactBackupLease>, Fault>)
    ensures
        match r {
            Err(e) => if !backup_duration_valid(lease_duration) {
                e == Fault::InvalidArtifactBackupRenewal
            } else {
                e == Fault::ArtifactBackupLeaseCorrupt && (match renewed {
                    Some(written) => written.0 < 0,
                    None => false,
                })
            },
            Ok(None) => backup_duration_valid(lease_duration) && renewed is None,
            Ok(Some(next)) => {
                &&& backup_duration_valid(lease_duration)
                &&& match renewed {
                    Some(written) => written.0 == next.lease_epoch && written.1 == next.lease_until,
                    None => false,
                }
                &&& next.lease_token@ == crypto::content_digest_of(token_bytes@)
                &&& next.tenant_scope == lease.tenant_scope
                &&& next.object_id == lease.object_id
                &&& next.lease_id == lease.lease_id
                &&& next.lease_owner == lease.lease_owner
            },
        },
        r is Ok <==> 10 <= lease_duration <= 24 * 60 * 60 * 1000 && (renewed matches Some(written) ==> written.0 >= 0),
        r matches Ok(next) ==> (next is Some <==> renewed is Some),
{
    if lease_duration < 10 || lease_duration > 86_400_000 {
        return Err(Fault::InvalidArtifactBackupRenewal);
    }
    match renewed {
        None => Ok(None),
        Some(written) => {
            if written.0 < 0 {
                return Err(Fault::ArtifactBackupLeaseCorrupt);
            }
            Ok(
                Some(
                    ArtifactBackupLease {
                        lease_token: crypto::content_digest(token_bytes),
                        lease_epoch: written.0 as u64,
                        lease_until: written.1,
                        ..lease
                    },
                ),
            )
        },
    }
}

/// The time before which a staged file counts as forgotten.
pub open spec fn orphan_cutoff_of(now: i64, horizon: i64) -> int {
    if now - horizon < 0 {
        0
    } else {
        now - horizon
    }
}

/// Decides before which time a staged file counts as forgotten, in milliseconds.
pub fn scan_artifact_stage_orphans(has_store: bool, horizon: i64, batch: usize, now: i64) -> (r: Result<u64, Fault>)
    ensures
        r == (if !(1 <= horizon <= 86_400_000) || !(1 <= batch <= 1000) {
            Err::<u64, Fault>(Fault::InvalidArtifactOrphanScan)
        } else if !has_store {
            Err(Fault::ArtifactOrphanScanUnsupported)
        } else {
            Ok(orphan_cutoff_of(now, horizon) as u64)
        }),
        r is Ok <==> has_store && 1 <= horizon && horizon <= 24 * 60 * 60 * 1000 && 1 <= batch && batch <= 1000,
        r matches Ok(cutoff) ==> cutoff == 0 || cutoff + horizon == now,
{
    if horizon < 1 || horizon > 86_400_000 || batch < 1 || batch > 1000 {
        return Err(Fault::InvalidArtifactOrphanScan);
    }
    if !has_store {
        return Err(Fault::ArtifactOrphanScanUnsupported);
    }
    if now < horizon {
        return Ok(0);
    }
    Ok((now - horizon) as u64)
}

/// A staged file that may be forgotten.
pub struct OrphanCandidate {
    pub locator: String,
    pub bytes: u64,
}

/// Byte strings in the order in which texts are sorted.
pub open spec fn bytes_before(a: Seq<u8>, b: Seq<u8>) -> bool
    decreases a.len(),
{
    if b.len() == 0 {
        false
    } else if a.len() == 0 {
        true
    } else if a[0] != b[0] {
        a[0] < b[0]
    } else {
        bytes_before(a.drop_first(), b.drop_first())
    }
}

proof fn lemma_before_common(a: Seq<u8>, b: Seq<u8>, i: int)
    requires
        0 <= i <= a.len(),
        i <= b.len(),
        a.subrange(0, i) == b.subrange(0, i),
    ensures
        bytes_before(a, b) == bytes_before(a.skip(i), b.skip(i)),
    decreases i,
{
    if i == 0 {
        assert(a.skip(0) =~= a);
        assert(b.skip(0) =~= b);
    } else {
        assert(a[0] == a.subrange(0, i)[0] && b[0] == b.subrange(0, i)[0]);
        let x = a.drop_first();
        let y = b.drop_first();
        assert(x.subrange(0, i - 1) =~= a.subrange(0, i).drop_first());
        assert(y.subrange(0, i - 1) =~= b.subrange(0, i).drop_first());
        lemma_before_common(x, y, i - 1);
        assert(x.skip(i - 1) =~= a.skip(i));
        assert(y.skip(i - 1) =~= b.skip(i));
    }
}

proof fn lemma_before_total(a: Seq<u8>, b: Seq<u8>)
    ensures
        a == b || bytes_before(a, b) || bytes_before(b, a),
        !bytes_before(a, a),
        !(bytes_before(a, b) && bytes_before(b, a)),
    decreases a.len(),
{
    if a.len() > 0 && b.len() > 0 {
        lemma_before_total(a.drop_first(), b.drop_first());
        if a[0] == b[0] && a.drop_first() == b.drop_first() {
            assert(a =~= seq![a[0]] + a.drop_first());
            assert(b =~= seq![b[0]] + b.drop_first());
        }
    } else if a.len() == 0 && b.len() == 0 {
        assert(a =~= b);
    }
    if a.len() > 0 {
        lemma_before_total(a.drop_first(), a.drop_first());
    }
}

proof fn lemma_before_transitive(a: Seq<u8>, b: Seq<u8>, c: Seq<u8>)
    requires
        bytes_before(a, b),
        bytes_before(b, c),
    ensures
        bytes_before(a, c),
    decreases a.len(),
{
    if a.len() > 0 && a[0] == b[0] && b[0] == c[0] {
        lemma_before_transitive(a.drop_first(), b.drop_first(), c.drop_first());
    }
}

/// A staged file counts as forgotten once it is older than the horizon: the cutoff is a horizon
/// before the present, and never before the epoch.
pub proof fn law_forgotten_files_are_older_than_the_horizon(now: i64, horizon: i64, later: i64)
    requires
        now <= later,
    ensures
        orphan_cutoff_of(now, horizon) >= 0,
        now >= horizon ==> orphan_cutoff_of(now, horizon) + horizon == now,
        now < horizon ==> orphan_cutoff_of(now, horizon) == 0,
        orphan_cutoff_of(now, horizon) <= orphan_cutoff_of(later, horizon),
{
}

/// Byte strings are ordered as in a dictionary: at the first place where two differ the smaller
/// byte comes first, and a string comes before every longer one that begins with it.
pub proof fn law_bytes_are_ordered_as_in_a_dictionary(a: Seq<u8>, b: Seq<u8>, i: int)
    requires
        0 <= i <= a.len(),
        i < b.len(),
        a.subrange(0, i) == b.subrange(0, i),
    ensures
        i == a.len() ==> bytes_before(a, b),
        i < a.len() && a[i] < b[i] ==> bytes_before(a, b) && !bytes_before(b, a),
{
    lemma_before_common(a, b, i);
    if i < a.len() && a[i] < b[i] {
        assert(a.skip(i)[0] == a[i]);
        assert(b.skip(i)[0] == b[i]);
        lemma_before_total(a, b);
    } else if i == a.len() {
        assert(a.skip(i).len() == 0);
        assert(b.skip(i).len() > 0);
    }
}

fn is_before(a: &[u8], b: &[u8]) -> (r: bool)
    ensures
        r == bytes_before(a@, b@),
{
    let mut i: usize = 0;
    while i < a.len() && i < b.len()
        invariant
            i <= a@.len(),
            i <= b@.len(),
            a@.subrange(0, i as int) == b@.subrange(0, i as int),
        ensures
            i <= a@.len(),
            i <= b@.len(),
            a@.subrange(0, i as int) == b@.subrange(0, i as int),
            i == a@.len() || i == b@.len(),
        decreases a@.len() - i,
    {
        if a[i] != b[i] {
            proof {
                lemma_before_common(a@, b@, i as int);
                assert(a@.skip(i as int)[0] == a@[i as int]);
                assert(b@.skip(i as int)[0] == b@[i as int]);
            }
            return a[i] < b[i];
        }
        proof {
            assert(a@.subrange(0, i + 1) =~= a@.subrange(0, i as int).push(a@[i as int]));
            assert(b@.subrange(0, i + 1) =~= b@.subrange(0, i as int).push(b@[i as int]));
        }
        i += 1;
    }
    proof {
        lemma_before_common(a@, b@, i as int);
        assert(a@.skip(i as int).len() == a@.len() - i);
        assert(b@.skip(i as int).len() == b@.len() - i);
    }
    a.len() < b.len() && i == a.len()
}

/// The encoded locator of a candidate.
pub open spec fn locator_bytes(c: OrphanCandidate) -> Seq<u8> {
    text::utf8(c.locator@)
}

/// Candidates in order, none twice.
pub open spec fn strictly_sorted(items: Seq<OrphanCandidate>) -> bool {
    forall|i: int, j: int|
        0 <= i < j < items.len() ==> bytes_before(
            locator_bytes(#[trigger] items[i]),
            locator_bytes(#[trigger] items[j]),
        )
}

/// The size of the first candidate with a locator among the first `n`.
pub open spec fn first_bytes(items: Seq<OrphanCandidate>, n: int, locator: Seq<char>) -> Option<u64>
    decreases n,
{
    if n <= 0 {
        None
    } else {
        match first_bytes(items, n - 1, locator) {
            Some(b) => Some(b),
            None => if items[n - 1].locator@ == locator {
                Some(items[n - 1].bytes)
            } else {
                None
            },
        }
    }
}

/// Whether a list holds each candidate once, with the size it was first seen with.
pub open spec fn holds_first(out: Seq<OrphanCandidate>, items: Seq<OrphanCandidate>, n: int) -> bool {
    &&& forall|i: int|
        0 <= i < out.len() ==> first_bytes(items, n, (#[trigger] out[i]).locator@) == Some(out[i].bytes)
    &&& forall|locator: Seq<char>|
        (#[trigger] first_bytes(items, n, locator)) is Some ==> exists|i: int|
            0 <= i < out.len() && (#[trigger] out[i]).locator@ == locator
}

/// The size of a candidate is the one that it was first seen with: what comes later under the
/// same locator does not change it.
pub proof fn law_first_sizes_count(items: Seq<OrphanCandidate>, n: int, i: int)
    requires
        0 <= i < n <= items.len(),
        forall|k: int| 0 <= k < i ==> (#[trigger] items[k]).locator@ != items[i].locator@,
    ensures
        first_bytes(items, n, items[i].locator@) == Some(items[i].bytes),
    decreases n,
{
    if i < n - 1 {
        law_first_sizes_count(items, n - 1, i);
    } else {
        lemma_unseen(items, i, items[i].locator@);
    }
}

proof fn lemma_unseen(items: Seq<OrphanCandidate>, n: int, locator: Seq<char>)
    requires
        n <= items.len(),
        forall|k: int| 0 <= k < n ==> (#[trigger] items[k]).locator@ != locator,
    ensures
        first_bytes(items, n, locator) is None,
    decreases n,
{
    if n > 0 {
        lemma_unseen(items, n - 1, locator);
        assert(items[n - 1].locator@ != locator);
    }
}

fn find_place(out: &Vec<OrphanCandidate>, locator: &str) -> (r: (usize, bool))
    requires
        strictly_sorted(out@),
    ensures
        r.0 <= out@.len(),
        r.1 ==> r.0 < out@.len() && out@[r.0 as int].locator@ == locator@,
        !r.1 ==> (forall|i: int|
            0 <= i < r.0 ==> bytes_before(locator_bytes(#[trigger] out@[i]), text::utf8(locator@))) && (forall|i: int|
            r.0 <= i < out@.len() ==> bytes_before(text::utf8(locator@), locator_bytes(#[trigger] out@[i]))),
{
    let mut i: usize = 0;
    while i < out.len() && is_before(out[i].locator.as_str().as_bytes(), locator.as_bytes())
        invariant
            i <= out@.len(),
            forall|j: int| 0 <= j < i ==> bytes_before(locator_bytes(#[trigger] out@[j]), text::utf8(locator@)),
        ensures
            i <= out@.len(),
            forall|j: int| 0 <= j < i ==> bytes_before(locator_bytes(#[trigger] out@[j]), text::utf8(locator@)),
            i < out@.len() ==> !bytes_before(locator_bytes(out@[i as int]), text::utf8(locator@)),
        decreases out@.len() - i,
    {
        i += 1;
    }
    if i < out.len() && text::same_text(out[i].locator.as_str(), locator) {
        return (i, true);
    }
    proof {
        if i < out@.len() {
            lemma_before_total(locator_bytes(out@[i as int]), text::utf8(locator@));
            text::lemma_utf8_injective(out@[i as int].locator@, locator@);
            assert forall|j: int| i <= j < out@.len() implies bytes_before(
                text::utf8(locator@),
                locator_bytes(#[trigger] out@[j]),
            ) by {
                if j > i {
                    assert(bytes_before(locator_bytes(out@[i as int]), locator_bytes(out@[j])));
                    lemma_before_transitive(
                        text::utf8(locator@),
                        locator_bytes(out@[i as int]),
                        locator_bytes(out@[j]),
                    );
                }
            }
        }
    }
    (i, false)
}

/// Puts candidates in order and drops repetitions: each locator is cleaned up once.
pub fn order_orphan_candidates(items: &Vec<OrphanCandidate>) -> (r: Vec<OrphanCandidate>)
    ensures
        strictly_sorted(r@),
        holds_first(r@, items@, items@.len() as int),
{
    let mut out: Vec<OrphanCandidate> = Vec::new();
    let mut n: usize = 0;
    while n < items.len()
        invariant
            n <= items@.len(),
            strictly_sorted(out@),
            holds_first(out@, items@, n as int),
        decreases items@.len() - n,
    {
        let c = &items[n];
        let (place, found) = find_place(&out, c.locator.as_str());
        let ghost before = out@;
        proof {
            assert forall|locator: Seq<char>| (#[trigger] first_bytes(items@, n + 1, locator)) is Some implies (
            first_bytes(items@, n as int, locator) is Some || locator == c.locator@) by {}
        }
        if found {
            proof {
                assert(first_bytes(items@, n as int, before[place as int].locator@) == Some(
                    before[place as int].bytes,
                ));
                assert forall|locator: Seq<char>| (#[trigger] first_bytes(items@, n + 1, locator)) is Some implies exists|
                    i: int,
                | 0 <= i < out@.len() && (#[trigger] out@[i]).locator@ == locator by {
                    if first_bytes(items@, n as int, locator) is None {
                        assert(out@[place as int].locator@ == locator);
                    }
                }
                assert forall|i: int| 0 <= i < out@.len() implies first_bytes(
                    items@,
                    n + 1,
                    (#[trigger] out@[i]).locator@,
                ) == Some(out@[i].bytes) by {
                    assert(first_bytes(items@, n as int, out@[i].locator@) == Some(out@[i].bytes));
                }
            }
        } else {
            proof {
                if first_bytes(items@, n as int, c.locator@) is Some {
                    let k = choose|k: int| 0 <= k < before.len() && (#[trigger] before[k]).locator@ == c.locator@;
                    lemma_before_total(locator_bytes(before[k]), text::utf8(c.locator@));
                    assert(false);
                }
            }
            out.insert(place, OrphanCandidate { locator: c.locator.clone(), bytes: c.bytes });
            proof {
                let put = out@[place as int];
                assert(put.locator@ == c.locator@ && put.bytes == c.bytes);
                assert(first_bytes(items@, n + 1, c.locator@) == Some(c.bytes));
                assert forall|i: int, j: int| 0 <= i < j < out@.len() implies bytes_before(
                    locator_bytes(#[trigger] out@[i]),
                    locator_bytes(#[trigger] out@[j]),
                ) by {
                    let x = if i < place {
                        i
                    } else {
                        i - 1
                    };
                    let y = if j < place {
                        j
                    } else {
                        j - 1
                    };
                    if i < place {
                        assert(out@[i] == before[i]);
                    } else if i > place {
                        assert(out@[i] == before[i - 1]);
                    }
                    if j < place {
                        assert(out@[j] == before[j]);
                    } else if j > place {
                        assert(out@[j] == before[j - 1]);
                    }
                    if i != place && j != place {
                        assert(bytes_before(locator_bytes(before[x]), locator_bytes(before[y])));
                    }
                }
                assert forall|i: int| 0 <= i < out@.len() implies first_bytes(
                    items@,
                    n + 1,
                    (#[trigger] out@[i]).locator@,
                ) == Some(out@[i].bytes) by {
                    if i < place {
                        assert(out@[i] == before[i]);
                        assert(first_bytes(items@, n as int, before[i].locator@) == Some(before[i].bytes));
                    } else if i > place {
                        assert(out@[i] == before[i - 1]);
                        assert(first_bytes(items@, n as int, before[i - 1].locator@) == Some(before[i - 1].bytes));
                    }
                }
                assert forall|locator: Seq<char>| (#[trigger] first_bytes(items@, n + 1, locator)) is Some implies exists|
                    i: int,
                | 0 <= i < out@.len() && (#[trigger] out@[i]).locator@ == locator by {
                    if first_bytes(items@, n as int, locator) is Some {
                        let k = choose|k: int| 0 <= k < before.len() && (#[trigger] before[k]).locator@ == locator;
                        if k < place {
                            assert(out@[k] == before[k]);
                        } else {
                            assert(out@[k + 1] == before[k]);
                        }
                    } else {
                        assert(out@[place as int].locator@ == locator);
                    }
                }
            }
        }
        n += 1;
    }
    out
}

/// A forgotten file that an earlier scan claimed, as the store returns it.
pub struct RecoveredRow {
    pub locator: String,
    pub ciphertext_length: i64,
}

/// The rows whose length can be read, in order.
pub open spec fn readable_rows(rows: Seq<RecoveredRow>) -> Seq<(Seq<char>, int)>
    decreases rows.len(),
{
    if rows.len() == 0 {
        Seq::empty()
    } else {
        let before = readable_rows(rows.drop_last());
        if rows.last().ciphertext_length < 0 {
            before
        } else {
            before.push((rows.last().locator@, rows.last().ciphertext_length as int))
        }
    }
}

/// Candidates as text and numbers.
pub open spec fn candidate_views(items: Seq<OrphanCandidate>) -> Seq<(Seq<char>, int)> {
    Seq::new(items.len(), |i: int| (items[i].locator@, items[i].bytes as int))
}

/// What earlier scans left claimed is taken over in order, without the rows whose length cannot
/// be read.
pub proof fn law_unreadable_rows_are_left_out(rows: Seq<RecoveredRow>)
    ensures
        readable_rows(rows) == rows.filter(|row: RecoveredRow| row.ciphertext_length >= 0).map_values(
            |row: RecoveredRow| (row.locator@, row.ciphertext_length as int),
        ),
    decreases rows.len(),
{
    let keep = |row: RecoveredRow| row.ciphertext_length >= 0;
    let read = |row: RecoveredRow| (row.locator@, row.ciphertext_length as int);
    reveal(Seq::filter);
    if rows.len() > 0 {
        law_unreadable_rows_are_left_out(rows.drop_last());
        let before = rows.drop_last().filter(keep);
        if keep(rows.last()) {
            assert(before.push(rows.last()).map_values(read) =~= before.map_values(read).push(read(rows.last())));
        }
        assert(readable_rows(rows) =~= rows.filter(keep).map_values(read));
    } else {
        assert(readable_rows(rows) =~= rows.filter(keep).map_values(read));
    }
}

/// Takes over what earlier scans left claimed. A row whose length cannot be read is
/// left out.
pub fn recovered_candidates(rows: &Vec<RecoveredRow>) -> (r: Vec<OrphanCandidate>)
    ensures
        candidate_views(r@) == readable_rows(rows@),
        r@.len() <= rows@.len(),
{
    let mut out: Vec<OrphanCandidate> = Vec::new();
    let mut i: usize = 0;
    assert(rows@.subrange(0, 0) =~= Seq::<RecoveredRow>::empty());
    assert(candidate_views(out@) =~= Seq::<(Seq<char>, int)>::empty());
    while i < rows.len()
        invariant
            i <= rows@.len(),
            out@.len() <= i,
            candidate_views(out@) == readable_rows(rows@.subrange(0, i as int)),
        decreases rows@.len() - i,
    {
        let row = &rows[i];
        proof {
            let step = rows@.subrange(0, i + 1);
            assert(step.drop_last() =~= rows@.subrange(0, i as int));
            assert(step.last() == rows@[i as int]);
        }
        if row.ciphertext_length >= 0 {
            let ghost before = out@;
            out.push(OrphanCandidate { locator: row.locator.clone(), bytes: row.ciphertext_length as u64 });
            assert(candidate_views(out@) =~= candidate_views(before).push(
                (row.locator@, row.ciphertext_length as int),
            ));
        }
        i += 1;
    }
    assert(rows@.subrange(0, i as int) =~= rows@);
    out
}

/// How many more files are looked for once earlier claims were taken over.
pub fn orphans_to_enumerate(batch: usize, recovered: usize) -> (r: Option<usize>)
    ensures
        r == (if recovered < batch {
            Some((batch - recovered) as usize)
        } else {
            None
        }),
        r matches Some(more) ==> more > 0 && recovered + more == batch,
        r is None ==> recovered >= batch,
{
    if recovered < batch {
        Some(batch - recovered)
    } else {
        None
    }
}

/// What a scan writes to claim a forgotten file.
pub struct OrphanClaim {
    pub locator_digest: String,
    pub ciphertext_length: i64,
    pub claim_token: String,
}

/// Claims a forgotten file under a token drawn from random bytes.
pub fn claim_orphan(candidate: &OrphanCandidate, random: &[u8]) -> (r: OrphanClaim)
    ensures
        r.locator_digest@ == crypto::content_digest_of(text::utf8(candidate.locator@)),
        r.ciphertext_length == quota::clamp_i64(candidate.bytes),
        r.claim_token@ == crypto::content_digest_of(random@),
{
    OrphanClaim {
        locator_digest: crypto::text_digest(candidate.locator.as_str()),
        ciphertext_length: admission::clamp_stored(candidate.bytes),
        claim_token: crypto::content_digest(random),
    }
}

/// How many staged files a scan deleted, and how many bytes it gave back.
#[derive(Clone, Copy, Debug, PartialEq, Eq, Structural)]
pub struct StageOrphanCleanup {
    pub deleted: u64,
    pub refunded_bytes: u64,
}

/// The bytes given back after one more file.
pub open spec fn refunded_total(before: u64, bytes: i64) -> int {
    let gained = if bytes < 0 {
        0
    } else {
        bytes as int
    };
    if before + gained > u64::MAX {
        u64::MAX as int
    } else {
        before + gained
    }
}

/// How far the cleanup of one file has come.
#[derive(Clone, Copy, Debug, PartialEq, Eq, Structural)]
pub enum OrphanStage {
    /// The file is fenced, and whether it is in use is looked up.
    Fencing,
    /// The claim is written and committed.
    Claiming,
    /// The file is deleted. One that is gone already counts as deleted.
    Deleting,
    /// Whether the claim is still held is looked up.
    Owning,
    /// The audit is written.
    Auditing { durable_bytes: i64 },
    /// The claim is closed and committed.
    Finalizing { durable_bytes: i64, inserted: bool },
    /// The file was left alone.
    Skipped,
    /// The file was cleaned up.
    Done,
    /// The claim was lost while it was closed; the scan fails.
    Lost,
}

/// What happened in the cleanup of one file.
#[derive(Clone, Copy, Debug, PartialEq, Eq, Structural)]
pub enum OrphanEvent {
    /// The file is fenced, and in use or not.
    Fenced { live: bool },
    /// The claim was written, or another scan holds one.
    Claimed { won: bool },
    /// The file is gone.
    Deleted,
    /// The claim is still held, with the length on record, or not.
    Owned { durable_bytes: Option<i64> },
    /// The audit was written, or was there already.
    Audited { inserted: bool },
    /// The claim was closed in as many rows.
    Finalized { rows: u64 },
}

/// The cleanup of one file, and what the scan achieved so far.
#[derive(Clone, Copy, Debug, PartialEq, Eq, Structural)]
pub struct OrphanRun {
    pub stage: OrphanStage,
    pub total: StageOrphanCleanup,
}

/// The stage that an event leads to. An event that does not belong to a stage changes
/// nothing.
pub open spec fn next_stage(stage: OrphanStage, event: OrphanEvent) -> OrphanStage {
    match (stage, event) {
        (OrphanStage::Fencing, OrphanEvent::Fenced { live }) => if live {
            OrphanStage::Skipped
        } else {
            OrphanStage::Claiming
        },
        (OrphanStage::Claiming, OrphanEvent::Claimed { won }) => if won {
            OrphanStage::Deleting
        } else {
            OrphanStage::Skipped
        },
        (OrphanStage::Deleting, OrphanEvent::Deleted) => OrphanStage::Owning,
        (OrphanStage::Owning, OrphanEvent::Owned { durable_bytes }) => match durable_bytes {
            Some(bytes) => OrphanStage::Auditing { durable_bytes: bytes },
            None => OrphanStage::Skipped,
        },
        (OrphanStage::Auditing { durable_bytes }, OrphanEvent::Audited { inserted }) => OrphanStage::Finalizing {
            durable_bytes,
            inserted,
        },
        (OrphanStage::Finalizing { durable_bytes, inserted }, OrphanEvent::Finalized { rows }) => if rows == 1 {
            OrphanStage::Done
        } else {
            OrphanStage::Lost
        },
        (_, _) => stage,
    }
}

/// What the scan achieved after an event: a file counts once its claim is closed, and
/// only where its audit is new.
pub open spec fn next_total(run: OrphanRun, event: OrphanEvent) -> StageOrphanCleanup {
    match (run.stage, event) {
        (OrphanStage::Finalizing { durable_bytes, inserted }, OrphanEvent::Finalized { rows }) => if rows == 1
            && inserted {
            StageOrphanCleanup {
                deleted: (run.total.deleted + 1) as u64,
                refunded_bytes: refunded_total(run.total.refunded_bytes, durable_bytes) as u64,
            }
        } else {
            run.total
        },
        (_, _) => run.total,
    }
}

impl OrphanRun {
    /// The cleanup of the next file.
    pub fn start(total: StageOrphanCleanup) -> (r: OrphanRun)
        ensures
            r == (OrphanRun { stage: OrphanStage::Fencing, total }),
    {
        OrphanRun { stage: OrphanStage::Fencing, total }
    }

    /// Takes one step.
    pub fn advance(self, event: OrphanEvent) -> (r: OrphanRun)
        requires
            self.total.deleted < u64::MAX,
        ensures
            r == (OrphanRun { stage: next_stage(self.stage, event), total: next_total(self, event) }),
    {
        match (self.stage, event) {
            (OrphanStage::Fencing, OrphanEvent::Fenced { live }) => if live {
                OrphanRun { stage: OrphanStage::Skipped, total: self.total }
            } else {
                OrphanRun { stage: OrphanStage::Claiming, total: self.total }
            },
            (OrphanStage::Claiming, OrphanEvent::Claimed { won }) => if won {
                OrphanRun { stage: OrphanStage::Deleting, total: self.total }
            } else {
                OrphanRun { stage: OrphanStage::Skipped, total: self.total }
            },
            (OrphanStage::Deleting, OrphanEvent::Deleted) => OrphanRun { stage: OrphanStage::Owning, total: self.total },
            (OrphanStage::Owning, OrphanEvent::Owned { durable_bytes }) => match durable_bytes {
                Some(bytes) => OrphanRun {
                    stage: OrphanStage::Auditing { durable_bytes: bytes },
                    total: self.total,
                },
                None => OrphanRun { stage: OrphanStage::Skipped, total: self.total },
            },
            (OrphanStage::Auditing { durable_bytes }, OrphanEvent::Audited { inserted }) => OrphanRun {
                stage: OrphanStage::Finalizing { durable_bytes, inserted },
                total: self.total,
            },
            (OrphanStage::Finalizing { durable_bytes, inserted }, OrphanEvent::Finalized { rows }) => {
                if rows != 1 {
                    return OrphanRun { stage: OrphanStage::Lost, total: self.total };
                }
                if !inserted {
                    return OrphanRun { stage: OrphanStage::Done, total: self.total };
                }
                let gained: u64 = if durable_bytes < 0 {
                    0
                } else {
                    durable_bytes as u64
                };
                OrphanRun {
                    stage: OrphanStage::Done,
                    total: StageOrphanCleanup {
                        deleted: self.total.deleted + 1,
                        refunded_bytes: self.total.refunded_bytes.saturating_add(gained),
                    },
                }
            },
            (_, _) => self,
        }
    }

    /// How the scan goes on once nothing more happens to a file.
    pub fn outcome(self) -> (r: Result<StageOrphanCleanup, Fault>)
        ensures
            r == (if self.stage == OrphanStage::Lost {
                Err::<StageOrphanCleanup, Fault>(Fault::ArtifactOrphanOwnershipLost)
            } else {
                Ok(self.total)
            }),
    {
        match self.stage {
            OrphanStage::Lost => Err(Fault::ArtifactOrphanOwnershipLost),
            _ => Ok(self.total),
        }
    }
}

/// The run of a file after some events.
pub open spec fn after_events(run: OrphanRun, events: Seq<OrphanEvent>) -> OrphanRun
    decreases events.len(),
{
    if events.len() == 0 {
        run
    } else {
        let before = after_events(run, events.drop_last());
        OrphanRun { stage: next_stage(before.stage, events.last()), total: next_total(before, events.last()) }
    }
}

/// Whatever happens, a file is counted at most once, and only after it was cleaned up.
pub proof fn law_files_are_refunded_once(total: StageOrphanCleanup, events: Seq<OrphanEvent>)
    requires
        total.deleted < u64::MAX,
    ensures
        ({
            let run = after_events(OrphanRun { stage: OrphanStage::Fencing, total }, events);
            &&& run.total == total || (run.stage == OrphanStage::Done && run.total.deleted == total.deleted + 1)
            &&& run.stage != OrphanStage::Done ==> run.total == total
        }),
    decreases events.len(),
{
    if events.len() > 0 {
        law_files_are_refunded_once(total, events.drop_last());
    }
}

/// A file that is neither in use nor claimed by another scan, and whose claim is held to the
/// end, is cleaned up in six steps and counted with the bytes on record, unless its audit was
/// there before.
pub proof fn law_forgotten_files_are_cleaned_up(total: StageOrphanCleanup, bytes: i64, inserted: bool)
    requires
        total.deleted < u64::MAX,
        0 <= bytes,
        total.refunded_bytes + bytes <= u64::MAX,
    ensures
        ({
            let run = after_events(
                OrphanRun { stage: OrphanStage::Fencing, total },
                seq![
                    OrphanEvent::Fenced { live: false },
                    OrphanEvent::Claimed { won: true },
                    OrphanEvent::Deleted,
                    OrphanEvent::Owned { durable_bytes: Some(bytes) },
                    OrphanEvent::Audited { inserted },
                    OrphanEvent::Finalized { rows: 1 },
                ],
            );
            &&& run.stage == OrphanStage::Done
            &&& inserted ==> run.total.deleted == total.deleted + 1 && run.total.refunded_bytes == total.refunded_bytes
                + bytes
            &&& !inserted ==> run.total == total
        }),
{
    let events = seq![
        OrphanEvent::Fenced { live: false },
        OrphanEvent::Claimed { won: true },
        OrphanEvent::Deleted,
        OrphanEvent::Owned { durable_bytes: Some(bytes) },
        OrphanEvent::Audited { inserted },
        OrphanEvent::Finalized { rows: 1 },
    ];
    reveal_with_fuel(after_events, 7);
    assert(events.drop_last().drop_last().drop_last().drop_last().drop_last().drop_last().len() == 0);
    assert(events.drop_last().drop_last().drop_last().drop_last().drop_last().last() == events[0]);
    assert(events.drop_last().drop_last().drop_last().drop_last().last() == events[1]);
    assert(events.drop_last().drop_last().drop_last().last() == events[2]);
    assert(events.drop_last().drop_last().last() == events[3]);
    assert(events.drop_last().last() == events[4]);
}

/// A file is deleted only after its claim was won, and its claim is written only for a file that
/// is not in use; a file in use, and one that another scan holds, is left alone for good.
pub proof fn law_files_in_use_are_left_alone(stage: OrphanStage, event: OrphanEvent)
    ensures
        next_stage(stage, event) == OrphanStage::Claiming && stage != OrphanStage::Claiming ==> stage
            == OrphanStage::Fencing && event == (OrphanEvent::Fenced { live: false }),
        next_stage(stage, event) == OrphanStage::Deleting && stage != OrphanStage::Deleting ==> stage
            == OrphanStage::Claiming && event == (OrphanEvent::Claimed { won: true }),
        next_stage(stage, event) == OrphanStage::Owning && stage != OrphanStage::Owning ==> stage
            == OrphanStage::Deleting && event == OrphanEvent::Deleted,
        next_stage(stage, event) is Auditing && !(stage is Auditing) ==> stage == OrphanStage::Owning && event == (
        OrphanEvent::Owned { durable_bytes: Some(next_stage(stage, event)->Auditing_durable_bytes) }),
        next_stage(stage, event) is Finalizing && !(stage is Finalizing) ==> stage is Auditing && event is Audited
            && next_stage(stage, event)->Finalizing_durable_bytes == stage->Auditing_durable_bytes && next_stage(
            stage,
            event,
        )->Finalizing_inserted == event->Audited_inserted,
        next_stage(stage, event) == OrphanStage::Done && stage != OrphanStage::Done ==> stage is Finalizing && event
            == (OrphanEvent::Finalized { rows: 1 }),
        next_stage(stage, event) == OrphanStage::Lost && stage != OrphanStage::Lost ==> stage is Finalizing && event
            is Finalized && event->rows != 1,
        stage == OrphanStage::Fencing && event == (OrphanEvent::Fenced { live: true }) ==> next_stage(stage, event)
            == OrphanStage::Skipped,
        stage == OrphanStage::Claiming && event == (OrphanEvent::Claimed { won: false }) ==> next_stage(stage, event)
            == OrphanStage::Skipped,
        stage == OrphanStage::Owning && event == (OrphanEvent::Owned { durable_bytes: None }) ==> next_stage(
            stage,
            event,
        ) == OrphanStage::Skipped,
        stage is Finalizing && event is Finalized && event->rows != 1 ==> next_stage(stage, event) == OrphanStage::Lost,
        stage == OrphanStage::Skipped || stage == OrphanStage::Done || stage == OrphanStage::Lost ==> next_stage(
            stage,
            event,
        ) == stage,
{
}

/// The bytes given back add up, hold at the largest number, and an unreadable length gives
/// nothing back.
pub proof fn law_refunds_add_up(before: u64, bytes: i64)
    ensures
        0 <= bytes && before + bytes <= u64::MAX ==> refunded_total(before, bytes) == before + bytes,
        bytes <= 0 ==> refunded_total(before, bytes) == before,
        before + bytes > u64::MAX ==> refunded_total(before, bytes) == u64::MAX,
        before <= refunded_total(before, bytes) <= u64::MAX,
{
}

/// What is enumerated is enumerated once: no locator comes twice, every locator that was found is
/// there, nothing else is, and each comes with the size it was first found with.
pub proof fn law_orphans_are_enumerated_once(
    out: Seq<OrphanCandidate>,
    items: Seq<OrphanCandidate>,
    a: int,
    b: int,
    i: int,
)
    requires
        strictly_sorted(out),
        holds_first(out, items, items.len() as int),
        0 <= a < b < out.len(),
        0 <= i < items.len(),
    ensures
        out[a].locator@ != out[b].locator@,
        exists|k: int| 0 <= k < out.len() && (#[trigger] out[k]).locator@ == items[i].locator@,
        exists|k: int|
            0 <= k < items.len() && (#[trigger] items[k]).locator@ == out[a].locator@ && items[k].bytes == out[a].bytes,
{
    assert(bytes_before(locator_bytes(out[a]), locator_bytes(out[b])));
    if out[a].locator@ == out[b].locator@ {
        lemma_nothing_is_before_itself(locator_bytes(out[a]));
    }
    lemma_found_where_it_stands(items, items.len() as int, i);
    assert(first_bytes(items, items.len() as int, items[i].locator@) is Some);
    lemma_first_found(items, items.len() as int, out[a].locator@);
    assert(first_bytes(items, items.len() as int, out[a].locator@) == Some(out[a].bytes));
}

proof fn lemma_nothing_is_before_itself(a: Seq<u8>)
    ensures
        !bytes_before(a, a),
    decreases a.len(),
{
    if a.len() > 0 {
        lemma_nothing_is_before_itself(a.drop_first());
    }
}

proof fn lemma_found_where_it_stands(items: Seq<OrphanCandidate>, n: int, i: int)
    requires
        0 <= i < n <= items.len(),
    ensures
        first_bytes(items, n, items[i].locator@) is Some,
    decreases n,
{
    if i < n - 1 {
        lemma_found_where_it_stands(items, n - 1, i);
    }
}

proof fn lemma_first_found(items: Seq<OrphanCandidate>, n: int, locator: Seq<char>)
    requires
        0 <= n <= items.len(),
        first_bytes(items, n, locator) is Some,
    ensures
        exists|k: int|
            0 <= k < n && (#[trigger] items[k]).locator@ == locator && Some(items[k].bytes) == first_bytes(
                items,
                n,
                locator,
            ),
    decreases n,
{
    if n > 0 && first_bytes(items, n - 1, locator) is Some {
        lemma_first_found(items, n - 1, locator);
    } else {
        assert(items[n - 1].locator@ == locator);
    }
}

/// A backup is leased for at least ten milliseconds and at most a day.
pub proof fn law_backups_are_leased_for_a_day_at_most(duration: i64)
    ensures
        backup_duration_valid(duration) <==> duration >= 10 && duration <= 24 * 60 * 60 * 1000,
{
}

/// A corruption is recorded under the digest of what was found where: the tenant, the artifact and
/// the ciphertext, each between separators.
pub proof fn law_corruptions_are_named_for_what_was_found(tenant: Seq<char>, artifact: Seq<char>, ciphertext: Seq<char>)
    requires
        !tenant.contains('\0'),
        !artifact.contains('\0'),
        !ciphertext.contains('\0'),
    ensures
        exists|named: Seq<char>|
            detection_digest_of(tenant, artifact, ciphertext) == #[trigger] crypto::content_digest_of(text::utf8(named))
                && text::fields(named, '\0') == seq!["smesh-artifact-corruption/v1"@, tenant, artifact, ciphertext],
{
    reveal_strlit("smesh-artifact-corruption/v1\0");
    reveal_strlit("smesh-artifact-corruption/v1");
    reveal_strlit("\0");
    let lead = "smesh-artifact-corruption/v1"@;
    assert(!lead.contains('\0'));
    let named = "smesh-artifact-corruption/v1\0"@ + tenant + "\0"@ + artifact + "\0"@ + ciphertext;
    let c = artifact.push('\0') + ciphertext;
    let b = tenant.push('\0') + c;
    assert(named =~= lead.push('\0') + b);
    text::law_leading_fields_come_first(lead, '\0', b);
    text::law_leading_fields_come_first(tenant, '\0', c);
    text::law_leading_fields_come_first(artifact, '\0', ciphertext);
    assert(text::fields(named, '\0') =~= seq![lead, tenant, artifact, ciphertext]);
    assert(detection_digest_of(tenant, artifact, ciphertext) == crypto::content_digest_of(text::utf8(named)));
}

/// An artifact that is not quarantined is refused where its lease would outlive the clock, and then
/// where its nonce or its ciphertext is not sound.
pub proof fn law_unsound_artifacts_are_told_apart(row: ResolutionRow, now: i64, duration: i64)
    requires
        row.plaintext_length >= 0,
        row.state@ != "quarantined"@,
    ensures
        now + duration > i64::MAX ==> resolution_fault(row, now, duration) == Some(Fault::ArtifactLeaseOverflow),
        now + duration <= i64::MAX && (row.nonce@.len() != 12 || row.ciphertext_length < 0) ==> resolution_fault(
            row,
            now,
            duration,
        ) == Some(Fault::ArtifactMetadataCorrupt),
        now + duration <= i64::MAX && row.nonce@.len() == 12 && row.ciphertext_length >= 0 ==> resolution_fault(
            row,
            now,
            duration,
        ) is None,
{
}

} // verus!
