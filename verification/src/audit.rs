//! Authorization audits, their projection and retention, and diagnostics.

use vstd::prelude::*;

use crate::crypto;
use crate::fault::Fault;
use crate::operators;
use crate::store_config::{AuthorizationAuditCleanup, PostgresStoreConfig, PostgresStoreError};
use crate::text;

verus! {

/// The reason that is recorded with a decision.
#[derive(Clone, Copy, Debug, PartialEq, Eq, Structural)]
pub enum AuditReason {
    VisibleResource,
    ResourceUnavailable,
    VisibleSet,
    IdempotentReplay,
    AdmissionCommitted,
    ContinuationReplay,
    ContinuationCommitted,
    CancellationRequested,
    CancellationCommitted,
}

/// The recorded text of a reason.
pub open spec fn reason_text(reason: AuditReason) -> Seq<char> {
    match reason {
        AuditReason::VisibleResource => "visible_resource"@,
        AuditReason::ResourceUnavailable => "resource_unavailable"@,
        AuditReason::VisibleSet => "visible_set"@,
        AuditReason::IdempotentReplay => "idempotent_replay"@,
        AuditReason::AdmissionCommitted => "admission_committed"@,
        AuditReason::ContinuationReplay => "continuation_replay"@,
        AuditReason::ContinuationCommitted => "continuation_committed"@,
        AuditReason::CancellationRequested => "cancellation_requested"@,
        AuditReason::CancellationCommitted => "cancellation_committed"@,
    }
}

impl AuditReason {
    /// The recorded text of the reason.
    pub fn as_text(self) -> (r: &'static str)
        ensures
            r@ == reason_text(self),
    {
        match self {
            AuditReason::VisibleResource => "visible_resource",
            AuditReason::ResourceUnavailable => "resource_unavailable",
            AuditReason::VisibleSet => "visible_set",
            AuditReason::IdempotentReplay => "idempotent_replay",
            AuditReason::AdmissionCommitted => "admission_committed",
            AuditReason::ContinuationReplay => "continuation_replay",
            AuditReason::ContinuationCommitted => "continuation_committed",
            AuditReason::CancellationRequested => "cancellation_requested",
            AuditReason::CancellationCommitted => "cancellation_committed",
        }
    }

    /// Whether the decision allows: only a resource that cannot be had is denied.
    pub fn allows(self) -> (r: bool)
        ensures
            r == (self != AuditReason::ResourceUnavailable),
    {
        match self {
            AuditReason::ResourceUnavailable => false,
            _ => true,
        }
    }
}

/// The longest retention: ten years of milliseconds.
pub const MAX_RETENTION_MILLIS: i64 = 315_576_000_000;

/// The effect of a decision and the revision of its policy, as they are stored.
pub fn insert_audit_parts(allow: bool, policy_revision: u64) -> (r: Result<(&'static str, i64), Fault>)
    ensures
        match r {
            Err(e) => policy_revision > i64::MAX && e == Fault::PolicyRevisionTooLarge,
            Ok(stored) => {
                &&& policy_revision == stored.1
                &&& stored.0@ == (if allow {
                    "allow"@
                } else {
                    "deny"@
                })
            },
        },
        r is Ok <==> policy_revision <= 0x7fff_ffff_ffff_ffff,
        r is Ok && allow ==> r->Ok_0.0@ == "allow"@,
        r is Ok && !allow ==> r->Ok_0.0@ == "deny"@,
{
    if policy_revision > 0x7fff_ffff_ffff_ffff {
        return Err(Fault::PolicyRevisionTooLarge);
    }
    let effect = if allow {
        "allow"
    } else {
        "deny"
    };
    Ok((effect, policy_revision as i64))
}

/// The digest under which a resource appears in audits: it tells nobody without the
/// key which resource it was.
pub open spec fn resource_digest_of(key: Seq<u8>, resource: Seq<char>) -> Seq<char> {
    crypto::content_digest_of(
        crypto::hmac_sha256_of(key, text::utf8("smesh-authorization-resource-v1\0"@) + text::utf8(resource)),
    )
}

/// Computes the digest under which a resource appears in audits.
pub fn authorization_resource_digest(key: &[u8; 32], resource: &str) -> (r: String)
    ensures
        r@ == resource_digest_of(key@, resource@),
{
    let mut input = text::copy_bytes("smesh-authorization-resource-v1\0".as_bytes());
    text::push_bytes(&mut input, resource.as_bytes());
    let tag: [u8; 32] = crypto::hmac_sha256(key.as_slice(), input.as_slice());
    crypto::content_digest(tag.as_slice())
}

/// Whether audits may be claimed for projection. `owner_valid` tells whether the
/// owner's name is well formed.
pub fn claim_audit_projection(enabled: bool, owner_valid: bool, lease_duration: i64, limit: usize) -> (r: Result<
    i32,
    Fault,
>)
    ensures
        r == (if enabled && owner_valid && 1 <= lease_duration <= 300_000 && 1 <= limit <= 1000 {
            Ok::<i32, Fault>(limit as i32)
        } else {
            Err(Fault::InvalidAuditProjectionClaim)
        }),
        r is Ok ==> enabled && owner_valid && lease_duration >= 1 && lease_duration <= 5 * 60 * 1000 && limit >= 1 && limit
            <= 1000,
        r matches Ok(n) ==> n == limit,
{
    if !enabled || !owner_valid || lease_duration < 1 || lease_duration > 300_000 || limit < 1 || limit > 1000 {
        return Err(Fault::InvalidAuditProjectionClaim);
    }
    Ok(limit as i32)
}

/// An audit that was claimed for projection, as the store returns it. Where the store
/// names a source or a kind that is not known, it is missing.
pub struct ProjectionRow {
    pub tenant: String,
    pub source_known: bool,
    pub kind_known: bool,
    pub lease_epoch: i64,
    pub attempts: i32,
}

/// What is handed on of an audit that was claimed for projection: the tenant only by
/// its digest.
pub struct ProjectionClaim {
    pub tenant_digest: String,
    pub lease_epoch: u64,
    pub attempts: u32,
}

/// Reads an audit that was claimed for projection.
pub fn read_projection_row(row: &ProjectionRow) -> (r: Result<ProjectionClaim, Fault>)
    ensures
        match r {
            Err(e) => if !row.source_known {
                e == Fault::InvalidProjectionSource
            } else {
                !row.kind_known && e == Fault::InvalidProjectionKind
            },
            Ok(c) => {
                &&& row.source_known && row.kind_known
                &&& c.tenant_digest@ == crypto::content_digest_of(text::utf8(row.tenant@))
                &&& c.lease_epoch == count_of(row.lease_epoch)
                &&& c.attempts == (if row.attempts < 0 {
                    0
                } else {
                    row.attempts as int
                })
            },
        },
        r is Ok <==> row.source_known && row.kind_known,
        r matches Ok(c) ==> (row.attempts >= 0 ==> c.attempts == row.attempts) && (row.lease_epoch >= 0 ==> c.lease_epoch
            == row.lease_epoch),
{
    if !row.source_known {
        return Err(Fault::InvalidProjectionSource);
    }
    if !row.kind_known {
        return Err(Fault::InvalidProjectionKind);
    }
    Ok(
        ProjectionClaim {
            tenant_digest: crypto::text_digest(row.tenant.as_str()),
            lease_epoch: diagnostic_count(row.lease_epoch),
            attempts: if row.attempts < 0 {
                0
            } else {
                row.attempts as u32
            },
        },
    )
}

/// What a store offers of the projection of audits.
#[derive(Clone, Copy, Debug, PartialEq, Eq, Structural)]
pub struct AuditProjectionCapabilities {
    pub enabled: bool,
    pub starts_at_enable: bool,
}

/// What a store offers of the projection of audits. Audits from before it was enabled
/// are not projected.
pub fn audit_projection_capabilities(enabled: bool) -> (r: AuditProjectionCapabilities)
    ensures
        r == (AuditProjectionCapabilities { enabled, starts_at_enable: true }),
{
    AuditProjectionCapabilities { enabled, starts_at_enable: true }
}

/// The state that a projection was left in.
#[derive(Clone, Copy, Debug, PartialEq, Eq, Structural)]
pub enum AuditProjectionState {
    Pending,
    Leased,
    Dead,
}

/// Reads the state that a failed projection was left in. Anything unknown counts as
/// still leased.
pub fn fail_audit_projection(state: &str) -> (r: AuditProjectionState)
    ensures
        r == (if state@ == "pending"@ {
            AuditProjectionState::Pending
        } else if state@ == "dead"@ {
            AuditProjectionState::Dead
        } else {
            AuditProjectionState::Leased
        }),
{
    if text::same_text(state, "pending") {
        AuditProjectionState::Pending
    } else if text::same_text(state, "dead") {
        AuditProjectionState::Dead
    } else {
        AuditProjectionState::Leased
    }
}

/// Whether projected audits may be cleaned up in batches of this size.
pub fn cleanup_audit_projection(limit: usize) -> (r: Result<i32, Fault>)
    ensures
        r == (if 1 <= limit <= 1000 {
            Ok::<i32, Fault>(limit as i32)
        } else {
            Err(Fault::InvalidAuditProjectionCleanup)
        }),
        r is Ok <==> limit >= 1 && limit <= 1000,
        r matches Ok(n) ==> n == limit,
{
    if limit < 1 || limit > 1000 {
        return Err(Fault::InvalidAuditProjectionCleanup);
    }
    Ok(limit as i32)
}

/// What a cleanup of authorization audits is run with: whether the migrator is reached
/// without TLS, and how many audits a batch takes.
#[derive(Clone, Copy, Debug, PartialEq, Eq, Structural)]
pub struct RetentionCleanup {
    pub plaintext: bool,
    pub limit: i32,
}

/// Whether a cleanup of authorization audits is well formed.
pub open spec fn retention_allowed(tenant_valid: bool, retention: i64, limit: usize) -> bool {
    tenant_valid && 0 <= retention <= MAX_RETENTION_MILLIS && 1 <= limit <= 1000
}

/// What a cleanup is run with, given how the migrator is reached.
pub open spec fn retention_outcome(
    tenant_valid: bool,
    retention: i64,
    limit: usize,
    route: Result<bool, PostgresStoreError>,
) -> Result<RetentionCleanup, Fault> {
    if !retention_allowed(tenant_valid, retention, limit) {
        Err(Fault::InvalidAuthorizationRetention)
    } else {
        match route {
            Ok(plaintext) => Ok(RetentionCleanup { plaintext, limit: limit as i32 }),
            Err(_) => Err(Fault::AuthorizationRetentionConfigInvalid),
        }
    }
}

/// Whether authorization audits of a tenant may be cleaned up, given how the migrator is
/// reached.
pub fn cleanup_with_route(
    tenant_valid: bool,
    retention: i64,
    limit: usize,
    route: Result<bool, PostgresStoreError>,
) -> (r: Result<RetentionCleanup, Fault>)
    ensures
        r == retention_outcome(tenant_valid, retention, limit, route),
{
    if !tenant_valid || retention < 0 || retention > MAX_RETENTION_MILLIS || limit < 1 || limit > 1000 {
        return Err(Fault::InvalidAuthorizationRetention);
    }
    match route {
        Ok(plaintext) => Ok(RetentionCleanup { plaintext, limit: limit as i32 }),
        Err(_) => Err(Fault::AuthorizationRetentionConfigInvalid),
    }
}

/// Whether authorization audits of a tenant may be cleaned up. `tenant_valid` tells
/// whether the tenant's name is well formed.
pub fn cleanup_authorization_decisions(
    config: &PostgresStoreConfig,
    tenant_valid: bool,
    retention: i64,
    limit: usize,
) -> (r: Result<RetentionCleanup, Fault>)
    ensures
        r == retention_outcome(tenant_valid, retention, limit, operators::route_of(*config)),
{
    cleanup_with_route(tenant_valid, retention, limit, operators::reach_migrator(config))
}

/// A reported count, with a negative one read as none.
pub open spec fn count_of(n: i64) -> int {
    if n < 0 {
        0
    } else {
        n as int
    }
}

/// A reported count, with a negative one read as none.
pub fn diagnostic_count(n: i64) -> (r: u64)
    ensures
        r == count_of(n),
{
    if n < 0 {
        0
    } else {
        n as u64
    }
}

/// What the store reports of a retention batch.
pub struct RetentionRow {
    pub deleted: i64,
    pub projection_blocked: i64,
    pub has_more: bool,
    pub oldest_remaining: Option<i64>,
    pub cutoff: i64,
}

/// Reads what the store reports of a retention batch.
pub fn retention_report(row: &RetentionRow) -> (r: AuthorizationAuditCleanup)
    ensures
        r.deleted == count_of(row.deleted),
        r.projection_blocked == count_of(row.projection_blocked),
        r.has_more == row.has_more,
        r.oldest_remaining == row.oldest_remaining,
        r.cutoff == row.cutoff,
{
    AuthorizationAuditCleanup {
        deleted: diagnostic_count(row.deleted),
        projection_blocked: diagnostic_count(row.projection_blocked),
        has_more: row.has_more,
        oldest_remaining: row.oldest_remaining,
        cutoff: row.cutoff,
    }
}

/// A count that must not be negative.
pub fn checked_count(n: i64, corrupt: Fault) -> (r: Result<u64, Fault>)
    ensures
        r == (if n < 0 {
            Err::<u64, Fault>(corrupt)
        } else {
            Ok(n as u64)
        }),
{
    if n < 0 {
        return Err(corrupt);
    }
    Ok(n as u64)
}

/// The bytes that a tenant and a principal retain.
pub fn retained_authority_bytes(tenant_bytes: i64, principal_bytes: i64) -> (r: Result<(u64, u64), Fault>)
    ensures
        r == (if tenant_bytes < 0 {
            Err::<(u64, u64), Fault>(Fault::RetainedTenantCorrupt)
        } else if principal_bytes < 0 {
            Err(Fault::RetainedPrincipalCorrupt)
        } else {
            Ok((tenant_bytes as u64, principal_bytes as u64))
        }),
        r is Ok <==> tenant_bytes >= 0 && principal_bytes >= 0,
        r matches Ok(both) ==> both.0 == tenant_bytes && both.1 == principal_bytes,
{
    if tenant_bytes < 0 {
        return Err(Fault::RetainedTenantCorrupt);
    }
    if principal_bytes < 0 {
        return Err(Fault::RetainedPrincipalCorrupt);
    }
    Ok((tenant_bytes as u64, principal_bytes as u64))
}

/// Whether expired quota evidence may be deleted in batches of this size.
pub fn gc_quota_authority(max_rows: u32) -> (r: Result<i32, Fault>)
    ensures
        r == (if 1 <= max_rows <= 1000 {
            Ok::<i32, Fault>(max_rows as i32)
        } else {
            Err(Fault::QuotaGcBatch)
        }),
        r is Ok <==> max_rows >= 1 && max_rows <= 1000,
        r matches Ok(n) ==> n == max_rows,
{
    if max_rows < 1 || max_rows > 1000 {
        return Err(Fault::QuotaGcBatch);
    }
    Ok(max_rows as i32)
}

/// What a deletion of quota evidence reports.
pub fn quota_gc_report(removed: i32) -> (r: Result<u64, Fault>)
    ensures
        r == (if removed < 0 {
            Err::<u64, Fault>(Fault::QuotaGcCorrupt)
        } else {
            Ok(removed as u64)
        }),
{
    if removed < 0 {
        return Err(Fault::QuotaGcCorrupt);
    }
    Ok(removed as u64)
}

/// The units that a quota bucket reports as used.
pub fn quota_used_units(used: i64) -> (r: Result<u64, Fault>)
    ensures
        r == (if used < 0 {
            Err::<u64, Fault>(Fault::QuotaDiagnosticsCorrupt)
        } else {
            Ok(used as u64)
        }),
{
    checked_count(used, Fault::QuotaDiagnosticsCorrupt)
}

/// How many quota denials are on record.
pub fn quota_denial_count(count: i64) -> (r: Result<u64, Fault>)
    ensures
        r == (if count < 0 {
            Err::<u64, Fault>(Fault::QuotaDenialDiagnosticsCorrupt)
        } else {
            Ok(count as u64)
        }),
{
    checked_count(count, Fault::QuotaDenialDiagnosticsCorrupt)
}

/// How many records of each kind there are.
#[derive(Clone, Copy, Debug, PartialEq, Eq, Structural)]
pub struct AtomicRecordCounts {
    pub tasks: u64,
    pub events: u64,
    pub idempotency_records: u64,
    pub outbox: u64,
}

/// Reads how many records of each kind there are.
pub fn atomic_record_counts(tasks: i64, events: i64, idempotency_records: i64, outbox: i64) -> (r: AtomicRecordCounts)
    ensures
        r.tasks == count_of(tasks),
        r.events == count_of(events),
        r.idempotency_records == count_of(idempotency_records),
        r.outbox == count_of(outbox),
{
    AtomicRecordCounts {
        tasks: diagnostic_count(tasks),
        events: diagnostic_count(events),
        idempotency_records: diagnostic_count(idempotency_records),
        outbox: diagnostic_count(outbox),
    }
}

/// Different reasons are recorded as different texts.
pub proof fn law_reasons_have_their_own_texts(a: AuditReason, b: AuditReason)
    requires
        reason_text(a) == reason_text(b),
    ensures
        a == b,
{
    reveal_strlit("visible_resource");
    reveal_strlit("resource_unavailable");
    reveal_strlit("visible_set");
    reveal_strlit("idempotent_replay");
    reveal_strlit("admission_committed");
    reveal_strlit("continuation_replay");
    reveal_strlit("continuation_committed");
    reveal_strlit("cancellation_requested");
    reveal_strlit("cancellation_committed");
    assert("visible_resource"@.len() == 16);
    assert("resource_unavailable"@.len() == 20);
    assert("visible_set"@.len() == 11);
    assert("idempotent_replay"@.len() == 17);
    assert("admission_committed"@.len() == 19 && "admission_committed"@[0] == 'a');
    assert("continuation_replay"@.len() == 19 && "continuation_replay"@[0] == 'c');
    assert("continuation_committed"@.len() == 22 && "continuation_committed"@[1] == 'o');
    assert("cancellation_requested"@.len() == 22 && "cancellation_requested"@[13] == 'r');
    assert("cancellation_committed"@.len() == 22 && "cancellation_committed"@[13] == 'c');
    assert("continuation_committed"@[1] == 'o' && "cancellation_committed"@[1] == 'a' && "cancellation_requested"@[1]
        == 'a');
}

/// A cleanup of audits runs exactly for a well-formed tenant, at most ten years back and in batches
/// of at most a thousand, where the migrator can be reached; it then takes the batch that was asked
/// for and goes where the migrator is.
pub proof fn law_cleanups_are_bounded(
    tenant_valid: bool,
    retention: i64,
    limit: usize,
    route: Result<bool, PostgresStoreError>,
)
    ensures
        retention_outcome(tenant_valid, retention, limit, route) is Ok <==> tenant_valid && route is Ok && 0 <= retention
            <= 3652 * 86_400_000 + 43_200_000 && 1 <= limit <= 1000,
        retention_outcome(tenant_valid, retention, limit, route) matches Ok(c) ==> c.limit == limit && c.plaintext
            == route->Ok_0,
        !tenant_valid || retention < 0 || retention > 3652 * 86_400_000 + 43_200_000 || limit == 0 || limit > 1000
            ==> retention_outcome(tenant_valid, retention, limit, route) == Err::<RetentionCleanup, Fault>(
            Fault::InvalidAuthorizationRetention,
        ),
        tenant_valid && 0 <= retention <= 3652 * 86_400_000 + 43_200_000 && 1 <= limit <= 1000 && route is Err
            ==> retention_outcome(tenant_valid, retention, limit, route) == Err::<RetentionCleanup, Fault>(
            Fault::AuthorizationRetentionConfigInvalid,
        ),
{
}

/// A negative count is none, and every other count stands as it is.
pub proof fn law_counts_are_not_negative(n: i64)
    ensures
        count_of(n) >= 0,
        n >= 0 ==> count_of(n) == n,
        n <= 0 ==> count_of(n) == 0,
{
}

} // verus!
