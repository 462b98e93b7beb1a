//! The names that a valid schema holds, each list in the order in which the
//! database reports it.

use vstd::prelude::*;

verus! {

/// How many tables there are.
pub const TABLE_COUNT: usize = 70;

/// The name of a table. Empty beyond the last.
pub open spec fn table_name_at(i: int) -> Seq<char> {
    if i == 0 {
        "artifact_backup_inventory"@
    } else if i == 1 {
        "artifact_backup_jobs"@
    } else if i == 2 {
        "artifact_backup_key_dependencies"@
    } else if i == 3 {
        "artifact_backup_leases"@
    } else if i == 4 {
        "artifact_chunks"@
    } else if i == 5 {
        "artifact_corruption_audits"@
    } else if i == 6 {
        "artifact_gc_jobs"@
    } else if i == 7 {
        "artifact_key_audits"@
    } else if i == 8 {
        "artifact_key_generations"@
    } else if i == 9 {
        "artifact_key_rotation_plans"@
    } else if i == 10 {
        "artifact_manifests"@
    } else if i == 11 {
        "artifact_migration_plans"@
    } else if i == 12 {
        "artifact_orphan_audits"@
    } else if i == 13 {
        "artifact_orphan_candidates"@
    } else if i == 14 {
        "artifact_read_leases"@
    } else if i == 15 {
        "artifact_reencryption_jobs"@
    } else if i == 16 {
        "artifact_references"@
    } else if i == 17 {
        "artifact_restore_jobs"@
    } else if i == 18 {
        "artifact_retention_holds"@
    } else if i == 19 {
        "artifact_tombstones"@
    } else if i == 20 {
        "audit_projection_control"@
    } else if i == 21 {
        "audit_projection_outbox"@
    } else if i == 22 {
        "audit_projection_session_secret"@
    } else if i == 23 {
        "audit_projection_sessions"@
    } else if i == 24 {
        "authorization_decisions"@
    } else if i == 25 {
        "authorization_retention_diagnostics"@
    } else if i == 26 {
        "callback_attempts"@
    } else if i == 27 {
        "callback_audits"@
    } else if i == 28 {
        "callback_configs"@
    } else if i == 29 {
        "callback_deliveries"@
    } else if i == 30 {
        "callback_enrollments"@
    } else if i == 31 {
        "callback_events"@
    } else if i == 32 {
        "callback_policy_snapshots"@
    } else if i == 33 {
        "callback_tenant_scheduler"@
    } else if i == 34 {
        "callback_worker_session_secret"@
    } else if i == 35 {
        "callback_worker_sessions"@
    } else if i == 36 {
        "cancellation_intents"@
    } else if i == 37 {
        "content_objects"@
    } else if i == 38 {
        "idempotency_records"@
    } else if i == 39 {
        "list_page_tokens"@
    } else if i == 40 {
        "list_snapshot_entries"@
    } else if i == 41 {
        "list_snapshots"@
    } else if i == 42 {
        "loopback_effects"@
    } else if i == 43 {
        "outbox"@
    } else if i == 44 {
        "outbox_attempts"@
    } else if i == 45 {
        "outbox_tenant_scheduler"@
    } else if i == 46 {
        "provenance_edges"@
    } else if i == 47 {
        "quota_allocations"@
    } else if i == 48 {
        "quota_buckets"@
    } else if i == 49 {
        "quota_denial_audits"@
    } else if i == 50 {
        "quota_execution_reservations"@
    } else if i == 51 {
        "quota_intents"@
    } else if i == 52 {
        "quota_leases"@
    } else if i == 53 {
        "quota_override_audits"@
    } else if i == 54 {
        "quota_policy_reconciliation_audits"@
    } else if i == 55 {
        "quota_policy_versions"@
    } else if i == 56 {
        "quota_receipts"@
    } else if i == 57 {
        "quota_request_receipts"@
    } else if i == 58 {
        "quota_reservations"@
    } else if i == 59 {
        "receiver_frames"@
    } else if i == 60 {
        "receiver_inbox"@
    } else if i == 61 {
        "retained_authority_usage"@
    } else if i == 62 {
        "schema_migrations"@
    } else if i == 63 {
        "store_identity"@
    } else if i == 64 {
        "store_metadata"@
    } else if i == 65 {
        "stream_frames"@
    } else if i == 66 {
        "stream_transcripts"@
    } else if i == 67 {
        "task_events"@
    } else if i == 68 {
        "tasks"@
    } else if i == 69 {
        "upload_intents"@
    } else {
        Seq::empty()
    }
}

/// The name of a table.
pub fn table_name(i: usize) -> (r: &'static str)
    requires
        i < TABLE_COUNT,
    ensures
        r@ == table_name_at(i as int),
{
    match i {
        0 => "artifact_backup_inventory",
        1 => "artifact_backup_jobs",
        2 => "artifact_backup_key_dependencies",
        3 => "artifact_backup_leases",
        4 => "artifact_chunks",
        5 => "artifact_corruption_audits",
        6 => "artifact_gc_jobs",
        7 => "artifact_key_audits",
        8 => "artifact_key_generations",
        9 => "artifact_key_rotation_plans",
        10 => "artifact_manifests",
        11 => "artifact_migration_plans",
        12 => "artifact_orphan_audits",
        13 => "artifact_orphan_candidates",
        14 => "artifact_read_leases",
        15 => "artifact_reencryption_jobs",
        16 => "artifact_references",
        17 => "artifact_restore_jobs",
        18 => "artifact_retention_holds",
        19 => "artifact_tombstones",
        20 => "audit_projection_control",
        21 => "audit_projection_outbox",
        22 => "audit_projection_session_secret",
        23 => "audit_projection_sessions",
        24 => "authorization_decisions",
        25 => "authorization_retention_diagnostics",
        26 => "callback_attempts",
        27 => "callback_audits",
        28 => "callback_configs",
        29 => "callback_deliveries",
        30 => "callback_enrollments",
        31 => "callback_events",
        32 => "callback_policy_snapshots",
        33 => "callback_tenant_scheduler",
        34 => "callback_worker_session_secret",
        35 => "callback_worker_sessions",
        36 => "cancellation_intents",
        37 => "content_objects",
        38 => "idempotency_records",
        39 => "list_page_tokens",
        40 => "list_snapshot_entries",
        41 => "list_snapshots",
        42 => "loopback_effects",
        43 => "outbox",
        44 => "outbox_attempts",
        45 => "outbox_tenant_scheduler",
        46 => "provenance_edges",
        47 => "quota_allocations",
        48 => "quota_buckets",
        49 => "quota_denial_audits",
        50 => "quota_execution_reservations",
        51 => "quota_intents",
        52 => "quota_leases",
        53 => "quota_override_audits",
        54 => "quota_policy_reconciliation_audits",
        55 => "quota_policy_versions",
        56 => "quota_receipts",
        57 => "quota_request_receipts",
        58 => "quota_reservations",
        59 => "receiver_frames",
        60 => "receiver_inbox",
        61 => "retained_authority_usage",
        62 => "schema_migrations",
        63 => "store_identity",
        64 => "store_metadata",
        65 => "stream_frames",
        66 => "stream_transcripts",
        67 => "task_events",
        68 => "tasks",
        _ => "upload_intents",
    }
}

/// How many indexes there are that no constraint made.
pub const INDEX_COUNT: usize = 67;

/// The name of an index that no constraint made. Empty beyond the last.
pub open spec fn index_name_at(i: int) -> Seq<char> {
    if i == 0 {
        "artifact_backup_jobs_active"@
    } else if i == 1 {
        "artifact_backup_leases_active"@
    } else if i == 2 {
        "artifact_gc_jobs_due"@
    } else if i == 3 {
        "artifact_gc_jobs_one_active"@
    } else if i == 4 {
        "artifact_manifests_object"@
    } else if i == 5 {
        "artifact_manifests_resolve"@
    } else if i == 6 {
        "artifact_migration_checkpoint"@
    } else if i == 7 {
        "artifact_migration_one_active"@
    } else if i == 8 {
        "artifact_orphan_candidates_due"@
    } else if i == 9 {
        "artifact_read_leases_active"@
    } else if i == 10 {
        "artifact_reencryption_due"@
    } else if i == 11 {
        "artifact_references_gc"@
    } else if i == 12 {
        "artifact_references_resolve"@
    } else if i == 13 {
        "artifact_restore_one_enabled_identity"@
    } else if i == 14 {
        "artifact_retention_holds_active"@
    } else if i == 15 {
        "audit_projection_authorization_source"@
    } else if i == 16 {
        "audit_projection_claim"@
    } else if i == 17 {
        "audit_projection_tenant_claim"@
    } else if i == 18 {
        "authorization_decisions_actor_time"@
    } else if i == 19 {
        "authorization_decisions_projection_source"@
    } else if i == 20 {
        "authorization_decisions_resource_time"@
    } else if i == 21 {
        "authorization_decisions_tenant_time"@
    } else if i == 22 {
        "callback_audits_tenant_time"@
    } else if i == 23 {
        "callback_configs_task_list"@
    } else if i == 24 {
        "callback_configs_task_state"@
    } else if i == 25 {
        "callback_deliveries_claim"@
    } else if i == 26 {
        "callback_deliveries_due"@
    } else if i == 27 {
        "callback_deliveries_tenant_due"@
    } else if i == 28 {
        "callback_enrollments_url"@
    } else if i == 29 {
        "callback_tenant_scheduler_turn"@
    } else if i == 30 {
        "cancellation_intents_dispatch_requested"@
    } else if i == 31 {
        "cancellation_intents_task"@
    } else if i == 32 {
        "content_objects_dedupe"@
    } else if i == 33 {
        "content_objects_gc_due"@
    } else if i == 34 {
        "idempotency_records_task"@
    } else if i == 35 {
        "list_page_tokens_snapshot"@
    } else if i == 36 {
        "list_snapshots_expiry"@
    } else if i == 37 {
        "outbox_due"@
    } else if i == 38 {
        "outbox_leased_tenant_due"@
    } else if i == 39 {
        "outbox_pending_tenant_due"@
    } else if i == 40 {
        "outbox_task_state"@
    } else if i == 41 {
        "outbox_tenant_scheduler_eligible"@
    } else if i == 42 {
        "provenance_edges_parent"@
    } else if i == 43 {
        "quota_allocations_task_active"@
    } else if i == 44 {
        "quota_buckets_scope_lookup"@
    } else if i == 45 {
        "quota_denial_audits_expiry"@
    } else if i == 46 {
        "quota_execution_reservations_task_state"@
    } else if i == 47 {
        "quota_leases_gc"@
    } else if i == 48 {
        "quota_leases_scope_active"@
    } else if i == 49 {
        "quota_override_audits_expiry"@
    } else if i == 50 {
        "quota_policy_one_active"@
    } else if i == 51 {
        "quota_receipts_scope_lookup"@
    } else if i == 52 {
        "quota_request_receipts_mutation_lookup"@
    } else if i == 53 {
        "quota_reservations_principal_state"@
    } else if i == 54 {
        "receiver_inbox_reclaim"@
    } else if i == 55 {
        "retained_authority_usage_principal"@
    } else if i == 56 {
        "stream_transcripts_task"@
    } else if i == 57 {
        "task_events_task_revision"@
    } else if i == 58 {
        "tasks_context_state_time"@
    } else if i == 59 {
        "tasks_tenant_context_time_v6"@
    } else if i == 60 {
        "tasks_tenant_owner_context_state_time_v6"@
    } else if i == 61 {
        "tasks_tenant_owner_context_time_v6"@
    } else if i == 62 {
        "tasks_tenant_owner_state_time_v6"@
    } else if i == 63 {
        "tasks_tenant_owner_time_v6"@
    } else if i == 64 {
        "tasks_tenant_state_time_v6"@
    } else if i == 65 {
        "tasks_tenant_time_v6"@
    } else if i == 66 {
        "upload_intents_due"@
    } else {
        Seq::empty()
    }
}

/// The name of an index that no constraint made.
pub fn index_name(i: usize) -> (r: &'static str)
    requires
        i < INDEX_COUNT,
    ensures
        r@ == index_name_at(i as int),
{
    match i {
        0 => "artifact_backup_jobs_active",
        1 => "artifact_backup_leases_active",
        2 => "artifact_gc_jobs_due",
        3 => "artifact_gc_jobs_one_active",
        4 => "artifact_manifests_object",
        5 => "artifact_manifests_resolve",
        6 => "artifact_migration_checkpoint",
        7 => "artifact_migration_one_active",
        8 => "artifact_orphan_candidates_due",
        9 => "artifact_read_leases_active",
        10 => "artifact_reencryption_due",
        11 => "artifact_references_gc",
        12 => "artifact_references_resolve",
        13 => "artifact_restore_one_enabled_identity",
        14 => "artifact_retention_holds_active",
        15 => "audit_projection_authorization_source",
        16 => "audit_projection_claim",
        17 => "audit_projection_tenant_claim",
        18 => "authorization_decisions_actor_time",
        19 => "authorization_decisions_projection_source",
        20 => "authorization_decisions_resource_time",
        21 => "authorization_decisions_tenant_time",
        22 => "callback_audits_tenant_time",
        23 => "callback_configs_task_list",
        24 => "callback_configs_task_state",
        25 => "callback_deliveries_claim",
        26 => "callback_deliveries_due",
        27 => "callback_deliveries_tenant_due",
        28 => "callback_enrollments_url",
        29 => "callback_tenant_scheduler_turn",
        30 => "cancellation_intents_dispatch_requested",
        31 => "cancellation_intents_task",
        32 => "content_objects_dedupe",
        33 => "content_objects_gc_due",
        34 => "idempotency_records_task",
        35 => "list_page_tokens_snapshot",
        36 => "list_snapshots_expiry",
        37 => "outbox_due",
        38 => "outbox_leased_tenant_due",
        39 => "outbox_pending_tenant_due",
        40 => "outbox_task_state",
        41 => "outbox_tenant_scheduler_eligible",
        42 => "provenance_edges_parent",
        43 => "quota_allocations_task_active",
        44 => "quota_buckets_scope_lookup",
        45 => "quota_denial_audits_expiry",
        46 => "quota_execution_reservations_task_state",
        47 => "quota_leases_gc",
        48 => "quota_leases_scope_active",
        49 => "quota_override_audits_expiry",
        50 => "quota_policy_one_active",
        51 => "quota_receipts_scope_lookup",
        52 => "quota_request_receipts_mutation_lookup",
        53 => "quota_reservations_principal_state",
        54 => "receiver_inbox_reclaim",
        55 => "retained_authority_usage_principal",
        56 => "stream_transcripts_task",
        57 => "task_events_task_revision",
        58 => "tasks_context_state_time",
        59 => "tasks_tenant_context_time_v6",
        60 => "tasks_tenant_owner_context_state_time_v6",
        61 => "tasks_tenant_owner_context_time_v6",
        62 => "tasks_tenant_owner_state_time_v6",
        63 => "tasks_tenant_owner_time_v6",
        64 => "tasks_tenant_state_time_v6",
        65 => "tasks_tenant_time_v6",
        _ => "upload_intents_due",
    }
}

/// How many functions run with the rights of their owner.
pub const DEFINER_COUNT: usize = 31;

/// The name of a function that runs with the rights of its owner. Empty beyond the last.
pub open spec fn definer_name_at(i: int) -> Seq<char> {
    if i == 0 {
        "artifact_inline_migration_required"@
    } else if i == 1 {
        "artifact_restore_incomplete"@
    } else if i == 2 {
        "artifact_stage_locator_live"@
    } else if i == 3 {
        "audit_projection_session_valid"@
    } else if i == 4 {
        "authority_diagnostics_bounded"@
    } else if i == 5 {
        "authority_retained_scopes_bounded"@
    } else if i == 6 {
        "authority_tenants_bounded"@
    } else if i == 7 {
        "callback_worker_session_valid"@
    } else if i == 8 {
        "cancel_callback_config_deliveries"@
    } else if i == 9 {
        "cancellation_requested_bounded"@
    } else if i == 10 {
        "claim_artifact_gc"@
    } else if i == 11 {
        "claim_artifact_reencryption"@
    } else if i == 12 {
        "claim_artifact_upload"@
    } else if i == 13 {
        "claim_audit_projection"@
    } else if i == 14 {
        "claim_callback_deliveries"@
    } else if i == 15 {
        "claim_outbox_bounded"@
    } else if i == 16 {
        "cleanup_audit_projection"@
    } else if i == 17 {
        "cleanup_authorization_decisions"@
    } else if i == 18 {
        "commit_audit_projection"@
    } else if i == 19 {
        "enqueue_audit_projection"@
    } else if i == 20 {
        "enqueue_callback_audit_projection"@
    } else if i == 21 {
        "enqueue_terminal_callbacks"@
    } else if i == 22 {
        "ensure_outbox_tenant_scheduler"@
    } else if i == 23 {
        "fail_audit_projection"@
    } else if i == 24 {
        "finish_callback_delivery"@
    } else if i == 25 {
        "gc_quota_authority_bounded"@
    } else if i == 26 {
        "mark_authorization_projection_requirement"@
    } else if i == 27 {
        "record_callback_audit"@
    } else if i == 28 {
        "register_audit_projection_session"@
    } else if i == 29 {
        "register_callback_worker_session"@
    } else if i == 30 {
        "renew_callback_delivery"@
    } else {
        Seq::empty()
    }
}

/// The name of a function that runs with the rights of its owner.
pub fn definer_name(i: usize) -> (r: &'static str)
    requires
        i < DEFINER_COUNT,
    ensures
        r@ == definer_name_at(i as int),
{
    match i {
        0 => "artifact_inline_migration_required",
        1 => "artifact_restore_incomplete",
        2 => "artifact_stage_locator_live",
        3 => "audit_projection_session_valid",
        4 => "authority_diagnostics_bounded",
        5 => "authority_retained_scopes_bounded",
        6 => "authority_tenants_bounded",
        7 => "callback_worker_session_valid",
        8 => "cancel_callback_config_deliveries",
        9 => "cancellation_requested_bounded",
        10 => "claim_artifact_gc",
        11 => "claim_artifact_reencryption",
        12 => "claim_artifact_upload",
        13 => "claim_audit_projection",
        14 => "claim_callback_deliveries",
        15 => "claim_outbox_bounded",
        16 => "cleanup_audit_projection",
        17 => "cleanup_authorization_decisions",
        18 => "commit_audit_projection",
        19 => "enqueue_audit_projection",
        20 => "enqueue_callback_audit_projection",
        21 => "enqueue_terminal_callbacks",
        22 => "ensure_outbox_tenant_scheduler",
        23 => "fail_audit_projection",
        24 => "finish_callback_delivery",
        25 => "gc_quota_authority_bounded",
        26 => "mark_authorization_projection_requirement",
        27 => "record_callback_audit",
        28 => "register_audit_projection_session",
        29 => "register_callback_worker_session",
        _ => "renew_callback_delivery",
    }
}

/// How many migrations there are.
pub const MIGRATION_COUNT: usize = 9;

/// The name of a migration, counted from zero. Empty beyond the last.
pub open spec fn migration_name_at(i: int) -> Seq<char> {
    if i == 0 {
        "0001_authority_schema_v6"@
    } else if i == 1 {
        "0002_quota_reservation_seam"@
    } else if i == 2 {
        "0003_receiver_sender_fence"@
    } else if i == 3 {
        "0004_distributed_quota_authority"@
    } else if i == 4 {
        "0005_artifact_authority"@
    } else if i == 5 {
        "0006_audit_projection"@
    } else if i == 6 {
        "0007_callback_authority"@
    } else if i == 7 {
        "0008_callback_policy_fence"@
    } else if i == 8 {
        "0009_authorization_audit_retention"@
    } else {
        Seq::empty()
    }
}

/// The name of a migration, counted from zero.
pub fn migration_name(i: usize) -> (r: &'static str)
    requires
        i < MIGRATION_COUNT,
    ensures
        r@ == migration_name_at(i as int),
{
    match i {
        0 => "0001_authority_schema_v6",
        1 => "0002_quota_reservation_seam",
        2 => "0003_receiver_sender_fence",
        3 => "0004_distributed_quota_authority",
        4 => "0005_artifact_authority",
        5 => "0006_audit_projection",
        6 => "0007_callback_authority",
        7 => "0008_callback_policy_fence",
        _ => "0009_authorization_audit_retention",
    }
}

/// How many tables hold rows of one tenant each.
pub const TENANT_TABLE_COUNT: usize = 59;

/// Whether a table belongs to no tenant.
pub open spec fn is_global_table(name: Seq<char>) -> bool {
    ||| name == "artifact_orphan_audits"@
    ||| name == "artifact_orphan_candidates"@
    ||| name == "audit_projection_control"@
    ||| name == "audit_projection_session_secret"@
    ||| name == "audit_projection_sessions"@
    ||| name == "callback_policy_snapshots"@
    ||| name == "callback_worker_session_secret"@
    ||| name == "callback_worker_sessions"@
    ||| name == "schema_migrations"@
    ||| name == "store_identity"@
    ||| name == "store_metadata"@
}

/// Whether a table belongs to no tenant.
pub fn global_table(name: &str) -> (r: bool)
    ensures
        r == is_global_table(name@),
{
    crate::text::same_text(name, "artifact_orphan_audits")
        || crate::text::same_text(name, "artifact_orphan_candidates")
        || crate::text::same_text(name, "audit_projection_control")
        || crate::text::same_text(name, "audit_projection_session_secret")
        || crate::text::same_text(name, "audit_projection_sessions")
        || crate::text::same_text(name, "callback_policy_snapshots")
        || crate::text::same_text(name, "callback_worker_session_secret")
        || crate::text::same_text(name, "callback_worker_sessions")
        || crate::text::same_text(name, "schema_migrations")
        || crate::text::same_text(name, "store_identity")
        || crate::text::same_text(name, "store_metadata")
}

/// Whether a function of its owner keeps row security on.
pub open spec fn keeps_row_security(name: Seq<char>) -> bool {
    ||| name == "claim_artifact_upload"@
    ||| name == "claim_artifact_gc"@
    ||| name == "claim_artifact_reencryption"@
    ||| name == "artifact_stage_locator_live"@
    ||| name == "artifact_inline_migration_required"@
    ||| name == "artifact_restore_incomplete"@
}

/// Whether a function of its owner keeps row security on.
pub fn row_secured(name: &str) -> (r: bool)
    ensures
        r == keeps_row_security(name@),
{
    crate::text::same_text(name, "claim_artifact_upload")
        || crate::text::same_text(name, "claim_artifact_gc")
        || crate::text::same_text(name, "claim_artifact_reencryption")
        || crate::text::same_text(name, "artifact_stage_locator_live")
        || crate::text::same_text(name, "artifact_inline_migration_required")
        || crate::text::same_text(name, "artifact_restore_incomplete")
}

} // verus!
