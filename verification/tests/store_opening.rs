//! Opening an authority: its configuration, its schema, its records and its transactions.

use smesh_authority::catalog::{
    catalog_digest, migration_version, q, runtime_role, validate_artifact_semantics, validate_callback_semantics,
    validate_catalog, ArtifactImage, CallbackImage, CallbackPolicyRecord, CatalogImage, ChunkRow, DefinerRow,
    EdgeRow, ManifestRecord, MetadataRow, MigrationRow, PolicyRow,
    TableRow,
};
use smesh_authority::crypto::text_digest;
use smesh_authority::fault::Fault;
use smesh_authority::listing::{snapshot_metadata_digest, SealEntry, SnapshotHeader};
use smesh_authority::operators::drop_test_schema;
use smesh_authority::quota::{PolicyIdentity, QuotaDimension, QuotaScopeKind};
use smesh_authority::schema_names::{
    definer_name, global_table, index_name, migration_name, row_secured, table_name, DEFINER_COUNT, INDEX_COUNT,
    MIGRATION_COUNT, TABLE_COUNT, TENANT_TABLE_COUNT,
};
use smesh_authority::semantics::{
    reconciliation_id, validate_semantics, AuthorityImage, EventRecord, PayloadRecord, ReconciliationRecord,
    ReservationRecord, SnapshotEntryRecord, SnapshotRecord, TaskRecord, TranscriptRecord, ViolationCounts,
};
use smesh_authority::startup::{
    advance_opening, audit_reconciliation, callback_retained_oracle_total, carry_bucket, check_artifact_migration,
    check_migration_roles, check_startup, enrollments_complete, install_callback_policy,
    keyring_complete, migrate, open, open_with_findings, projection_enabled, quota_dimension_from_str, quota_dimension_name, quota_scope_from_str,
    quota_scope_name, reload_artifact_keyring,
    reconcile_callback_policy, reconcile_quota_policy, removed_enrollments_drained, render_migration,
    retained_scopes, retained_within_limit, set_tenant, store_identity, validate_runtime_login, ActivePolicy,
    AppliedMigration, ArtifactMigrationImage, CallbackPolicyFacts, CallbackReconciliation, CarriedBucket,
    LoginImage, Membership, MigrationRoles, MigrationStep, OldBucket, OpenStage, PlanOrigin, QuotaReconciliation,
    ReachedRole, ReconciliationPlan, RetainedCount, RoleAttributes, SealedMetadata, SiblingMembership,
    StartupImage, StoredCallbackPolicy, StoredQuotaPolicy, TenantImage, UrlFindings,
};
use smesh_authority::store_config::{valid_identifier, PostgresStoreConfig, PostgresStoreError};
use smesh_authority::task::{state_key, Task, TaskState, TaskStatus};
use smesh_authority::transaction::{
    transaction_body_error, ArtifactPublicationTestFault, BodyFailure, PostgresTransactionTestFault, TestFaults,
    TransactionEvent, TransactionRun, TransactionStep,
};
use smesh_authority::transcript::{transcript_digest, TranscriptRow, TranscriptState};
use smesh_authority::weburl::UrlParts;

const MIGRATOR: &str = "postgres://migrator@localhost/db";
const RUNTIME: &str = "postgres://runtime@localhost/db";
const SEALED_MIGRATOR: &str = "postgres://migrator@db.example/db?sslmode=verify-full";
const SEALED_RUNTIME: &str = "postgresql://runtime@db.example/db?sslmode=require";
const REQUIRED_MIGRATOR: &str = "postgres://migrator@db.example/db?sslmode=require";

fn config(migrator: &str, runtime: &str) -> PostgresStoreConfig {
    PostgresStoreConfig::new(migrator.to_string(), runtime.to_string(), "mesh".to_string()).unwrap()
}

#[test]
fn configurations_name_two_logins() {
    let made = |migrator: &str, runtime: &str, schema: &str| {
        PostgresStoreConfig::new(migrator.to_string(), runtime.to_string(), schema.to_string()).err()
    };
    let invalid = Some(PostgresStoreError::InvalidConfig);
    assert_eq!(made(MIGRATOR, RUNTIME, "mesh"), None);
    assert_eq!(made(MIGRATOR, MIGRATOR, "mesh"), invalid);
    assert_eq!(made("", RUNTIME, "mesh"), invalid);
    assert_eq!(made(MIGRATOR, "https://runtime@localhost/db", "mesh"), invalid);
    assert_eq!(made(MIGRATOR, "postgres://localhost/db", "mesh"), invalid);
    assert_eq!(made(MIGRATOR, RUNTIME, "Mesh"), invalid);
    assert!(valid_identifier("mesh_1"));
    assert!(!valid_identifier("1mesh"));
    assert!(!valid_identifier(&"m".repeat(49)));
    assert_eq!(config(MIGRATOR, RUNTIME).schema_name(), "mesh");
}

#[test]
fn descriptions_hide_urls() {
    let plain = "PostgresStoreConfig { migrator_url: \"<redacted>\", runtime_url: \"<redacted>\", schema: \"mesh\", \
        pool_size: 4, connect_timeout: 5s, acquire_timeout: 5s, max_tasks: 1024, artifact_store_configured: false, \
        artifact_migration_plan_configured: false, artifact_migration_plan_file_configured: false, \
        trust_injected_time: false, audit_projection_enabled: false, quota_enforcement: false, \
        quota_policy_configured: false, push_policy_configured: false, \
        quota_reconciliation_plan_configured: false, test_cleanup_enabled: false, \
        test_only_insecure_loopback: false, transaction_test_fault_count: 0, \
        artifact_publication_test_fault_enabled: false, receiver_renewal_test_probe_enabled: false }";
    assert_eq!(config(MIGRATOR, RUNTIME).describe(), plain);
    assert_eq!(config(RUNTIME, MIGRATOR).describe(), plain);
    let loaded = config(MIGRATOR, RUNTIME)
        .with_timeouts(1_500_000_000, 250_000)
        .unwrap()
        .with_receiver_renewal_test_probe()
        .describe();
    assert!(loaded.contains("connect_timeout: 1.5s, acquire_timeout: 250\u{b5}s"));
    assert!(loaded.ends_with("receiver_renewal_test_probe_enabled: true }"));
}

#[test]
fn configurations_are_bounded() {
    let fresh = || config(MIGRATOR, RUNTIME);
    assert_eq!(fresh().pool_size, 4);
    assert_eq!(fresh().max_tasks, 1_024);
    assert_eq!(fresh().with_pool_size(32).unwrap().pool_size, 32);
    assert_eq!(fresh().with_pool_size(33).err(), Some(PostgresStoreError::InvalidConfig));
    assert_eq!(fresh().with_max_tasks(0).err(), Some(PostgresStoreError::InvalidConfig));
    assert_eq!(fresh().with_timeouts(1, 30_000_000_000).unwrap().acquire_timeout_nanos, 30_000_000_000);
    assert_eq!(fresh().with_timeouts(1, 30_000_000_001).err(), Some(PostgresStoreError::InvalidConfig));
    let built = fresh()
        .with_quota_policy()
        .with_artifact_migration_plan_file()
        .with_push_policy()
        .with_audit_projection(true)
        .with_artifact_store()
        .with_quota_reconciliation_plan()
        .with_transaction_test_faults(vec![PostgresTransactionTestFault::NonRetryable])
        .with_artifact_publication_test_fault(ArtifactPublicationTestFault::AfterManifest);
    assert!(built.quota_enforcement && built.quota_policy && built.artifact_migration_plan && built.push_policy);
    assert!(built.audit_projection_enabled && built.artifact_store && built.quota_reconciliation_plan);
    assert!(fresh().with_artifact_migration_plan().artifact_migration_plan);
    assert!(!built.with_quota_enforcement(false).quota_enforcement);
    let test = fresh().with_test_only_insecure_loopback(true);
    assert!(test.trust_injected_time && test.test_cleanup);
    let kept = test.with_test_only_parent_managed_cleanup();
    assert!(!kept.test_cleanup);
    assert!(!kept.with_test_only_trust_injected_time(false).trust_injected_time);
}

#[test]
fn production_requires_tls() {
    assert_eq!(config(SEALED_MIGRATOR, SEALED_RUNTIME).validate_tls_policy(), Ok(()));
    assert_eq!(config(MIGRATOR, RUNTIME).validate_tls_policy(), Err(PostgresStoreError::TlsRequired));
    let loopback = config(MIGRATOR, RUNTIME).with_test_only_insecure_loopback(true);
    assert_eq!(loopback.validate_tls_policy(), Ok(()));
    let remote = config("postgres://m@db.example/db", "postgres://r@db.example/db");
    assert_eq!(
        remote.with_test_only_insecure_loopback(true).validate_tls_policy(),
        Err(PostgresStoreError::TlsRequired)
    );
    let mixed = config(SEALED_MIGRATOR, RUNTIME).with_test_only_insecure_loopback(true);
    assert_eq!(mixed.validate_tls_policy(), Err(PostgresStoreError::InvalidConfig));
}

#[test]
fn injected_time_needs_loopback() {
    let plan = open(&config(MIGRATOR, RUNTIME).with_test_only_insecure_loopback(true)).unwrap();
    assert!(plan.plaintext);
    assert_eq!(plan.runtime_user, "runtime");
    assert_eq!(plan.runtime_options, "-c role=mesh_runtime");
    assert!(!open(&config(REQUIRED_MIGRATOR, SEALED_RUNTIME)).unwrap().plaintext);
    let trusting = config(REQUIRED_MIGRATOR, SEALED_RUNTIME).with_test_only_trust_injected_time(true);
    assert_eq!(open(&trusting).err(), Some(PostgresStoreError::InvalidConfig));
    assert_eq!(open(&config(MIGRATOR, RUNTIME)).err(), Some(PostgresStoreError::TlsRequired));
    let odd = config(REQUIRED_MIGRATOR, "postgres://Run@db.example/db?sslmode=require");
    assert_eq!(open(&odd).err(), Some(PostgresStoreError::InvalidConfig));
}

#[test]
fn urls_that_the_driver_cannot_read_are_refused() {
    let refused = Some(PostgresStoreError::InvalidConfig);
    assert_eq!(config(SEALED_MIGRATOR, SEALED_RUNTIME).validate_tls_policy(), Ok(()));
    assert_eq!(open(&config(SEALED_MIGRATOR, SEALED_RUNTIME)).err(), refused);
    let full = "postgres://runtime@db.example/db?sslmode=verify-full";
    assert_eq!(open(&config(REQUIRED_MIGRATOR, full)).err(), refused);
    let unknown = "postgres://runtime@db.example/db?sslmode=require&color=red";
    assert_eq!(open(&config(REQUIRED_MIGRATOR, unknown)).err(), refused);
    let parts = |username: &str| UrlParts {
        scheme: "postgres".to_string(),
        username: username.to_string(),
        password: None,
        host: Some("db.example".to_string()),
        path: "/db".to_string(),
        query: Some("sslmode=require".to_string()),
        fragment: None,
        query_pairs: vec![("sslmode".to_string(), "require".to_string())],
    };
    let found = |connectable| UrlFindings {
        migrator: Some(parts("migrator")),
        runtime: Some(parts("runtime")),
        connectable,
    };
    let asked = config(REQUIRED_MIGRATOR, SEALED_RUNTIME);
    assert_eq!(open_with_findings(&asked, &found(true)).unwrap().runtime_user, "runtime");
    assert_eq!(open_with_findings(&asked, &found(false)).err(), refused);
}

#[test]
fn statements_name_the_schema() {
    assert_eq!(q("SELECT 1 FROM __S__.tasks, __S__.events", "mesh"), "SELECT 1 FROM mesh.tasks, mesh.events");
    assert_eq!(runtime_role("mesh"), "mesh_runtime");
    assert_eq!(
        set_tenant("mesh"),
        "SET LOCAL ROLE mesh_runtime; SET LOCAL statement_timeout='5s'; SET LOCAL lock_timeout='5s'"
    );
    let test = config(MIGRATOR, RUNTIME).with_test_only_insecure_loopback(true);
    assert_eq!(
        drop_test_schema(&test),
        Ok("DROP SCHEMA IF EXISTS mesh CASCADE; DROP ROLE IF EXISTS mesh_runtime".to_string())
    );
    assert_eq!(drop_test_schema(&config(MIGRATOR, RUNTIME)), Err(PostgresStoreError::InvalidConfig));
    assert_eq!(PostgresStoreError::TlsRequired.message(), "PostgreSQL TLS is required");
}

const LOGIN: RoleAttributes = RoleAttributes {
    superuser: false,
    inherit: false,
    create_role: false,
    create_db: false,
    can_login: true,
    replication: false,
    bypass_rls: false,
};

const GROUP: RoleAttributes = RoleAttributes { can_login: false, ..LOGIN };

fn membership(member: &str, admin: bool, set: bool) -> Membership {
    Membership {
        member: member.to_string(),
        parent: "mesh_runtime".to_string(),
        admin,
        inherit: false,
        set,
    }
}

fn login() -> LoginImage {
    LoginImage {
        login: Some(LOGIN),
        runtime_role_exists: true,
        migrator_user: "migrator".to_string(),
        memberships: vec![membership("runtime", false, true), membership("migrator", true, false)],
        siblings: vec![SiblingMembership {
            role: "other_runtime".to_string(),
            admin: false,
            inherit: false,
            set: true,
            attributes: GROUP,
            schema_exists: true,
            owner_administers: true,
        }],
        reached: vec![ReachedRole { role: "mesh_runtime".to_string(), cycle: false, depth: 0, attributes: GROUP }],
    }
}

#[test]
fn runtime_logins_are_confined() {
    let checked = |change: fn(&mut LoginImage)| {
        let mut image = login();
        change(&mut image);
        validate_runtime_login(&image, "mesh", "runtime").err()
    };
    assert_eq!(checked(|_| ()), None);
    assert_eq!(checked(|i| i.login = None), Some(PostgresStoreError::Initialization));
    assert_eq!(
        checked(|i| i.login = Some(RoleAttributes { superuser: true, ..LOGIN })),
        Some(PostgresStoreError::Initialization)
    );
    let invalid = Some(PostgresStoreError::InvalidSchema);
    assert_eq!(checked(|i| i.runtime_role_exists = false), invalid);
    assert_eq!(
        checked(|i| {
            i.runtime_role_exists = false;
            i.memberships.clear()
        }),
        None
    );
    assert_eq!(checked(|i| i.memberships[0].admin = true), invalid);
    assert_eq!(checked(|i| i.memberships.push(membership("x", false, false))), invalid);
    assert_eq!(checked(|i| i.siblings[0].role = "other".to_string()), invalid);
    assert_eq!(checked(|i| i.reached[0].cycle = true), invalid);
    assert_eq!(checked(|i| i.reached[0].attributes = LOGIN), invalid);
}

#[test]
fn migrations_need_separate_roles() {
    let roles = || MigrationRoles {
        migrator_user: "migrator".to_string(),
        runtime_is_migrator: false,
        runtime_role: Some(GROUP),
        memberships: vec![membership("runtime", false, true), membership("migrator", true, false)],
    };
    assert_eq!(check_migration_roles(&roles(), "mesh", "runtime"), Ok(()));
    assert_eq!(check_migration_roles(&roles(), "mesh", "migrator"), Err(PostgresStoreError::InvalidSchema));
    let owned = MigrationRoles { runtime_is_migrator: true, ..roles() };
    assert_eq!(check_migration_roles(&owned, "mesh", "runtime"), Err(PostgresStoreError::InvalidSchema));
    let mut foreign = roles();
    foreign.memberships.push(membership("x", false, false));
    assert_eq!(check_migration_roles(&foreign, "mesh", "runtime"), Err(PostgresStoreError::InvalidSchema));
}

#[test]
fn migrations_run_once() {
    assert_eq!(
        migrate(1, false, &None, "sql", &None),
        Ok(MigrationStep::Run { schema_version: 6, installs_identity: true, counts_retained: false })
    );
    let applied = Some(AppliedMigration { schema_version: 6, checksum: text_digest("sql") });
    assert_eq!(migrate(1, true, &applied, "sql", &None), Ok(MigrationStep::Applied));
    assert_eq!(migrate(1, true, &applied, "other", &None), Err(PostgresStoreError::InvalidSchema));
    assert_eq!(migrate(1, true, &None, "sql", &None), Err(PostgresStoreError::InvalidSchema));
    assert_eq!(migrate(8, true, &None, "sql", &None), Err(PostgresStoreError::InvalidSchema));
    let sealed = |actual: &str| {
        Some(SealedMetadata { schema_version: 7, catalog_hash: "c".to_string(), actual_catalog: actual.to_string() })
    };
    assert_eq!(
        migrate(8, true, &None, "sql", &sealed("c")),
        Ok(MigrationStep::Run { schema_version: 8, installs_identity: false, counts_retained: true })
    );
    assert_eq!(migrate(8, true, &None, "sql", &sealed("x")), Err(PostgresStoreError::InvalidSchema));
    assert_eq!(migration_version(3), 6);
    assert_eq!(migration_version(9), 9);
}

#[test]
fn migrated_schemas_stay_as_they_are() {
    let scripts: Vec<String> = (1..=9).map(|n| format!("script {n}")).collect();
    let mut applied: Vec<Option<AppliedMigration>> = Vec::new();
    let mut sealed: Option<SealedMetadata> = None;
    for revision in 1..=9_i64 {
        let script = &scripts[revision as usize - 1];
        let step = migrate(revision, !applied.is_empty(), &None, script, &sealed).unwrap();
        match step {
            MigrationStep::Run { schema_version, installs_identity, counts_retained } => {
                assert_eq!(schema_version, migration_version(revision));
                assert_eq!(installs_identity, revision == 1);
                assert_eq!(counts_retained, revision >= 8);
                applied.push(Some(AppliedMigration { schema_version, checksum: text_digest(script) }));
                let catalog = format!("catalog {revision}");
                sealed = Some(SealedMetadata { schema_version, catalog_hash: catalog.clone(), actual_catalog: catalog });
            }
            MigrationStep::Applied => panic!("nothing was recorded"),
        }
    }
    for revision in 1..=9_i64 {
        let at = revision as usize - 1;
        assert_eq!(migrate(revision, true, &applied[at], &scripts[at], &sealed), Ok(MigrationStep::Applied));
        assert_eq!(
            migrate(revision, true, &applied[at], "altered", &sealed),
            Err(PostgresStoreError::InvalidSchema)
        );
    }
}

#[test]
fn scripts_are_rendered_for_their_schema() {
    let script = "__SCHEMA__ __ROLE__ '__MIGRATOR__'";
    assert_eq!(render_migration(1, script, "mesh", "o'neil"), "mesh mesh_runtime 'o''neil'");
    assert_eq!(render_migration(2, script, "mesh", "m"), "mesh mesh_runtime '__MIGRATOR__'");
    assert_eq!(render_migration(3, script, "mesh", "m"), "mesh __ROLE__ 'm'");
    assert_eq!(q("__S__S__", "mesh"), "meshS__");
    assert_eq!(q("__S_", "mesh"), "__S_");
    assert_eq!(q("", "mesh"), "");
}

fn facts() -> CallbackPolicyFacts {
    CallbackPolicyFacts {
        policy_id: "p".to_string(),
        policy_revision: 3,
        policy_digest: "d".to_string(),
        max_configs_per_task: 1,
        max_configs_per_tenant: 2,
        max_pending: 3,
        max_attempts: 4,
        max_delivery_age_ms: 5,
        enrollments: 2,
    }
}

fn stored_policy(revision: i64, digest: &str) -> Option<StoredCallbackPolicy> {
    Some(StoredCallbackPolicy {
        policy_id: "p".to_string(),
        policy_revision: revision,
        policy_digest: digest.to_string(),
        max_configs_per_task: 1,
        max_configs_per_tenant: 2,
        max_pending: 3,
        max_payload_bytes: 262_144,
        max_attempts: 4,
        max_delivery_age_ms: 5,
    })
}

#[test]
fn callback_policies_move_forward() {
    let configured = Some(facts());
    assert_eq!(
        reconcile_callback_policy(&configured, 1, &stored_policy(2, "x")),
        Ok(CallbackReconciliation::Ensure { revision: 3 })
    );
    assert_eq!(
        reconcile_callback_policy(&configured, 1, &stored_policy(4, "d")),
        Err(PostgresStoreError::InvalidSchema)
    );
    assert_eq!(
        reconcile_callback_policy(&configured, 1, &stored_policy(3, "x")),
        Err(PostgresStoreError::InvalidSchema)
    );
    assert_eq!(
        reconcile_callback_policy(&configured, 1, &stored_policy(3, "d")),
        Ok(CallbackReconciliation::Ensure { revision: 3 })
    );
    assert_eq!(install_callback_policy(&facts(), &stored_policy(3, "d")), Ok(false));
    assert_eq!(reconcile_callback_policy(&None, 0, &None), Ok(CallbackReconciliation::Off));
    assert_eq!(reconcile_callback_policy(&None, 1, &None), Err(PostgresStoreError::InvalidSchema));
    let wide = CallbackPolicyFacts { policy_revision: u64::MAX, ..facts() };
    assert_eq!(reconcile_callback_policy(&Some(wide), 0, &None), Err(PostgresStoreError::InvalidConfig));
    assert_eq!(install_callback_policy(&facts(), &stored_policy(2, "x")), Ok(true));
    assert_eq!(install_callback_policy(&facts(), &None), Ok(true));
    let ageless = CallbackPolicyFacts { max_delivery_age_ms: u64::MAX, ..facts() };
    assert_eq!(install_callback_policy(&ageless, &None), Err(PostgresStoreError::InvalidConfig));
    assert_eq!(removed_enrollments_drained(true), Err(PostgresStoreError::Initialization));
    assert_eq!(enrollments_complete(&facts(), 2, true), Ok(()));
    assert_eq!(enrollments_complete(&facts(), 1, true), Err(PostgresStoreError::InvalidSchema));
    assert_eq!(enrollments_complete(&facts(), 2, false), Err(PostgresStoreError::InvalidSchema));
}

#[test]
fn quota_policies_are_lowered_by_plan() {
    let stored = StoredQuotaPolicy {
        policy_id: "p".to_string(),
        revision: 3,
        digest: "d".to_string(),
        readable: true,
    };
    let configured =
        |revision, digest: &str| PolicyIdentity { policy_id: "p".to_string(), revision, digest: digest.to_string() };
    let plan = Some(ReconciliationPlan { effective_at: 10, authorizes_all: true });
    let ask = |c: &PolicyIdentity, lowers, plan: &Option<ReconciliationPlan>, now| {
        reconcile_quota_policy(&stored, c, lowers, plan, now)
    };
    assert_eq!(ask(&configured(3, "d"), false, &None, 0), Ok(QuotaReconciliation::Current));
    assert_eq!(ask(&configured(3, "x"), false, &None, 0), Err(PostgresStoreError::InvalidSchema));
    assert_eq!(ask(&configured(2, "d"), false, &None, 0), Err(PostgresStoreError::InvalidSchema));
    assert_eq!(ask(&configured(4, "x"), false, &None, 0), Ok(QuotaReconciliation::Replace { audited: false }));
    assert_eq!(ask(&configured(4, "x"), true, &None, 10), Err(PostgresStoreError::ReconciliationRequired));
    assert_eq!(ask(&configured(4, "x"), true, &plan, 9), Err(PostgresStoreError::ReconciliationRequired));
    assert_eq!(ask(&configured(4, "x"), true, &plan, 10), Ok(QuotaReconciliation::Replace { audited: true }));
}

#[test]
fn usage_is_carried_to_the_new_policy() {
    let bucket = |dimension, token_bucket, used, available| OldBucket {
        dimension,
        operation: "taskCreate".to_string(),
        token_bucket,
        used,
        available,
    };
    assert_eq!(
        carry_bucket(&bucket(QuotaDimension::RequestCount, false, 4, None), 5),
        Ok(Some(CarriedBucket { capacity: 5, used: 4, available: None }))
    );
    assert_eq!(
        carry_bucket(&bucket(QuotaDimension::RequestCount, false, 6, None), 5),
        Err(PostgresStoreError::ReconciliationRequired)
    );
    assert_eq!(
        carry_bucket(&bucket(QuotaDimension::InputBytes, true, 0, Some(9)), 5),
        Ok(Some(CarriedBucket { capacity: 5, used: 0, available: Some(5) }))
    );
    assert_eq!(
        carry_bucket(&bucket(QuotaDimension::InputBytes, true, 0, Some(2)), 5),
        Ok(Some(CarriedBucket { capacity: 5, used: 3, available: Some(2) }))
    );
    assert_eq!(
        carry_bucket(&bucket(QuotaDimension::InputBytes, true, 0, None), 5),
        Err(PostgresStoreError::InvalidSchema)
    );
    assert_eq!(carry_bucket(&bucket(QuotaDimension::ConcurrentStreams, false, 9, None), 5), Ok(None));
    assert_eq!(carry_bucket(&bucket(QuotaDimension::OutputBytes, false, 9, None), 5), Ok(None));
    assert_eq!(retained_within_limit(true), Err(PostgresStoreError::ReconciliationRequired));
    assert_eq!(callback_retained_oracle_total(1, 2, 3), Ok(6));
    assert_eq!(callback_retained_oracle_total(i64::MAX, 1, 0), Err(PostgresStoreError::InvalidSchema));
}

#[test]
fn dimension_names_are_distinct() {
    assert_eq!(quota_dimension_from_str("outputBytes"), Some(QuotaDimension::OutputBytes));
    assert_eq!(quota_dimension_from_str("OutputBytes"), None);
    assert_eq!(quota_scope_from_str("principal"), Some(QuotaScopeKind::Principal));
    assert_eq!(quota_scope_from_str(""), None);
    let named: Vec<String> = ["b", "a", "b"].iter().map(|s| s.to_string()).collect();
    assert_eq!(retained_scopes(&named).len(), 2);
    assert_eq!(keyring_complete(&vec![true, true], PostgresStoreError::InvalidConfig), Ok(()));
    assert_eq!(
        keyring_complete(&vec![true, false], PostgresStoreError::InvalidConfig),
        Err(PostgresStoreError::InvalidConfig)
    );
}

#[test]
fn a_keyring_is_replaced_by_one_that_covers_what_is_needed() {
    let names = |list: &[&str]| -> Vec<String> { list.iter().map(|s| s.to_string()).collect() };
    let needed = names(&["k1", "k2"]);
    let mut held = Some(names(&["k1"]));
    let missing = reload_artifact_keyring(&mut held, Some(names(&["k2", "k3"])), &needed);
    assert_eq!((missing, &held), (Err(PostgresStoreError::InvalidConfig), &Some(names(&["k1"]))));
    let unreadable = reload_artifact_keyring(&mut held, None, &Vec::new());
    assert_eq!((unreadable, &held), (Err(PostgresStoreError::InvalidConfig), &Some(names(&["k1"]))));
    let covered = names(&["k3", "k2", "k1"]);
    assert_eq!(reload_artifact_keyring(&mut held, Some(covered.clone()), &needed), Ok(()));
    assert_eq!(held, Some(covered.clone()));
    let mut none = None;
    assert_eq!(reload_artifact_keyring(&mut none, Some(covered), &needed), Err(PostgresStoreError::InvalidConfig));
    assert_eq!(none, None);
}

#[test]
fn lowered_limits_are_audited() {
    assert_eq!(quota_scope_name(QuotaScopeKind::Tenant), "tenant");
    assert_eq!(quota_dimension_name(QuotaDimension::ConcurrentActiveWork), "concurrentActiveWork");
    let lowered = vec![
        (QuotaScopeKind::Tenant, QuotaDimension::RequestCount),
        (QuotaScopeKind::Account, QuotaDimension::OutputBytes),
    ];
    for (scope, dimension) in &lowered {
        assert_eq!(quota_scope_from_str(quota_scope_name(*scope)), Some(*scope));
        assert_eq!(quota_dimension_from_str(quota_dimension_name(*dimension)), Some(*dimension));
    }
    let origin = PlanOrigin { actor: "a".to_string(), reason: "r".to_string(), effective_at: 7 };
    let record = audit_reconciliation("ts", "old", "new", &lowered, &origin).unwrap();
    assert_eq!(record.targets, "[[\"tenant\",\"requestCount\"],[\"account\",\"outputBytes\"]]");
    assert_eq!((record.actor_digest, record.reason_digest), (text_digest("a"), text_digest("r")));
    assert_eq!(
        record.reconciliation_id,
        text_digest(&format!(
            "quota-reconciliation-v1\0ts\0old\0new\0{}\0{}\07\0{}",
            text_digest("a"),
            text_digest("r"),
            record.targets
        ))
    );
    let mut image = authority();
    image.reconciliations = vec![audit_reconciliation("ts", "old", "new", &lowered, &origin).unwrap()];
    assert_eq!(validate_semantics(&image, &SEAL), Ok(()));
}

fn scripts() -> Vec<String> {
    (0..MIGRATION_COUNT).map(|i| format!("script {i}")).collect()
}

fn catalog() -> CatalogImage {
    let lines = vec!["table mesh.tasks".to_string(), "role mesh_runtime".to_string()];
    let using = "(tenant_scope = current_setting('smesh.tenant_scope'::text, true))".to_string();
    CatalogImage {
        owner: "migrator".to_string(),
        definers: (0..DEFINER_COUNT)
            .map(|i| DefinerRow {
                name: definer_name(i).to_string(),
                owner: "migrator".to_string(),
                settings: Some(if row_secured(definer_name(i)) {
                    vec!["search_path=pg_catalog".to_string(), "row_security=on".to_string()]
                } else {
                    vec!["search_path=pg_catalog".to_string()]
                }),
            })
            .collect(),
        tables: (0..TABLE_COUNT)
            .map(|i| TableRow {
                name: table_name(i).to_string(),
                row_security: !global_table(table_name(i)),
                forced: !global_table(table_name(i)),
            })
            .collect(),
        policy_count: TENANT_TABLE_COUNT as i64,
        policies: vec![PolicyRow { using: using.clone(), check: using }],
        indexes: (0..INDEX_COUNT).map(|i| index_name(i).to_string()).collect(),
        migrations: scripts()
            .iter()
            .enumerate()
            .map(|(i, script)| MigrationRow {
                revision: i as i64 + 1,
                schema_version: migration_version(i as i64 + 1),
                name: migration_name(i).to_string(),
                checksum: text_digest(script),
            })
            .collect(),
        metadata: Some(MetadataRow {
            schema_version: 9,
            migration_hash: text_digest("script 0"),
            catalog_hash: catalog_digest(&lines, "mesh"),
            cursor_key: vec![1; 32],
            receipt_key: vec![2; 32],
        }),
        catalog_lines: lines,
        callbacks: CallbackImage { policies: Vec::new(), tenant_violations: vec![0], violations: 0 },
    }
}

#[test]
fn migrated_schemas_validate() {
    let lines = vec!["table mesh.tasks".to_string(), "role mesh_runtime".to_string()];
    assert_eq!(catalog_digest(&lines, "mesh"), text_digest("table __SCHEMA__.tasks\nrole __SCHEMA___runtime"));
    let (cursor, receipt) = validate_catalog(&catalog(), "mesh", &scripts()).unwrap();
    assert_eq!(cursor, vec![1; 32]);
    assert_eq!(receipt, vec![2; 32]);
}

#[test]
fn changed_schemas_are_refused() {
    let refused = |change: fn(&mut CatalogImage)| {
        let mut image = catalog();
        change(&mut image);
        validate_catalog(&image, "mesh", &scripts()).err() == Some(PostgresStoreError::InvalidSchema)
    };
    assert!(!refused(|_| ()));
    assert!(refused(|i| i.definers[0].owner = "x".to_string()));
    assert!(refused(|i| i.definers[0].settings = None));
    assert!(refused(|i| i.tables[3].forced = !i.tables[3].forced));
    assert!(refused(|i| {
        i.tables.pop();
    }));
    assert!(refused(|i| i.policy_count -= 1));
    assert!(refused(|i| i.policies[0].check = "true".to_string()));
    assert!(refused(|i| i.indexes.swap(0, 1)));
    assert!(refused(|i| i.migrations[4].checksum = text_digest("x")));
    assert!(refused(|i| i.metadata = None));
    assert!(refused(|i| i.metadata.as_mut().unwrap().receipt_key = vec![2; 31]));
    assert!(refused(|i| i.catalog_lines[0] = "table mesh.other".to_string()));
    assert!(refused(|i| i.callbacks.violations = 1));
}

#[test]
fn callback_records_are_accepted_policies() {
    let policy = || CallbackPolicyRecord {
        policy_revision: 1,
        max_configs_per_task: 1,
        max_configs_per_tenant: 1,
        max_pending: 1,
        max_payload_bytes: 1,
        max_attempts: 1,
        max_delivery_age_ms: 1,
        accepted: true,
    };
    let checked = |p: CallbackPolicyRecord| {
        validate_callback_semantics(&CallbackImage { policies: vec![p], tenant_violations: vec![0], violations: 0 })
    };
    assert_eq!(checked(policy()), Ok(()));
    assert_eq!(
        checked(CallbackPolicyRecord { max_attempts: 65_536, ..policy() }),
        Err(PostgresStoreError::InvalidSchema)
    );
    assert_eq!(
        checked(CallbackPolicyRecord { accepted: false, ..policy() }),
        Err(PostgresStoreError::InvalidSchema)
    );
}

fn text(s: &str) -> Option<String> {
    Some(s.to_string())
}

const MANIFEST: &str = r#"{"artifactId":"a","chunks":[{"digest":"x","length":5,"offset":0,"ordinal":0}],"classification":"confidential","contentDigest":"cd","derivedFrom":[{"artifactId":"parent","relation":"copy"}],"encryptionDomain":"e","mediaType":"text/plain","plaintextLength":5,"policy":{"createdAt":1,"digest":"pd","policyId":"p","retainUntil":2,"revision":1},"producer":{"context":"c","dispatch":"d","message":"m","owner":"o","task":"t","tenant":"ts"},"schema":"smesh-artifact-manifest/v1"}"#;

fn sealed(m: &mut ManifestRecord, canonical: &str) {
    m.canonical = canonical.to_string();
    m.manifest_digest = text_digest(&format!("smesh-artifact-manifest/v1\0{canonical}"));
}

fn manifest() -> ManifestRecord {
    let mut m = ManifestRecord {
        artifact_id: "a".to_string(),
        manifest_digest: String::new(),
        canonical: String::new(),
        owner_account_id: "o".to_string(),
        task_id: "t".to_string(),
        context_id: "c".to_string(),
        message_id: "m".to_string(),
        dispatch_id: "d".to_string(),
        media_type: "text/plain".to_string(),
        plaintext_length: 5,
        classification: "confidential".to_string(),
        encryption_domain: "e".to_string(),
        policy_id: "p".to_string(),
        policy_revision: 1,
        policy_digest: "pd".to_string(),
        created_at: 1,
        retain_until: 2,
        content_digest: "cd".to_string(),
        tenant_scope: "ts".to_string(),
        chunks: vec![ChunkRow { ordinal: 0, byte_offset: 0, plaintext_length: 5, content_digest: "x".to_string() }],
        provenance: vec![EdgeRow { parent_artifact_id: "parent".to_string(), relation: "copy".to_string() }],
    };
    sealed(&mut m, MANIFEST);
    m
}

fn manifest_accepted(m: ManifestRecord) -> bool {
    let image = ArtifactImage { manifests: vec![m], storage_violations: 0, provenance_violations: 0 };
    validate_artifact_semantics(&image).is_ok()
}

#[test]
fn manifests_say_what_is_stored() {
    let checked = |change: fn(&mut ManifestRecord)| {
        let mut m = manifest();
        change(&mut m);
        manifest_accepted(m)
    };
    assert!(checked(|_| ()));
    assert!(!checked(|m| m.canonical = format!("{MANIFEST} ")));
    assert!(!checked(|m| m.plaintext_length = 6));
    assert!(!checked(|m| m.tenant_scope = "other".to_string()));
    assert!(!checked(|m| m.retain_until = 3));
    assert!(!checked(|m| m.chunks[0].byte_offset = 1));
    assert!(!checked(|m| m.chunks.clear()));
    assert!(!checked(|m| m.provenance[0].relation = "edit".to_string()));
    let violated = ArtifactImage { manifests: Vec::new(), storage_violations: 1, provenance_violations: 0 };
    assert_eq!(validate_artifact_semantics(&violated), Err(PostgresStoreError::InvalidSchema));
}

#[test]
fn manifests_are_read_from_their_text() {
    let read = |from: &str, to: &str| {
        let mut m = manifest();
        sealed(&mut m, &MANIFEST.replace(from, to));
        manifest_accepted(m)
    };
    assert!(read("{\"artifactId\"", "{ \"artifactId\""));
    assert!(read("\"mediaType\"", "\"other\":[1.5],\"mediaType\""));
    assert!(!read("manifest/v1", "manifest/v2"));
    assert!(!read("\"plaintextLength\":5", "\"plaintextLength\":\"5\""));
    assert!(!read("\"plaintextLength\":5", "\"plaintextLength\":5.0"));
    assert!(!read("\"tenant\":\"ts\"", "\"tenant\":null"));
    assert!(!read("\"revision\":1", "\"revision\":2"));
    assert!(!read("\"ordinal\":0", "\"ordinal\":1"));
    assert!(!read("\"relation\":\"copy\"}]", "\"relation\":\"copy\"},{}]"));
    assert!(!read("\"derivedFrom\":[{\"artifactId\":\"parent\",\"relation\":\"copy\"}]", "\"derivedFrom\":{}"));
    assert!(!read("\"schema\"", "schema"));
}

fn task(state: TaskState) -> Task {
    Task {
        id: "t".to_string(),
        context_id: "c".to_string(),
        status: TaskStatus { state, message: None, timestamp: None },
        artifacts: None,
        history: None,
        metadata: None,
    }
}

fn event(seq: i64, from: Option<TaskState>, to: TaskState) -> EventRecord {
    EventRecord {
        tenant_scope: "ts".to_string(),
        task_id: "t".to_string(),
        seq,
        revision: seq,
        kind: "k".to_string(),
        from: from.map(|s| state_key(&task(s)).to_string()),
        to: state_key(&task(to)).to_string(),
        encoded: format!("{{\"r\":{seq}}}"),
        task: Some(task(to)),
        from_state: from,
        to_state: Some(to),
    }
}

const SEAL: [u8; 32] = [7; 32];

fn snapshot() -> SnapshotRecord {
    let seal = || SealEntry { ordinal: 0, task_id: "t".to_string(), revision: 2, digest: text_digest("{}") };
    let header = SnapshotHeader {
        snapshot_id: vec![1],
        scope_digest: "s".to_string(),
        query_digest: "q".to_string(),
        total: 1,
        page_size: 1,
        issued_at: 5,
        expires_at: 300_005,
        projection_version: 1,
        frozen_bytes: 2,
    };
    let metadata = snapshot_metadata_digest(&SEAL, &header, &vec![seal()]).to_vec();
    SnapshotRecord {
        header,
        metadata,
        entries: vec![SnapshotEntryRecord { seal: seal(), encoded: "{}".to_string(), held_task_id: text("t") }],
    }
}

fn reconciliation() -> ReconciliationRecord {
    let mut r = ReconciliationRecord {
        tenant_scope: "ts".to_string(),
        reconciliation_id: String::new(),
        old_policy_digest: "old".to_string(),
        new_policy_digest: "new".to_string(),
        actor_digest: "actor".to_string(),
        reason_digest: "reason".to_string(),
        targets: "[]".to_string(),
        effective_at: 9,
    };
    r.reconciliation_id = reconciliation_id(&r);
    r
}

fn authority() -> AuthorityImage {
    let frames = vec!["{}".to_string()];
    AuthorityImage {
        artifacts: ArtifactImage { manifests: vec![manifest()], storage_violations: 0, provenance_violations: 0 },
        violations: ViolationCounts {
            quota_evidence_gaps: 0,
            quota_leases: 0,
            execution_reservations: 0,
            receiver_fences: 0,
        },
        reconciliations: vec![reconciliation()],
        tasks: vec![TaskRecord {
            tenant_scope: "ts".to_string(),
            task_id: "t".to_string(),
            context_id: "c".to_string(),
            state: state_key(&task(TaskState::Working)).to_string(),
            status_timestamp: None,
            revision: 2,
            encoded: "{\"r\":2}".to_string(),
            task: Some(task(TaskState::Working)),
        }],
        events: vec![
            event(1, None, TaskState::Submitted),
            event(2, Some(TaskState::Submitted), TaskState::Working),
        ],
        payloads: vec![PayloadRecord { encoded: "{}".to_string(), digest: text_digest("{}") }],
        transcripts: vec![TranscriptRecord {
            row: TranscriptRow {
                state: TranscriptState::Open,
                frame_count: 1,
                digest: Some(transcript_digest(&frames)),
                terminal_seq: None,
                interruption: None,
            },
            frames: Some(frames),
        }],
        snapshots: vec![snapshot()],
        reservations: vec![ReservationRecord {
            account_id: "o".to_string(),
            units: 1,
            accepted: true,
            task_id: "t".to_string(),
            expires_at: 9,
            created_at: 5,
            owner: text("o"),
        }],
    }
}

#[test]
fn sound_records_are_accepted() {
    assert_eq!(
        reconciliation().reconciliation_id,
        text_digest("quota-reconciliation-v1\0ts\0old\0new\0actor\0reason\09\0[]")
    );
    assert_eq!(validate_semantics(&authority(), &SEAL), Ok(()));
    assert_eq!(validate_semantics(&authority(), &[8; 32]), Err(PostgresStoreError::InvalidSchema));
}

fn refused(change: fn(&mut AuthorityImage)) -> bool {
    let mut image = authority();
    change(&mut image);
    validate_semantics(&image, &SEAL) == Err(PostgresStoreError::InvalidSchema)
}

#[test]
fn events_number_revisions() {
    assert!(refused(|i| i.events[1].seq = 3));
    assert!(refused(|i| i.events[1].revision = 3));
    assert!(refused(|i| i.events[0].from = text("x")));
    assert!(refused(|i| i.events[1].from = text("x")));
    assert!(refused(|i| {
        i.events.pop();
    }));
    assert!(refused(|i| i.events.push(event(3, Some(TaskState::Working), TaskState::Submitted))));
    assert!(refused(|i| i.tasks[0].revision = 1));
    assert!(refused(|i| i.tasks[0].encoded = "{}".to_string()));
}

#[test]
fn unsound_records_are_refused() {
    assert!(refused(|i| i.violations.quota_leases = 1));
    assert!(refused(|i| i.artifacts.storage_violations = 1));
    assert!(refused(|i| i.reconciliations[0].effective_at = 8));
    assert!(refused(|i| i.tasks[0].context_id = "x".to_string()));
    assert!(refused(|i| {
        i.payloads[0].encoded = "{".to_string();
        i.payloads[0].digest = text_digest("{");
    }));
    assert!(refused(|i| {
        i.reconciliations[0].targets = "[[\"tenant\"]]".to_string();
        i.reconciliations[0].reconciliation_id = reconciliation_id(&i.reconciliations[0]);
    }));
    assert!(refused(|i| i.payloads[0].digest = text_digest("x")));
    assert!(refused(|i| i.transcripts[0].row.frame_count = 2));
    assert!(refused(|i| i.snapshots[0].header.expires_at += 1));
    assert!(refused(|i| i.snapshots[0].entries[0].held_task_id = None));
    assert!(refused(|i| i.reservations[0].owner = text("x")));
    assert!(refused(|i| i.reservations[0].expires_at = 5));
}

fn startup() -> StartupImage {
    StartupImage {
        restore_incomplete: false,
        task_count: 1,
        tenants: vec![TenantImage {
            restore_incomplete: false,
            retained: RetainedCount { materialized: 5, counted: 5 },
            accounts: vec![RetainedCount { materialized: 5, counted: 5 }],
            principals: Vec::new(),
            active_policies: vec![ActivePolicy {
                policy_id: "p".to_string(),
                revision: 3,
                digest: "d".to_string(),
            }],
            records: authority(),
        }],
    }
}

#[test]
fn records_are_checked_before_serving() {
    let policy = PolicyIdentity { policy_id: "p".to_string(), revision: 3, digest: "d".to_string() };
    let configured = Some(policy);
    let checked = |change: fn(&mut StartupImage)| {
        let mut image = startup();
        change(&mut image);
        check_startup(&image, 10, &configured, &SEAL).err()
    };
    assert_eq!(checked(|_| ()), None);
    assert_eq!(checked(|i| i.restore_incomplete = true), Some(PostgresStoreError::ArtifactRestoreIncomplete));
    assert_eq!(
        checked(|i| i.tenants[0].restore_incomplete = true),
        Some(PostgresStoreError::ArtifactRestoreIncomplete)
    );
    let invalid = Some(PostgresStoreError::InvalidSchema);
    assert_eq!(checked(|i| i.task_count = 11), invalid);
    assert_eq!(checked(|i| i.tenants[0].retained.counted = 6), invalid);
    assert_eq!(
        checked(|i| i.tenants[0].retained = RetainedCount { materialized: 67_108_865, counted: 67_108_865 }),
        invalid
    );
    assert_eq!(checked(|i| i.tenants[0].accounts[0].materialized = -5), invalid);
    assert_eq!(checked(|i| i.tenants[0].active_policies[0].revision = 2), invalid);
    assert_eq!(checked(|i| i.tenants[0].records.events[0].seq = 2), invalid);
}

#[test]
fn artifact_migrations_are_finished() {
    let image = || ArtifactMigrationImage {
        required: false,
        store_id: vec![0xab, 0x01],
        plan_fault: None,
        file_source_schema: Some("mesh".to_string()),
        file_store_identity: Some("sha256:ab01".to_string()),
        file_plan_fault: None,
    };
    assert_eq!(store_identity(&[0xab, 0x01]), "sha256:ab01");
    assert_eq!(check_artifact_migration(&image(), "mesh"), Ok(()));
    let required = Err(PostgresStoreError::ArtifactMigrationRequired);
    assert_eq!(check_artifact_migration(&image(), "other"), required);
    assert_eq!(check_artifact_migration(&ArtifactMigrationImage { required: true, ..image() }, "mesh"), required);
    let moved = ArtifactMigrationImage { file_store_identity: None, ..image() };
    assert_eq!(check_artifact_migration(&moved, "mesh"), required);
    let busy = ArtifactMigrationImage { plan_fault: Some(PostgresStoreError::ArtifactMigrationBusy), ..image() };
    assert_eq!(check_artifact_migration(&busy, "mesh"), Err(PostgresStoreError::ArtifactMigrationBusy));
    assert_eq!(projection_enabled(1), Ok(()));
    assert_eq!(projection_enabled(0), Err(PostgresStoreError::ArtifactMigrationBusy));
}

#[test]
fn an_authority_serves_after_every_stage() {
    let mut stage = OpenStage::LoginBeforeMigration;
    let mut passed = 0;
    while stage != OpenStage::Serving {
        stage = advance_opening(stage, Ok(()), true, true);
        passed += 1;
    }
    assert_eq!(passed, 11);
    let refused = advance_opening(OpenStage::Catalog, Err(PostgresStoreError::InvalidSchema), true, true);
    assert_eq!(refused, OpenStage::Refused(PostgresStoreError::InvalidSchema));
    assert_eq!(advance_opening(refused, Ok(()), true, true), refused);
    assert_eq!(advance_opening(OpenStage::Migration, Ok(()), false, true), OpenStage::LoginAfterMigration);
    assert_eq!(advance_opening(OpenStage::Catalog, Ok(()), false, false), OpenStage::QuotaPolicy);
}

fn run(events: &[TransactionEvent]) -> TransactionRun {
    let mut run = TransactionRun::new(false, false);
    for event in events {
        run = run.advance(*event);
    }
    run
}

const BEGUN: TransactionEvent = TransactionEvent::Begun { fault: None };

#[test]
fn values_are_committed() {
    let done = run(&[BEGUN, TransactionEvent::BodyDone, TransactionEvent::Committed]);
    assert_eq!(done.step, TransactionStep::Finished);
    assert_eq!(done.attempt, 1);
}

#[test]
fn attempts_are_bounded() {
    let retry = TransactionEvent::BodyFailed(BodyFailure::Retryable);
    assert_eq!(run(&[BEGUN, retry]).step, TransactionStep::Begin);
    let mut last = TransactionRun::new(false, false);
    let mut attempts = 0;
    while last.step == TransactionStep::Begin {
        last = last.advance(BEGUN).advance(retry);
        attempts += 1;
    }
    assert_eq!(last.step, TransactionStep::Failed(Fault::TransactionRetryLimit));
    assert_eq!(attempts, last.attempt);
    assert_eq!(
        transaction_body_error(&text("40001"), Fault::StoredTaskCorrupt),
        BodyFailure::Retryable
    );
    assert_eq!(transaction_body_error(&text("40P01"), Fault::StoredTaskCorrupt), BodyFailure::Retryable);
    assert_eq!(
        transaction_body_error(&None, Fault::StoredTaskCorrupt),
        BodyFailure::Refused(Fault::StoredTaskCorrupt)
    );
}

#[test]
fn commits_are_never_retried() {
    let failed = run(&[BEGUN, TransactionEvent::BodyDone, TransactionEvent::CommitFailed]);
    assert_eq!(failed.step, TransactionStep::Failed(Fault::TransactionCommitFailed));
    let ambiguous = TransactionEvent::Begun { fault: Some(PostgresTransactionTestFault::AmbiguousCommit) };
    assert_eq!(
        run(&[ambiguous, TransactionEvent::BodyDone]).step,
        TransactionStep::Failed(Fault::TransactionCommitFailed)
    );
}

#[test]
fn refusals_are_not_retried() {
    let refused = TransactionEvent::BodyFailed(BodyFailure::Refused(Fault::TaskNotFound));
    assert_eq!(run(&[BEGUN, refused]).step, TransactionStep::Failed(Fault::TaskNotFound));
    let hidden = TransactionRun::new(true, true)
        .advance(BEGUN)
        .advance(TransactionEvent::BodyFailed(BodyFailure::Refused(Fault::StoredTaskCorrupt)));
    assert_eq!(hidden.step, TransactionStep::Failed(Fault::QuotaAuthorityUnavailable));
}

#[test]
fn test_faults_need_injected_time() {
    let faults = |trusting| TestFaults {
        trust_injected_time: trusting,
        transaction: vec![PostgresTransactionTestFault::DeadlockDetected],
        publication: None,
        callback_terminal: None,
    };
    let mut on = faults(true);
    assert_eq!(on.next_transaction_test_fault(), Some(PostgresTransactionTestFault::DeadlockDetected));
    assert_eq!(on.next_transaction_test_fault(), None);
    assert_eq!(on.set_artifact_publication_test_fault(ArtifactPublicationTestFault::BeforeManifest), Ok(()));
    assert_eq!(on.publication_fault(ArtifactPublicationTestFault::AfterManifest), Ok(()));
    assert_eq!(
        on.publication_fault(ArtifactPublicationTestFault::BeforeManifest),
        Err(Fault::InjectedPublicationFault)
    );
    assert_eq!(on.publication_fault(ArtifactPublicationTestFault::BeforeManifest), Ok(()));
    assert_eq!(on.set_callback_terminal_test_fault("f".to_string()), Ok(()));
    assert_eq!(on.callback_terminal_fault(), text("f"));
    assert_eq!(on.callback_terminal_fault(), None);
    assert_eq!(on.hold_test_pool_connection(), Ok(()));
    let mut off = faults(false);
    assert_eq!(off.next_transaction_test_fault(), None);
    assert_eq!(
        off.set_artifact_publication_test_fault(ArtifactPublicationTestFault::BeforeManifest),
        Err(Fault::PublicationFaultDisabled)
    );
    assert_eq!(
        off.set_callback_terminal_test_fault("f".to_string()),
        Err(Fault::CallbackTerminalFaultDisabled)
    );
    assert_eq!(off.hold_test_pool_connection(), Err(Fault::TestPoolHoldDisabled));
    assert_eq!(off.hold_test_tenant_counter_transaction(), Err(Fault::TestTenantHoldDisabled));
}
