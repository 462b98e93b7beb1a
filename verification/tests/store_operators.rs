//! Offline operations: their plans, and how the migrator is reached.

use smesh_authority::operators::{
    backup_artifacts, drop_test_schema, drop_with_finding, migrate_inline_artifacts, reach_migrator, restore_artifacts,
    restore_lock, rotate_artifact_key, route_with_findings, KeyRotation, OperatorStore,
};
use smesh_authority::store_config::{PostgresStoreConfig, PostgresStoreError};

const INVALID: Result<bool, PostgresStoreError> = Err(PostgresStoreError::InvalidConfig);
const MISMATCH: Result<bool, PostgresStoreError> = Err(PostgresStoreError::ArtifactMigrationPlanMismatch);

fn config(host: &str, options: &str) -> PostgresStoreConfig {
    let url = |user: &str| format!("postgres://{user}@{host}/db{options}");
    PostgresStoreConfig::new(url("migrator"), url("runtime"), "mesh".to_string()).unwrap()
}

fn sealed() -> PostgresStoreConfig {
    config("db.example", "?sslmode=require")
}

fn loopback() -> PostgresStoreConfig {
    config("localhost", "").with_test_only_insecure_loopback(true)
}

fn store(opened: bool) -> Option<OperatorStore> {
    Some(OperatorStore { root: "/blobs".to_string(), opened })
}

#[test]
fn migrators_are_reached_as_configured() {
    assert_eq!(reach_migrator(&sealed()), Ok(false));
    assert_eq!(reach_migrator(&loopback()), Ok(true));
    assert_eq!(reach_migrator(&config("db.example", "")), Err(PostgresStoreError::TlsRequired));
    assert_eq!(reach_migrator(&config("db.example", "?sslmode=verify-full")), INVALID);
    assert_eq!(route_with_findings(&None, &None, true, true), INVALID);
}

#[test]
fn backups_are_restored_where_they_belong() {
    let ask = |store: Option<OperatorStore>, schema: &str, root: &str| restore_artifacts(&sealed(), &store, schema, root);
    assert_eq!(ask(store(true), "mesh", "/blobs"), Ok(false));
    assert_eq!(ask(store(true), "other", "/blobs"), MISMATCH);
    assert_eq!(ask(store(true), "mesh", "/other"), MISMATCH);
    assert_eq!(ask(store(false), "mesh", "/other"), MISMATCH);
    assert_eq!(ask(store(false), "mesh", "/blobs"), INVALID);
    assert_eq!(ask(None, "mesh", "/blobs"), INVALID);
    assert_eq!(
        restore_artifacts(&config("db.example", ""), &store(true), "mesh", "/blobs"),
        Err(PostgresStoreError::TlsRequired)
    );
    assert_eq!(restore_lock("mesh", "r1"), "smesh-artifact-restore:mesh:r1");
}

#[test]
fn keys_are_rotated_to_the_active_one() {
    let rotation = |active: &str, old_key_held| KeyRotation {
        new_generation: "g2".to_string(),
        active_generation: active.to_string(),
        old_key_held,
    };
    let ask = |schema: &str, rotation| rotate_artifact_key(&loopback(), &store(true), schema, &rotation);
    assert_eq!(ask("mesh", rotation("g2", true)), Ok(true));
    assert_eq!(ask("mesh", rotation("g1", true)), INVALID);
    assert_eq!(ask("mesh", rotation("g2", false)), INVALID);
    assert_eq!(ask("other", rotation("g2", true)), MISMATCH);
}

#[test]
fn offline_plans_name_their_schema() {
    assert_eq!(backup_artifacts(&sealed(), &store(true), "mesh"), Ok(false));
    assert_eq!(backup_artifacts(&sealed(), &store(true), "other"), MISMATCH);
    assert_eq!(backup_artifacts(&sealed(), &None, "mesh"), INVALID);
    assert_eq!(migrate_inline_artifacts(&loopback(), &store(true), "mesh"), Ok(true));
    assert_eq!(migrate_inline_artifacts(&loopback(), &store(true), "other"), MISMATCH);
    assert_eq!(migrate_inline_artifacts(&loopback(), &store(false), "mesh"), INVALID);
}

#[test]
fn only_loopback_schemas_are_dropped() {
    let dropped = "DROP SCHEMA IF EXISTS mesh CASCADE; DROP ROLE IF EXISTS mesh_runtime".to_string();
    assert_eq!(drop_test_schema(&loopback()), Ok(dropped.clone()));
    let refused = Err(PostgresStoreError::InvalidConfig);
    assert_eq!(drop_test_schema(&config("localhost", "")), refused);
    let odd = config("localhost", "?color=red").with_test_only_insecure_loopback(true);
    assert_eq!(drop_test_schema(&odd), refused);
    assert_eq!(drop_with_finding(&odd, true), Ok(dropped));
    assert_eq!(drop_with_finding(&odd, false), refused);
}
