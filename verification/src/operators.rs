//! Offline operations on an authority: whether one may run, and how the migrator is then
//! reached.

use vstd::prelude::*;

use crate::store_config;
use crate::store_config::{PostgresStoreConfig, PostgresStoreError};
use crate::text;
use crate::weburl;
use crate::weburl::UrlParts;

verus! {

/// Whether the migrator is reached without TLS, or why it cannot be, given the parts of
/// the two URLs and whether the driver can be configured by the migrator's.
pub open spec fn migrator_route(
    migrator: Option<weburl::UrlView>,
    runtime: Option<weburl::UrlView>,
    insecure_loopback: bool,
    readable: bool,
) -> Result<bool, PostgresStoreError> {
    match store_config::transport_policy(migrator, runtime, insecure_loopback) {
        Err(e) => Err(e),
        Ok(plaintext) => if readable {
            Ok(plaintext)
        } else {
            Err(PostgresStoreError::InvalidConfig)
        },
    }
}

/// Whether the migrator of a configuration is reached without TLS, or why it cannot be.
pub open spec fn route_of(config: PostgresStoreConfig) -> Result<bool, PostgresStoreError> {
    migrator_route(
        weburl::url_parsed(config.migrator_url@),
        weburl::url_parsed(config.runtime_url@),
        config.test_only_insecure_loopback,
        weburl::connection_readable_of(config.migrator_url@),
    )
}

/// Decides how the migrator is reached, from what was read of the URLs.
pub fn route_with_findings(
    migrator: &Option<UrlParts>,
    runtime: &Option<UrlParts>,
    insecure_loopback: bool,
    readable: bool,
) -> (r: Result<bool, PostgresStoreError>)
    ensures
        r == migrator_route(
            store_config::parts_view(*migrator),
            store_config::parts_view(*runtime),
            insecure_loopback,
            readable,
        ),
{
    match store_config::validate_tls(migrator, runtime, insecure_loopback) {
        Err(e) => Err(e),
        Ok(plaintext) => if readable {
            Ok(plaintext)
        } else {
            Err(PostgresStoreError::InvalidConfig)
        },
    }
}

/// Decides how the migrator of a configuration is reached. A URL that the driver does not
/// read is refused before anything is connected to.
pub fn reach_migrator(config: &PostgresStoreConfig) -> (r: Result<bool, PostgresStoreError>)
    ensures
        r == route_of(*config),
{
    let migrator = weburl::parse_url(config.migrator_url.as_str());
    let runtime = weburl::parse_url(config.runtime_url.as_str());
    let readable = weburl::connection_readable(config.migrator_url.as_str());
    route_with_findings(&migrator, &runtime, config.test_only_insecure_loopback, readable)
}

/// The configured artifact store as an operation finds it: its root, and whether the
/// keyring and the files could be opened.
pub struct OperatorStore {
    pub root: String,
    pub opened: bool,
}

/// Why an operation is refused before the configuration is looked at. It must be planned
/// for this schema and, where it names a root, for the configured store, which must be
/// there.
pub open spec fn plan_fault(
    schema: Seq<char>,
    store: Option<OperatorStore>,
    plan_schema: Seq<char>,
    plan_root: Option<Seq<char>>,
) -> Option<PostgresStoreError> {
    if plan_schema != schema {
        Some(PostgresStoreError::ArtifactMigrationPlanMismatch)
    } else if store is None {
        Some(PostgresStoreError::InvalidConfig)
    } else if plan_root is Some && plan_root->0 != store->0.root@ {
        Some(PostgresStoreError::ArtifactMigrationPlanMismatch)
    } else if !store->0.opened {
        Some(PostgresStoreError::InvalidConfig)
    } else {
        None
    }
}

/// How an operation that its plan allows is reached.
pub open spec fn operation_route(fault: Option<PostgresStoreError>, config: PostgresStoreConfig) -> Result<
    bool,
    PostgresStoreError,
> {
    match fault {
        Some(e) => Err(e),
        None => route_of(config),
    }
}

fn check_plan(schema: &str, store: &Option<OperatorStore>, plan_schema: &str, plan_root: Option<&str>) -> (r: Result<
    (),
    PostgresStoreError,
>)
    ensures
        ({
            let root = match plan_root {
                Some(root) => Some(root@),
                None => None,
            };
            match r {
                Ok(_) => plan_fault(schema@, *store, plan_schema@, root) is None,
                Err(e) => plan_fault(schema@, *store, plan_schema@, root) == Some(e),
            }
        }),
{
    if !text::same_text(plan_schema, schema) {
        return Err(PostgresStoreError::ArtifactMigrationPlanMismatch);
    }
    match store {
        None => Err(PostgresStoreError::InvalidConfig),
        Some(found) => {
            if let Some(root) = plan_root {
                if !text::same_text(root, found.root.as_str()) {
                    return Err(PostgresStoreError::ArtifactMigrationPlanMismatch);
                }
            }
            if found.opened {
                Ok(())
            } else {
                Err(PostgresStoreError::InvalidConfig)
            }
        },
    }
}

/// Decides whether a backup may be restored into an authority: its plan must name the
/// schema and the root that are configured.
pub fn restore_artifacts(
    config: &PostgresStoreConfig,
    store: &Option<OperatorStore>,
    target_schema: &str,
    target_root: &str,
) -> (r: Result<bool, PostgresStoreError>)
    ensures
        r == operation_route(plan_fault(config.schema@, *store, target_schema@, Some(target_root@)), *config),
{
    match check_plan(config.schema.as_str(), store, target_schema, Some(target_root)) {
        Ok(_) => reach_migrator(config),
        Err(e) => Err(e),
    }
}

/// The key of the lock that a restore is run under.
pub fn restore_lock(schema: &str, restore_id: &str) -> (r: String)
    ensures
        r@ == "smesh-artifact-restore:"@ + schema@ + ":"@ + restore_id@,
{
    let mut key = "smesh-artifact-restore:".to_owned();
    key.append(schema);
    key.append(":");
    key.append(restore_id);
    key
}

/// A rotation of keys beside the keyring that was read.
pub struct KeyRotation {
    pub new_generation: String,
    pub active_generation: String,
    pub old_key_held: bool,
}

/// Why a rotation is refused before the configuration is looked at: the new key must be
/// active, and the old one held.
pub open spec fn rotation_fault(
    schema: Seq<char>,
    store: Option<OperatorStore>,
    plan_schema: Seq<char>,
    rotation: KeyRotation,
) -> Option<PostgresStoreError> {
    match plan_fault(schema, store, plan_schema, None) {
        Some(e) => Some(e),
        None => if rotation.active_generation@ == rotation.new_generation@ && rotation.old_key_held {
            None
        } else {
            Some(PostgresStoreError::InvalidConfig)
        },
    }
}

/// Decides whether the keys of an authority's artifacts may be rotated.
pub fn rotate_artifact_key(
    config: &PostgresStoreConfig,
    store: &Option<OperatorStore>,
    source_schema: &str,
    rotation: &KeyRotation,
) -> (r: Result<bool, PostgresStoreError>)
    ensures
        r == operation_route(rotation_fault(config.schema@, *store, source_schema@, *rotation), *config),
{
    match check_plan(config.schema.as_str(), store, source_schema, None) {
        Ok(_) => if rotation.active_generation == rotation.new_generation && rotation.old_key_held {
            reach_migrator(config)
        } else {
            Err(PostgresStoreError::InvalidConfig)
        },
        Err(e) => Err(e),
    }
}

/// Decides whether the artifacts of an authority may be backed up.
pub fn backup_artifacts(config: &PostgresStoreConfig, store: &Option<OperatorStore>, source_schema: &str) -> (r: Result<
    bool,
    PostgresStoreError,
>)
    ensures
        r == operation_route(plan_fault(config.schema@, *store, source_schema@, None), *config),
{
    match check_plan(config.schema.as_str(), store, source_schema, None) {
        Ok(_) => reach_migrator(config),
        Err(e) => Err(e),
    }
}

/// Decides whether the inline artifacts of an authority may be moved to its store.
pub fn migrate_inline_artifacts(config: &PostgresStoreConfig, store: &Option<OperatorStore>, source_schema: &str) -> (r:
    Result<bool, PostgresStoreError>)
    ensures
        r == operation_route(plan_fault(config.schema@, *store, source_schema@, None), *config),
{
    match check_plan(config.schema.as_str(), store, source_schema, None) {
        Ok(_) => reach_migrator(config),
        Err(e) => Err(e),
    }
}

/// No operation runs with a plan that was made for another schema.
pub proof fn law_operations_keep_to_their_schema(
    config: PostgresStoreConfig,
    store: Option<OperatorStore>,
    plan_schema: Seq<char>,
    plan_root: Option<Seq<char>>,
    rotation: KeyRotation,
)
    requires
        plan_schema != config.schema@,
    ensures
        operation_route(plan_fault(config.schema@, store, plan_schema, plan_root), config) == Err::<
            bool,
            PostgresStoreError,
        >(PostgresStoreError::ArtifactMigrationPlanMismatch),
        operation_route(rotation_fault(config.schema@, store, plan_schema, rotation), config) == Err::<
            bool,
            PostgresStoreError,
        >(PostgresStoreError::ArtifactMigrationPlanMismatch),
{
}

/// The statement that removes a test's schema and its role.
pub open spec fn drop_statement_of(schema: Seq<char>) -> Seq<char> {
    "DROP SCHEMA IF EXISTS "@ + schema + " CASCADE; DROP ROLE IF EXISTS "@ + schema + "_runtime"@
}

/// What removes a test's schema: only a loopback store is removed, and only where the
/// driver can be configured by its migrator's URL.
pub open spec fn drop_outcome(config: PostgresStoreConfig, readable: bool) -> Result<Seq<char>, PostgresStoreError> {
    if config.test_only_insecure_loopback && readable {
        Ok(drop_statement_of(config.schema@))
    } else {
        Err(PostgresStoreError::InvalidConfig)
    }
}

/// The statement that removes a test's schema and its role, given whether the driver can
/// be configured by the migrator's URL.
pub fn drop_with_finding(config: &PostgresStoreConfig, readable: bool) -> (r: Result<String, PostgresStoreError>)
    ensures
        match r {
            Ok(sql) => drop_outcome(*config, readable) == Ok::<Seq<char>, PostgresStoreError>(sql@),
            Err(e) => drop_outcome(*config, readable) == Err::<Seq<char>, PostgresStoreError>(e),
        },
{
    if !config.test_only_insecure_loopback || !readable {
        return Err(PostgresStoreError::InvalidConfig);
    }
    let mut sql = "DROP SCHEMA IF EXISTS ".to_owned();
    sql.append(config.schema.as_str());
    sql.append(" CASCADE; DROP ROLE IF EXISTS ");
    sql.append(config.schema.as_str());
    sql.append("_runtime");
    Ok(sql)
}

/// The statement that removes a test's schema and its role.
pub fn drop_test_schema(config: &PostgresStoreConfig) -> (r: Result<String, PostgresStoreError>)
    ensures
        ({
            let readable = weburl::connection_readable_of(config.migrator_url@);
            match r {
                Ok(sql) => drop_outcome(*config, readable) == Ok::<Seq<char>, PostgresStoreError>(sql@),
                Err(e) => drop_outcome(*config, readable) == Err::<Seq<char>, PostgresStoreError>(e),
            }
        }),
{
    drop_with_finding(config, weburl::connection_readable(config.migrator_url.as_str()))
}

/// An operation is allowed exactly where its plan names this schema and, where it names a root, the
/// root of a store that is configured and open; a plan for another schema or root is a mismatch,
/// a store that is missing or cannot be opened a bad configuration.
pub proof fn law_operations_keep_to_their_store(
    schema: Seq<char>,
    store: Option<OperatorStore>,
    plan_schema: Seq<char>,
    plan_root: Option<Seq<char>>,
)
    ensures
        plan_fault(schema, store, plan_schema, plan_root) is None <==> plan_schema == schema && store is Some
            && store->0.opened && (plan_root is Some ==> plan_root->0 == store->0.root@),
        plan_fault(schema, store, plan_schema, plan_root) == Some(PostgresStoreError::ArtifactMigrationPlanMismatch)
            <==> plan_schema != schema || (store is Some && plan_root is Some && plan_root->0 != store->0.root@),
        plan_fault(schema, store, plan_schema, plan_root) is Some ==> plan_fault(
            schema,
            store,
            plan_schema,
            plan_root,
        )->0 is ArtifactMigrationPlanMismatch || plan_fault(schema, store, plan_schema, plan_root)->0 is InvalidConfig,
{
}

/// Keys are rotated only to the one that is active, and only while the old one is held.
pub proof fn law_rotations_keep_both_keys(
    schema: Seq<char>,
    store: Option<OperatorStore>,
    plan_schema: Seq<char>,
    rotation: KeyRotation,
)
    ensures
        rotation_fault(schema, store, plan_schema, rotation) is None <==> plan_schema == schema && store is Some
            && store->0.opened && rotation.old_key_held && rotation.new_generation@ == rotation.active_generation@,
        plan_schema == schema && (store is None || !store->0.opened || !rotation.old_key_held || rotation.new_generation@
            != rotation.active_generation@) ==> rotation_fault(schema, store, plan_schema, rotation) == Some(
            PostgresStoreError::InvalidConfig,
        ),
{
}

/// An operation that its plan forbids fails as the plan says, and one that it allows is reached as
/// the migrator is; a migrator whose URL the driver does not read is not reached at all.
pub proof fn law_operations_are_reached_as_the_migrator(
    config: PostgresStoreConfig,
    fault: PostgresStoreError,
    migrator: Option<weburl::UrlView>,
    runtime: Option<weburl::UrlView>,
    insecure_loopback: bool,
)
    ensures
        operation_route(Some(fault), config) == Err::<bool, PostgresStoreError>(fault),
        operation_route(None, config) == route_of(config),
        route_of(config) is Ok ==> weburl::connection_readable_of(config.migrator_url@) && route_of(config)
            == store_config::transport_policy(
            weburl::url_parsed(config.migrator_url@),
            weburl::url_parsed(config.runtime_url@),
            config.test_only_insecure_loopback,
        ),
        migrator_route(migrator, runtime, insecure_loopback, true) == store_config::transport_policy(
            migrator,
            runtime,
            insecure_loopback,
        ),
        migrator_route(migrator, runtime, insecure_loopback, false) is Err,
        store_config::transport_policy(migrator, runtime, insecure_loopback) is Err ==> migrator_route(
            migrator,
            runtime,
            insecure_loopback,
            false,
        ) == store_config::transport_policy(migrator, runtime, insecure_loopback),
        store_config::transport_policy(migrator, runtime, insecure_loopback) is Ok ==> migrator_route(
            migrator,
            runtime,
            insecure_loopback,
            false,
        ) == Err::<bool, PostgresStoreError>(PostgresStoreError::InvalidConfig),
{
}

/// Only the schema of a test is removed, and never where the driver does not read its URL; the
/// statement names that schema and its role.
pub proof fn law_only_test_schemas_are_removed(config: PostgresStoreConfig, readable: bool)
    ensures
        drop_outcome(config, readable) is Ok <==> config.test_only_insecure_loopback && readable,
        drop_outcome(config, readable) is Err ==> drop_outcome(config, readable) == Err::<
            Seq<char>,
            PostgresStoreError,
        >(PostgresStoreError::InvalidConfig),
        drop_outcome(config, readable) matches Ok(sql) ==> {
            let n = config.schema@.len() as int;
            &&& sql.len() == 22 + n + 30 + n + 8
            &&& sql.subrange(22, 22 + n) == config.schema@
            &&& sql.subrange(52 + n, 52 + n + n) == config.schema@
            &&& sql.subrange(52 + n + n, 60 + n + n) == "_runtime"@
        },
{
    reveal_strlit("DROP SCHEMA IF EXISTS ");
    reveal_strlit(" CASCADE; DROP ROLE IF EXISTS ");
    reveal_strlit("_runtime");
    if drop_outcome(config, readable) is Ok {
        let sql = drop_outcome(config, readable)->Ok_0;
        let n = config.schema@.len() as int;
        assert(" CASCADE; DROP ROLE IF EXISTS "@.len() == 30);
        assert(sql.subrange(22, 22 + n) =~= config.schema@);
        assert(sql.subrange(52 + n, 52 + n + n) =~= config.schema@);
        assert(sql.subrange(52 + n + n, 60 + n + n) =~= "_runtime"@);
    }
}

/// An operation without a store, or with one that cannot be opened, has a bad configuration.
pub proof fn law_operations_need_an_open_store(schema: Seq<char>, store: OperatorStore)
    ensures
        plan_fault(schema, None, schema, None) == Some(PostgresStoreError::InvalidConfig),
        !store.opened ==> plan_fault(schema, Some(store), schema, None) == Some(PostgresStoreError::InvalidConfig),
        !store.opened ==> plan_fault(schema, Some(store), schema, Some(store.root@)) == Some(
            PostgresStoreError::InvalidConfig,
        ),
        store.opened ==> plan_fault(schema, Some(store), schema, Some(store.root@)) is None,
{
}

} // verus!
