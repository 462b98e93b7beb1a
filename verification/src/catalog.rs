//! Validation of the database catalog, of artifact manifests and of callbacks.

use vstd::prelude::*;

use crate::crypto;
use crate::json;
use crate::schema_names;
use crate::store_config::PostgresStoreError;
use crate::text;

verus! {

/// The schema version that the first migrations record.
pub const LOGICAL_SCHEMA_VERSION: i64 = 6;

/// The schema version of a migrated schema.
pub const CURRENT_SCHEMA_VERSION: i64 = 9;

/// The schema version that a migration records.
pub open spec fn migration_version_of(revision: int) -> int {
    if revision <= 6 {
        LOGICAL_SCHEMA_VERSION as int
    } else {
        revision
    }
}

/// The schema version that a migration records.
pub fn migration_version(revision: i64) -> (r: i64)
    ensures
        r == migration_version_of(revision as int),
{
    if revision <= 6 {
        LOGICAL_SCHEMA_VERSION
    } else {
        revision
    }
}

/// The name of a schema's runtime role.
pub open spec fn runtime_role_of(schema: Seq<char>) -> Seq<char> {
    schema + "_runtime"@
}

/// The name of a schema's runtime role.
pub fn runtime_role(schema: &str) -> (r: String)
    ensures
        r@ == runtime_role_of(schema@),
{
    let mut out = schema.to_owned();
    out.append("_runtime");
    out
}

/// A statement for a schema.
pub open spec fn statement_of(template: Seq<char>, schema: Seq<char>) -> Seq<char> {
    text::replaced(template, "__S__"@, schema)
}

/// Puts the schema into a statement.
pub fn q(template: &str, schema: &str) -> (r: String)
    ensures
        r@ == statement_of(template@, schema@),
{
    proof {
        reveal_strlit("__S__");
    }
    text::replace_text(template, "__S__", schema)
}

/// The digest of a catalog: its description with the schema's name taken out.
pub open spec fn catalog_digest_of(lines: Seq<Seq<char>>, schema: Seq<char>) -> Seq<char> {
    crypto::content_digest_of(text::utf8(text::replaced(text::joined(lines, "\n"@), schema, "__SCHEMA__"@)))
}

/// Computes the digest of a catalog from its description.
pub fn catalog_digest(lines: &Vec<String>, schema: &str) -> (r: String)
    requires
        schema@.len() > 0,
    ensures
        r@ == catalog_digest_of(text::texts(lines@), schema@),
{
    let manifest = text::join_texts(lines, "\n");
    let normalized = text::replace_text(manifest.as_str(), schema, "__SCHEMA__");
    crypto::text_digest(normalized.as_str())
}

/// A function that runs with the rights of its owner.
pub struct DefinerRow {
    pub name: String,
    pub owner: String,
    pub settings: Option<Vec<String>>,
}

/// The settings that such a function must have.
pub open spec fn required_settings(name: Seq<char>) -> Seq<Seq<char>> {
    if schema_names::keeps_row_security(name) {
        seq!["search_path=pg_catalog"@, "row_security=on"@]
    } else {
        seq!["search_path=pg_catalog"@]
    }
}

/// Whether a function that runs with the rights of its owner is as it must be.
pub open spec fn definer_valid(row: DefinerRow, i: int, owner: Seq<char>) -> bool {
    &&& row.name@ == schema_names::definer_name_at(i)
    &&& row.owner@ == owner
    &&& row.settings is Some
    &&& text::texts(row.settings->0@) == required_settings(row.name@)
}

fn check_settings(name: &str, settings: &Vec<String>) -> (ok: bool)
    ensures
        ok == (text::texts(settings@) == required_settings(name@)),
{
    let ghost have = text::texts(settings@);
    assert(have.len() == settings@.len());
    if schema_names::row_secured(name) {
        if settings.len() != 2 {
            return false;
        }
        let ok = text::same_text(settings[0].as_str(), "search_path=pg_catalog") && text::same_text(
            settings[1].as_str(),
            "row_security=on",
        );
        proof {
            assert(have[0] == settings@[0]@ && have[1] == settings@[1]@);
            let want = required_settings(name@);
            assert(want[0] == "search_path=pg_catalog"@ && want[1] == "row_security=on"@);
            if ok {
                assert(have =~= want);
            }
        }
        ok
    } else {
        if settings.len() != 1 {
            return false;
        }
        let ok = text::same_text(settings[0].as_str(), "search_path=pg_catalog");
        proof {
            assert(have[0] == settings@[0]@);
            let want = required_settings(name@);
            assert(want[0] == "search_path=pg_catalog"@);
            if ok {
                assert(have =~= want);
            }
        }
        ok
    }
}

fn check_definers(rows: &Vec<DefinerRow>, owner: &str) -> (ok: bool)
    ensures
        ok == (rows@.len() == schema_names::DEFINER_COUNT && forall|i: int|
            0 <= i < rows@.len() ==> definer_valid(#[trigger] rows@[i], i, owner@)),
{
    if rows.len() != schema_names::DEFINER_COUNT {
        return false;
    }
    let mut i: usize = 0;
    while i < rows.len()
        invariant
            i <= rows@.len() == schema_names::DEFINER_COUNT,
            forall|j: int| 0 <= j < i ==> definer_valid(#[trigger] rows@[j], j, owner@),
        decreases rows@.len() - i,
    {
        let row = &rows[i];
        let set = match &row.settings {
            Some(settings) => check_settings(row.name.as_str(), settings),
            None => false,
        };
        if !set || !text::same_text(row.name.as_str(), schema_names::definer_name(i)) || !text::same_text(
            row.owner.as_str(),
            owner,
        ) {
            assert(!definer_valid(rows@[i as int], i as int, owner@));
            return false;
        }
        i += 1;
    }
    true
}

/// A table, and whether row security is on and forced on it.
pub struct TableRow {
    pub name: String,
    pub row_security: bool,
    pub forced: bool,
}

/// Whether a table is as it must be: row security is on and forced exactly where
/// it holds rows of tenants.
pub open spec fn table_valid(row: TableRow, i: int) -> bool {
    &&& row.name@ == schema_names::table_name_at(i)
    &&& row.row_security == !schema_names::is_global_table(row.name@)
    &&& row.forced == !schema_names::is_global_table(row.name@)
}

fn check_tables(rows: &Vec<TableRow>) -> (ok: bool)
    ensures
        ok == (rows@.len() == schema_names::TABLE_COUNT && forall|i: int|
            0 <= i < rows@.len() ==> table_valid(#[trigger] rows@[i], i)),
{
    if rows.len() != schema_names::TABLE_COUNT {
        return false;
    }
    let mut i: usize = 0;
    while i < rows.len()
        invariant
            i <= rows@.len() == schema_names::TABLE_COUNT,
            forall|j: int| 0 <= j < i ==> table_valid(#[trigger] rows@[j], j),
        decreases rows@.len() - i,
    {
        let row = &rows[i];
        let tenant = !schema_names::global_table(row.name.as_str());
        if !text::same_text(row.name.as_str(), schema_names::table_name(i)) || row.row_security != tenant || row.forced
            != tenant {
            assert(!table_valid(rows@[i as int], i as int));
            return false;
        }
        i += 1;
    }
    true
}

/// A policy that isolates tenants: what it shows and what it lets be written.
pub struct PolicyRow {
    pub using: String,
    pub check: String,
}

/// Whether a policy isolates tenants, for reads and writes alike.
pub open spec fn policy_valid(row: PolicyRow) -> bool {
    &&& text::holds(text::utf8(row.using@), text::utf8("current_setting('smesh.tenant_scope'::text, true)"@))
    &&& row.using@ == row.check@
}

fn check_policies(rows: &Vec<PolicyRow>) -> (ok: bool)
    ensures
        ok == forall|i: int| 0 <= i < rows@.len() ==> policy_valid(#[trigger] rows@[i]),
{
    let mut i: usize = 0;
    while i < rows.len()
        invariant
            i <= rows@.len(),
            forall|j: int| 0 <= j < i ==> policy_valid(#[trigger] rows@[j]),
        decreases rows@.len() - i,
    {
        let row = &rows[i];
        if !text::contains_bytes(
            row.using.as_str().as_bytes(),
            "current_setting('smesh.tenant_scope'::text, true)".as_bytes(),
        ) || row.using != row.check {
            assert(!policy_valid(rows@[i as int]));
            return false;
        }
        i += 1;
    }
    true
}

/// Whether indexes are those that must be there.
pub open spec fn indexes_valid(names: Seq<String>) -> bool {
    &&& names.len() == schema_names::INDEX_COUNT
    &&& forall|i: int| 0 <= i < names.len() ==> (#[trigger] names[i])@ == schema_names::index_name_at(i)
}

fn check_indexes(names: &Vec<String>) -> (ok: bool)
    ensures
        ok == indexes_valid(names@),
{
    if names.len() != schema_names::INDEX_COUNT {
        return false;
    }
    let mut i: usize = 0;
    while i < names.len()
        invariant
            i <= names@.len() == schema_names::INDEX_COUNT,
            forall|j: int| 0 <= j < i ==> (#[trigger] names@[j])@ == schema_names::index_name_at(j),
        decreases names@.len() - i,
    {
        if !text::same_text(names[i].as_str(), schema_names::index_name(i)) {
            assert(names@[i as int]@ != schema_names::index_name_at(i as int));
            return false;
        }
        i += 1;
    }
    true
}

/// A migration on record.
pub struct MigrationRow {
    pub revision: i64,
    pub schema_version: i64,
    pub name: String,
    pub checksum: String,
}

/// Whether the migration on record at a position is the one that belongs there.
pub open spec fn migration_valid(row: MigrationRow, i: int, script: Seq<char>) -> bool {
    &&& row.revision == i + 1
    &&& row.schema_version == migration_version_of(i + 1)
    &&& row.name@ == schema_names::migration_name_at(i)
    &&& row.checksum@ == crypto::content_digest_of(text::utf8(script))
}

/// Whether the migrations on record are those of the scripts.
pub open spec fn migrations_valid(rows: Seq<MigrationRow>, scripts: Seq<String>) -> bool {
    &&& rows.len() == schema_names::MIGRATION_COUNT
    &&& forall|i: int| 0 <= i < rows.len() ==> migration_valid(#[trigger] rows[i], i, scripts[i]@)
}

fn check_migrations(rows: &Vec<MigrationRow>, scripts: &Vec<String>) -> (ok: bool)
    requires
        scripts@.len() == schema_names::MIGRATION_COUNT,
    ensures
        ok == migrations_valid(rows@, scripts@),
{
    if rows.len() != schema_names::MIGRATION_COUNT {
        return false;
    }
    let mut i: usize = 0;
    while i < rows.len()
        invariant
            i <= rows@.len() == schema_names::MIGRATION_COUNT == scripts@.len(),
            forall|j: int| 0 <= j < i ==> migration_valid(#[trigger] rows@[j], j, scripts@[j]@),
        decreases rows@.len() - i,
    {
        let row = &rows[i];
        let revision: i64 = i as i64 + 1;
        let checksum = crypto::text_digest(scripts[i].as_str());
        if row.revision != revision || row.schema_version != migration_version(revision) || !text::same_text(
            row.name.as_str(),
            schema_names::migration_name(i),
        ) || row.checksum != checksum {
            assert(!migration_valid(rows@[i as int], i as int, scripts@[i as int]@));
            return false;
        }
        i += 1;
    }
    true
}

/// What a schema says of itself.
pub struct MetadataRow {
    pub schema_version: i64,
    pub migration_hash: String,
    pub catalog_hash: String,
    pub cursor_key: Vec<u8>,
    pub receipt_key: Vec<u8>,
}

/// What the database reports of a schema.
pub struct CatalogImage {
    pub owner: String,
    pub definers: Vec<DefinerRow>,
    pub tables: Vec<TableRow>,
    pub policy_count: i64,
    pub policies: Vec<PolicyRow>,
    pub indexes: Vec<String>,
    pub migrations: Vec<MigrationRow>,
    pub metadata: Option<MetadataRow>,
    pub catalog_lines: Vec<String>,
    pub callbacks: CallbackImage,
}

/// Whether a schema's description of itself is true.
pub open spec fn metadata_valid(image: CatalogImage, schema: Seq<char>, scripts: Seq<String>) -> bool {
    &&& image.metadata is Some
    &&& image.metadata->0.schema_version == CURRENT_SCHEMA_VERSION
    &&& image.metadata->0.migration_hash@ == crypto::content_digest_of(text::utf8(scripts[0]@))
    &&& image.metadata->0.catalog_hash@ == catalog_digest_of(text::texts(image.catalog_lines@), schema)
    &&& image.metadata->0.cursor_key@.len() == 32
    &&& image.metadata->0.receipt_key@.len() == 32
}

/// Whether a schema is as it must be.
pub open spec fn catalog_valid(image: CatalogImage, schema: Seq<char>, scripts: Seq<String>) -> bool {
    &&& image.definers@.len() == schema_names::DEFINER_COUNT
    &&& forall|i: int|
        0 <= i < image.definers@.len() ==> definer_valid(#[trigger] image.definers@[i], i, image.owner@)
    &&& image.tables@.len() == schema_names::TABLE_COUNT
    &&& forall|i: int| 0 <= i < image.tables@.len() ==> table_valid(#[trigger] image.tables@[i], i)
    &&& image.policy_count == schema_names::TENANT_TABLE_COUNT
    &&& forall|i: int| 0 <= i < image.policies@.len() ==> policy_valid(#[trigger] image.policies@[i])
    &&& indexes_valid(image.indexes@)
    &&& migrations_valid(image.migrations@, scripts)
    &&& metadata_valid(image, schema, scripts)
    &&& callbacks_valid(image.callbacks)
}

/// Validates a schema and hands out its cursor and receipt keys.
pub fn validate_catalog(image: &CatalogImage, schema: &str, scripts: &Vec<String>) -> (r: Result<
    (Vec<u8>, Vec<u8>),
    PostgresStoreError,
>)
    requires
        schema@.len() > 0,
        scripts@.len() == schema_names::MIGRATION_COUNT,
    ensures
        match r {
            Ok(keys) => catalog_valid(*image, schema@, scripts@) && keys.0@ == image.metadata->0.cursor_key@ && keys.1@
                == image.metadata->0.receipt_key@,
            Err(e) => e == PostgresStoreError::InvalidSchema && !catalog_valid(*image, schema@, scripts@),
        },
{
    if !check_definers(&image.definers, image.owner.as_str()) || !check_tables(&image.tables) {
        return Err(PostgresStoreError::InvalidSchema);
    }
    if image.policy_count != schema_names::TENANT_TABLE_COUNT as i64 || !check_policies(&image.policies)
        || !check_indexes(&image.indexes) || !check_migrations(&image.migrations, scripts) {
        return Err(PostgresStoreError::InvalidSchema);
    }
    let metadata = match &image.metadata {
        Some(metadata) => metadata,
        None => {
            return Err(PostgresStoreError::InvalidSchema);
        },
    };
    let actual = catalog_digest(&image.catalog_lines, schema);
    let first = crypto::text_digest(scripts[0].as_str());
    if metadata.schema_version != CURRENT_SCHEMA_VERSION || metadata.migration_hash != first || metadata.catalog_hash
        != actual || metadata.cursor_key.len() != 32 || metadata.receipt_key.len() != 32 {
        return Err(PostgresStoreError::InvalidSchema);
    }
    match validate_callback_semantics(&image.callbacks) {
        Ok(_) => {},
        Err(e) => {
            return Err(e);
        },
    }
    Ok(
        (
            text::copy_bytes(metadata.cursor_key.as_slice()),
            text::copy_bytes(metadata.receipt_key.as_slice()),
        ),
    )
}

/// A callback policy on record; `accepted` tells whether its numbers form a policy.
pub struct CallbackPolicyRecord {
    pub policy_revision: i64,
    pub max_configs_per_task: i32,
    pub max_configs_per_tenant: i64,
    pub max_pending: i64,
    pub max_payload_bytes: i32,
    pub max_attempts: i32,
    pub max_delivery_age_ms: i64,
    pub accepted: bool,
}

/// What is on record of callbacks: the policies, and for each tenant and for all
/// of them how many rows violate a rule.
pub struct CallbackImage {
    pub policies: Vec<CallbackPolicyRecord>,
    pub tenant_violations: Vec<i64>,
    pub violations: i64,
}

/// Whether a callback policy on record is valid.
pub open spec fn callback_policy_valid(p: CallbackPolicyRecord) -> bool {
    &&& p.policy_revision >= 0
    &&& 0 <= p.max_configs_per_task <= u16::MAX
    &&& 0 <= p.max_configs_per_tenant <= u32::MAX
    &&& 0 <= p.max_pending <= u32::MAX
    &&& p.max_payload_bytes >= 0
    &&& 0 <= p.max_attempts <= u16::MAX
    &&& p.max_delivery_age_ms >= 0
    &&& p.accepted
}

/// Whether everything on record of callbacks is valid.
pub open spec fn callbacks_valid(image: CallbackImage) -> bool {
    &&& forall|i: int| 0 <= i < image.policies@.len() ==> callback_policy_valid(#[trigger] image.policies@[i])
    &&& forall|i: int| 0 <= i < image.tenant_violations@.len() ==> #[trigger] image.tenant_violations@[i] == 0
    &&& image.violations == 0
}

fn check_callback_policies(rows: &Vec<CallbackPolicyRecord>) -> (ok: bool)
    ensures
        ok == forall|i: int| 0 <= i < rows@.len() ==> callback_policy_valid(#[trigger] rows@[i]),
{
    let mut i: usize = 0;
    while i < rows.len()
        invariant
            i <= rows@.len(),
            forall|j: int| 0 <= j < i ==> callback_policy_valid(#[trigger] rows@[j]),
        decreases rows@.len() - i,
    {
        let p = &rows[i];
        if p.policy_revision < 0 || p.max_configs_per_task < 0 || p.max_configs_per_task > 65_535
            || p.max_configs_per_tenant < 0 || p.max_configs_per_tenant > 0xffff_ffff || p.max_pending < 0
            || p.max_pending > 0xffff_ffff || p.max_payload_bytes < 0 || p.max_attempts < 0 || p.max_attempts > 65_535
            || p.max_delivery_age_ms < 0 || !p.accepted {
            assert(!callback_policy_valid(rows@[i as int]));
            return false;
        }
        i += 1;
    }
    true
}

fn all_zero(counts: &Vec<i64>) -> (ok: bool)
    ensures
        ok == forall|i: int| 0 <= i < counts@.len() ==> #[trigger] counts@[i] == 0,
{
    let mut i: usize = 0;
    while i < counts.len()
        invariant
            i <= counts@.len(),
            forall|j: int| 0 <= j < i ==> #[trigger] counts@[j] == 0,
        decreases counts@.len() - i,
    {
        if counts[i] != 0 {
            return false;
        }
        i += 1;
    }
    true
}

/// Validates everything on record of callbacks.
pub fn validate_callback_semantics(image: &CallbackImage) -> (r: Result<(), PostgresStoreError>)
    ensures
        r == (if callbacks_valid(*image) {
            Ok::<(), PostgresStoreError>(())
        } else {
            Err(PostgresStoreError::InvalidSchema)
        }),
{
    if !check_callback_policies(&image.policies) || !all_zero(&image.tenant_violations) || image.violations != 0 {
        return Err(PostgresStoreError::InvalidSchema);
    }
    Ok(())
}

/// A chunk on record.
pub struct ChunkRow {
    pub ordinal: i32,
    pub byte_offset: i64,
    pub plaintext_length: i64,
    pub content_digest: String,
}

/// An edge of provenance on record.
pub struct EdgeRow {
    pub parent_artifact_id: String,
    pub relation: String,
}

/// A manifest on record.
pub struct ManifestRecord {
    pub artifact_id: String,
    pub manifest_digest: String,
    pub canonical: String,
    pub owner_account_id: String,
    pub task_id: String,
    pub context_id: String,
    pub message_id: String,
    pub dispatch_id: String,
    pub media_type: String,
    pub plaintext_length: i64,
    pub classification: String,
    pub encryption_domain: String,
    pub policy_id: String,
    pub policy_revision: i64,
    pub policy_digest: String,
    pub created_at: i64,
    pub retain_until: i64,
    pub content_digest: String,
    pub tenant_scope: String,
    pub chunks: Vec<ChunkRow>,
    pub provenance: Vec<EdgeRow>,
}

/// The seal of a manifest's canonical text.
pub open spec fn manifest_seal(canonical: Seq<char>) -> Seq<char> {
    crypto::content_digest_of(text::utf8("smesh-artifact-manifest/v1\0"@) + text::utf8(canonical))
}

/// Whether a manifest's canonical text says of the content what its columns say.
pub open spec fn content_matches(m: ManifestRecord) -> bool {
    let d = m.canonical@;
    &&& json::string_at(d, "schema"@) == Some("smesh-artifact-manifest/v1"@)
    &&& json::string_at(d, "artifactId"@) == Some(m.artifact_id@)
    &&& json::string_at(d, "mediaType"@) == Some(m.media_type@)
    &&& json::integer_at(d, "plaintextLength"@) == Some(m.plaintext_length)
    &&& json::string_at(d, "classification"@) == Some(m.classification@)
    &&& json::string_at(d, "encryptionDomain"@) == Some(m.encryption_domain@)
    &&& json::string_at(d, "contentDigest"@) == Some(m.content_digest@)
}

/// Whether the producer that a manifest names is the one of its columns.
pub open spec fn producer_matches(producer: Seq<char>, m: ManifestRecord) -> bool {
    &&& json::string_at(producer, "owner"@) == Some(m.owner_account_id@)
    &&& json::string_at(producer, "tenant"@) == Some(m.tenant_scope@)
    &&& json::string_at(producer, "task"@) == Some(m.task_id@)
    &&& json::string_at(producer, "context"@) == Some(m.context_id@)
    &&& json::string_at(producer, "message"@) == Some(m.message_id@)
    &&& json::string_at(producer, "dispatch"@) == Some(m.dispatch_id@)
}

/// Whether the policy that a manifest names is the one of its columns.
pub open spec fn policy_matches(policy: Seq<char>, m: ManifestRecord) -> bool {
    &&& json::string_at(policy, "policyId"@) == Some(m.policy_id@)
    &&& json::integer_at(policy, "revision"@) == Some(m.policy_revision)
    &&& json::string_at(policy, "digest"@) == Some(m.policy_digest@)
    &&& json::integer_at(policy, "createdAt"@) == Some(m.created_at)
    &&& json::integer_at(policy, "retainUntil"@) == Some(m.retain_until)
}

/// Whether a listed chunk is the one on record.
pub open spec fn chunk_matches(chunk: Seq<char>, row: ChunkRow) -> bool {
    &&& json::integer_at(chunk, "ordinal"@) == Some(row.ordinal as i64)
    &&& json::integer_at(chunk, "offset"@) == Some(row.byte_offset)
    &&& json::integer_at(chunk, "length"@) == Some(row.plaintext_length)
    &&& json::string_at(chunk, "digest"@) == Some(row.content_digest@)
}

/// Whether the listed chunks are those on record.
pub open spec fn chunks_match(listed: Option<Seq<Seq<char>>>, rows: Seq<ChunkRow>) -> bool {
    &&& listed is Some
    &&& listed->0.len() == rows.len()
    &&& forall|i: int| 0 <= i < rows.len() ==> chunk_matches(listed->0[i], #[trigger] rows[i])
}

/// Whether a listed edge is the one on record.
pub open spec fn edge_matches(edge: Seq<char>, row: EdgeRow) -> bool {
    &&& json::string_at(edge, "artifactId"@) == Some(row.parent_artifact_id@)
    &&& json::string_at(edge, "relation"@) == Some(row.relation@)
}

/// Whether the listed edges are those on record.
pub open spec fn edges_match(listed: Option<Seq<Seq<char>>>, rows: Seq<EdgeRow>) -> bool {
    &&& listed is Some
    &&& listed->0.len() == rows.len()
    &&& forall|i: int| 0 <= i < rows.len() ==> edge_matches(listed->0[i], #[trigger] rows[i])
}

/// Whether a manifest on record is sealed and agrees with everything beside it.
pub open spec fn manifest_valid(m: ManifestRecord) -> bool {
    let producer = json::json_member_of(m.canonical@, "producer"@);
    let policy = json::json_member_of(m.canonical@, "policy"@);
    &&& m.manifest_digest@ == manifest_seal(m.canonical@)
    &&& content_matches(m)
    &&& producer is Some && producer_matches(producer->0, m)
    &&& policy is Some && policy_matches(policy->0, m)
    &&& chunks_match(json::items_at(m.canonical@, "chunks"@), m.chunks@)
    &&& edges_match(json::items_at(m.canonical@, "derivedFrom"@), m.provenance@)
}

fn check_content(m: &ManifestRecord) -> (ok: bool)
    ensures
        ok == content_matches(*m),
{
    let d = m.canonical.as_str();
    json::holds_string(d, "schema", "smesh-artifact-manifest/v1") && json::holds_string(
        d,
        "artifactId",
        m.artifact_id.as_str(),
    ) && json::holds_string(d, "mediaType", m.media_type.as_str()) && json::holds_integer(
        d,
        "plaintextLength",
        m.plaintext_length,
    ) && json::holds_string(d, "classification", m.classification.as_str()) && json::holds_string(
        d,
        "encryptionDomain",
        m.encryption_domain.as_str(),
    ) && json::holds_string(d, "contentDigest", m.content_digest.as_str())
}

fn check_producer(m: &ManifestRecord) -> (ok: bool)
    ensures
        ok == (json::json_member_of(m.canonical@, "producer"@) matches Some(producer) && producer_matches(producer, *m)),
{
    match json::json_member(m.canonical.as_str(), "producer") {
        Some(member) => {
            let producer = member.as_str();
            json::holds_string(producer, "owner", m.owner_account_id.as_str()) && json::holds_string(
                producer,
                "tenant",
                m.tenant_scope.as_str(),
            ) && json::holds_string(producer, "task", m.task_id.as_str()) && json::holds_string(
                producer,
                "context",
                m.context_id.as_str(),
            ) && json::holds_string(producer, "message", m.message_id.as_str()) && json::holds_string(
                producer,
                "dispatch",
                m.dispatch_id.as_str(),
            )
        },
        None => false,
    }
}

fn check_policy(m: &ManifestRecord) -> (ok: bool)
    ensures
        ok == (json::json_member_of(m.canonical@, "policy"@) matches Some(policy) && policy_matches(policy, *m)),
{
    match json::json_member(m.canonical.as_str(), "policy") {
        Some(member) => {
            let policy = member.as_str();
            json::holds_string(policy, "policyId", m.policy_id.as_str()) && json::holds_integer(
                policy,
                "revision",
                m.policy_revision,
            ) && json::holds_string(policy, "digest", m.policy_digest.as_str()) && json::holds_integer(
                policy,
                "createdAt",
                m.created_at,
            ) && json::holds_integer(policy, "retainUntil", m.retain_until)
        },
        None => false,
    }
}

fn check_chunks(canonical: &str, rows: &Vec<ChunkRow>) -> (ok: bool)
    ensures
        ok == chunks_match(json::items_at(canonical@, "chunks"@), rows@),
{
    let listed = match json::list_at(canonical, "chunks") {
        Some(listed) => listed,
        None => {
            return false;
        },
    };
    let ghost views = text::texts(listed@);
    assert(views.len() == listed@.len());
    if listed.len() != rows.len() {
        return false;
    }
    let mut i: usize = 0;
    while i < rows.len()
        invariant
            listed@.len() == rows@.len(),
            i <= rows@.len(),
            views == text::texts(listed@),
            json::items_at(canonical@, "chunks"@) == Some(views),
            forall|j: int| 0 <= j < i ==> chunk_matches(views[j], #[trigger] rows@[j]),
        decreases rows@.len() - i,
    {
        let chunk = listed[i].as_str();
        let row = &rows[i];
        assert(views[i as int] == chunk@);
        if !json::holds_integer(chunk, "ordinal", row.ordinal as i64) || !json::holds_integer(
            chunk,
            "offset",
            row.byte_offset,
        ) || !json::holds_integer(chunk, "length", row.plaintext_length) || !json::holds_string(
            chunk,
            "digest",
            row.content_digest.as_str(),
        ) {
            assert(!chunk_matches(views[i as int], rows@[i as int]));
            return false;
        }
        i += 1;
    }
    true
}

fn check_edges(canonical: &str, rows: &Vec<EdgeRow>) -> (ok: bool)
    ensures
        ok == edges_match(json::items_at(canonical@, "derivedFrom"@), rows@),
{
    let listed = match json::list_at(canonical, "derivedFrom") {
        Some(listed) => listed,
        None => {
            return false;
        },
    };
    let ghost views = text::texts(listed@);
    assert(views.len() == listed@.len());
    if listed.len() != rows.len() {
        return false;
    }
    let mut i: usize = 0;
    while i < rows.len()
        invariant
            listed@.len() == rows@.len(),
            i <= rows@.len(),
            views == text::texts(listed@),
            json::items_at(canonical@, "derivedFrom"@) == Some(views),
            forall|j: int| 0 <= j < i ==> edge_matches(views[j], #[trigger] rows@[j]),
        decreases rows@.len() - i,
    {
        let edge = listed[i].as_str();
        assert(views[i as int] == edge@);
        if !json::holds_string(edge, "artifactId", rows[i].parent_artifact_id.as_str()) || !json::holds_string(
            edge,
            "relation",
            rows[i].relation.as_str(),
        ) {
            assert(!edge_matches(views[i as int], rows@[i as int]));
            return false;
        }
        i += 1;
    }
    true
}

fn check_manifest(m: &ManifestRecord) -> (ok: bool)
    ensures
        ok == manifest_valid(*m),
{
    let mut sealed = text::copy_bytes("smesh-artifact-manifest/v1\0".as_bytes());
    text::push_bytes(&mut sealed, m.canonical.as_str().as_bytes());
    let digest = crypto::content_digest(sealed.as_slice());
    m.manifest_digest == digest && check_content(m) && check_producer(m) && check_policy(m) && check_chunks(
        m.canonical.as_str(),
        &m.chunks,
    ) && check_edges(m.canonical.as_str(), &m.provenance)
}

/// What is on record of artifacts: the manifests, and how many rows violate a rule
/// of storage or of provenance.
pub struct ArtifactImage {
    pub manifests: Vec<ManifestRecord>,
    pub storage_violations: i64,
    pub provenance_violations: i64,
}

/// Whether everything on record of artifacts is valid.
pub open spec fn artifacts_valid(image: ArtifactImage) -> bool {
    &&& forall|i: int| 0 <= i < image.manifests@.len() ==> manifest_valid(#[trigger] image.manifests@[i])
    &&& image.storage_violations == 0
    &&& image.provenance_violations == 0
}

/// Validates everything on record of artifacts.
pub fn validate_artifact_semantics(image: &ArtifactImage) -> (r: Result<(), PostgresStoreError>)
    ensures
        r == (if artifacts_valid(*image) {
            Ok::<(), PostgresStoreError>(())
        } else {
            Err(PostgresStoreError::InvalidSchema)
        }),
{
    let mut i: usize = 0;
    while i < image.manifests.len()
        invariant
            i <= image.manifests@.len(),
            forall|j: int| 0 <= j < i ==> manifest_valid(#[trigger] image.manifests@[j]),
        decreases image.manifests@.len() - i,
    {
        if !check_manifest(&image.manifests[i]) {
            assert(!manifest_valid(image.manifests@[i as int]));
            return Err(PostgresStoreError::InvalidSchema);
        }
        i += 1;
    }
    if image.storage_violations != 0 || image.provenance_violations != 0 {
        return Err(PostgresStoreError::InvalidSchema);
    }
    Ok(())
}

/// The first six migrations record the sixth version, and every later one its own.
pub proof fn law_migrations_record_their_version(revision: int)
    ensures
        revision <= 6 ==> migration_version_of(revision) == 6,
        revision >= 7 ==> migration_version_of(revision) == revision,
        migration_version_of(9) == 9,
{
}

/// The runtime role of a schema is named after it, and schemas with different names have different
/// roles.
pub proof fn law_schemas_have_their_own_roles(a: Seq<char>, b: Seq<char>)
    ensures
        runtime_role_of(a).len() == a.len() + 8,
        runtime_role_of(a).subrange(0, a.len() as int) == a,
        runtime_role_of(a) == runtime_role_of(b) ==> a == b,
{
    reveal_strlit("_runtime");
    assert(runtime_role_of(a).subrange(0, a.len() as int) =~= a);
    assert(runtime_role_of(b).subrange(0, b.len() as int) =~= b);
}

/// A schema is valid only where every function, table, policy, index and migration is the one that
/// belongs in its place, its description of itself is true and its two keys have thirty-two bytes.
pub proof fn law_valid_schemas_are_complete(image: CatalogImage, schema: Seq<char>, scripts: Seq<String>, i: int)
    requires
        catalog_valid(image, schema, scripts),
    ensures
        image.definers@.len() == 31,
        image.tables@.len() == 70,
        image.policy_count == 59,
        image.indexes@.len() == 67,
        image.migrations@.len() == 9,
        image.metadata is Some,
        image.metadata->0.schema_version == 9,
        image.metadata->0.cursor_key@.len() == 32,
        image.metadata->0.receipt_key@.len() == 32,
        image.metadata->0.migration_hash@ == crypto::content_digest_of(text::utf8(scripts[0]@)),
        image.metadata->0.catalog_hash@ == catalog_digest_of(text::texts(image.catalog_lines@), schema),
        0 <= i < 31 ==> image.definers@[i].name@ == schema_names::definer_name_at(i) && image.definers@[i].owner@
            == image.owner@ && image.definers@[i].settings is Some,
        0 <= i < 70 ==> image.tables@[i].name@ == schema_names::table_name_at(i) && image.tables@[i].row_security
            == image.tables@[i].forced,
        0 <= i < 70 ==> (image.tables@[i].row_security <==> !schema_names::is_global_table(image.tables@[i].name@)),
        0 <= i < 67 ==> image.indexes@[i]@ == schema_names::index_name_at(i),
        0 <= i < 9 ==> image.migrations@[i].revision == i + 1 && image.migrations@[i].name@
            == schema_names::migration_name_at(i) && image.migrations@[i].checksum@ == crypto::content_digest_of(
            text::utf8(scripts[i]@),
        ) && (i <= 5 ==> image.migrations@[i].schema_version == 6) && (i >= 6 ==> image.migrations@[i].schema_version == i
            + 1),
        0 <= i < image.policies@.len() ==> image.policies@[i].using@ == image.policies@[i].check@,
        callbacks_valid(image.callbacks),
{
    if 0 <= i < 31 {
        assert(definer_valid(image.definers@[i], i, image.owner@));
    }
    if 0 <= i < 70 {
        assert(table_valid(image.tables@[i], i));
    }
    if 0 <= i < 9 {
        assert(migration_valid(image.migrations@[i], i, scripts[i]@));
    }
    if 0 <= i < image.policies@.len() {
        assert(policy_valid(image.policies@[i]));
    }
}

/// A function that runs with the rights of its owner searches the system catalog alone, and keeps
/// row security on exactly where it must.
pub proof fn law_definers_search_the_catalog_alone(name: Seq<char>)
    ensures
        required_settings(name)[0] == "search_path=pg_catalog"@,
        schema_names::keeps_row_security(name) ==> required_settings(name).len() == 2 && required_settings(name)[1]
            == "row_security=on"@,
        !schema_names::keeps_row_security(name) ==> required_settings(name).len() == 1,
{
}

/// Callbacks on record are valid exactly where each policy has numbers within its columns and is
/// accepted, and nothing violates a rule.
pub proof fn law_valid_callbacks_violate_nothing(image: CallbackImage)
    ensures
        callbacks_valid(image) <==> image.violations == 0 && (forall|i: int|
            0 <= i < image.tenant_violations@.len() ==> #[trigger] image.tenant_violations@[i] == 0) && forall|i: int|
            0 <= i < image.policies@.len() ==> {
                let p = #[trigger] image.policies@[i];
                &&& p.accepted
                &&& p.policy_revision >= 0
                &&& 0 <= p.max_configs_per_task <= 0xffff
                &&& 0 <= p.max_configs_per_tenant <= 0xffff_ffff
                &&& 0 <= p.max_pending <= 0xffff_ffff
                &&& p.max_payload_bytes >= 0
                &&& 0 <= p.max_attempts <= 0xffff
                &&& p.max_delivery_age_ms >= 0
            },
{
    if callbacks_valid(image) {
        assert forall|i: int| 0 <= i < image.policies@.len() implies {
            let p = #[trigger] image.policies@[i];
            &&& p.accepted
            &&& p.policy_revision >= 0
            &&& 0 <= p.max_configs_per_task <= 0xffff
            &&& 0 <= p.max_configs_per_tenant <= 0xffff_ffff
            &&& 0 <= p.max_pending <= 0xffff_ffff
            &&& p.max_payload_bytes >= 0
            &&& 0 <= p.max_attempts <= 0xffff
            &&& p.max_delivery_age_ms >= 0
        } by {
            assert(callback_policy_valid(image.policies@[i]));
        }
    }
}

/// A manifest is valid only where its text is sealed and says of the content, of its producer, of
/// its policy, of each chunk and of each edge what the columns say.
pub proof fn law_valid_manifests_say_what_their_columns_say(m: ManifestRecord, i: int)
    requires
        manifest_valid(m),
    ensures
        m.manifest_digest@ == manifest_seal(m.canonical@),
        json::string_at(m.canonical@, "artifactId"@) == Some(m.artifact_id@),
        json::string_at(m.canonical@, "mediaType"@) == Some(m.media_type@),
        json::integer_at(m.canonical@, "plaintextLength"@) == Some(m.plaintext_length),
        json::string_at(m.canonical@, "classification"@) == Some(m.classification@),
        json::string_at(m.canonical@, "encryptionDomain"@) == Some(m.encryption_domain@),
        json::string_at(m.canonical@, "contentDigest"@) == Some(m.content_digest@),
        json::string_at(m.canonical@, "schema"@) == Some("smesh-artifact-manifest/v1"@),
        json::json_member_of(m.canonical@, "producer"@) matches Some(p) && json::string_at(p, "owner"@) == Some(
            m.owner_account_id@,
        ) && json::string_at(p, "tenant"@) == Some(m.tenant_scope@) && json::string_at(p, "task"@) == Some(m.task_id@)
            && json::string_at(p, "context"@) == Some(m.context_id@) && json::string_at(p, "message"@) == Some(
            m.message_id@,
        ) && json::string_at(p, "dispatch"@) == Some(m.dispatch_id@),
        json::json_member_of(m.canonical@, "policy"@) matches Some(p) && json::string_at(p, "policyId"@) == Some(
            m.policy_id@,
        ) && json::integer_at(p, "revision"@) == Some(m.policy_revision) && json::string_at(p, "digest"@) == Some(
            m.policy_digest@,
        ) && json::integer_at(p, "createdAt"@) == Some(m.created_at) && json::integer_at(p, "retainUntil"@) == Some(
            m.retain_until,
        ),
        json::items_at(m.canonical@, "chunks"@) matches Some(listed) && listed.len() == m.chunks@.len() && (0 <= i
            < m.chunks@.len() ==> json::integer_at(listed[i], "ordinal"@) == Some(m.chunks@[i].ordinal as i64)
            && json::integer_at(listed[i], "offset"@) == Some(m.chunks@[i].byte_offset) && json::integer_at(
            listed[i],
            "length"@,
        ) == Some(m.chunks@[i].plaintext_length) && json::string_at(listed[i], "digest"@) == Some(
            m.chunks@[i].content_digest@,
        )),
        json::items_at(m.canonical@, "derivedFrom"@) matches Some(listed) && listed.len() == m.provenance@.len() && (0
            <= i < m.provenance@.len() ==> json::string_at(listed[i], "artifactId"@) == Some(
            m.provenance@[i].parent_artifact_id@,
        ) && json::string_at(listed[i], "relation"@) == Some(m.provenance@[i].relation@)),
{
    if 0 <= i < m.chunks@.len() {
        assert(chunk_matches(json::items_at(m.canonical@, "chunks"@)->0[i], m.chunks@[i]));
    }
    if 0 <= i < m.provenance@.len() {
        assert(edge_matches(json::items_at(m.canonical@, "derivedFrom"@)->0[i], m.provenance@[i]));
    }
}

/// Artifacts on record are valid exactly where every manifest is and nothing violates a rule of
/// storage or of provenance.
pub proof fn law_valid_artifacts_violate_nothing(image: ArtifactImage, i: int)
    ensures
        artifacts_valid(image) ==> image.storage_violations == 0 && image.provenance_violations == 0,
        artifacts_valid(image) && 0 <= i < image.manifests@.len() ==> manifest_valid(image.manifests@[i]),
        image.storage_violations == 0 && image.provenance_violations == 0 && image.manifests@.len() == 0
            ==> artifacts_valid(image),
{
}

/// A schema that has every function, table, policy, index and migration in its place, describes
/// itself truly and holds sound callbacks is valid.
pub proof fn law_complete_schemas_are_valid(image: CatalogImage, schema: Seq<char>, scripts: Seq<String>)
    requires
        image.definers@.len() == 31,
        forall|i: int|
            0 <= i < 31 ==> (#[trigger] image.definers@[i]).name@ == schema_names::definer_name_at(i)
                && image.definers@[i].owner@ == image.owner@ && image.definers@[i].settings is Some && text::texts(
                image.definers@[i].settings->0@,
            ) == required_settings(image.definers@[i].name@),
        image.tables@.len() == 70,
        forall|i: int|
            0 <= i < 70 ==> (#[trigger] image.tables@[i]).name@ == schema_names::table_name_at(i)
                && image.tables@[i].row_security == image.tables@[i].forced && (image.tables@[i].forced
                <==> !schema_names::is_global_table(image.tables@[i].name@)),
        image.policy_count == 59,
        forall|i: int|
            0 <= i < image.policies@.len() ==> (#[trigger] image.policies@[i]).using@ == image.policies@[i].check@
                && text::holds(
                text::utf8(image.policies@[i].using@),
                text::utf8("current_setting('smesh.tenant_scope'::text, true)"@),
            ),
        image.indexes@.len() == 67,
        forall|i: int| 0 <= i < 67 ==> (#[trigger] image.indexes@[i])@ == schema_names::index_name_at(i),
        image.migrations@.len() == 9,
        image.metadata is Some,
        image.metadata->0.schema_version == 9,
        image.metadata->0.cursor_key@.len() == 32,
        image.metadata->0.receipt_key@.len() == 32,
        callbacks_valid(image.callbacks),
    ensures
        (forall|i: int|
            0 <= i < 9 ==> (#[trigger] image.migrations@[i]).revision == i + 1 && image.migrations@[i].schema_version == (
            if i < 6 {
                6
            } else {
                i + 1
            }) && image.migrations@[i].name@ == schema_names::migration_name_at(i) && image.migrations@[i].checksum@
                == crypto::content_digest_of(text::utf8(scripts[i]@))) && image.metadata->0.migration_hash@
            == crypto::content_digest_of(text::utf8(scripts[0]@)) && image.metadata->0.catalog_hash@ == catalog_digest_of(
            text::texts(image.catalog_lines@),
            schema,
        ) ==> catalog_valid(image, schema, scripts),
{
}

/// Every policy of a valid schema confines its rows to the tenant of the session.
pub proof fn law_valid_policies_confine_to_the_tenant(row: PolicyRow)
    ensures
        policy_valid(row) <==> row.check@ == row.using@ && text::holds(
            text::utf8(row.check@),
            text::utf8("current_setting('smesh.tenant_scope'::text, true)"@),
        ),
{
}

/// A manifest whose sealed text says what its columns say is valid.
pub proof fn law_true_manifests_are_valid(m: ManifestRecord, producer: Seq<char>, policy: Seq<char>)
    ensures
        json::json_member_of(m.canonical@, "producer"@) == Some(producer) && json::json_member_of(
            m.canonical@,
            "policy"@,
        ) == Some(policy) && m.manifest_digest@ == manifest_seal(m.canonical@) && json::string_at(
            m.canonical@,
            "schema"@,
        ) == Some("smesh-artifact-manifest/v1"@) && json::string_at(m.canonical@, "artifactId"@) == Some(m.artifact_id@)
            && json::string_at(m.canonical@, "mediaType"@) == Some(m.media_type@) && json::integer_at(
            m.canonical@,
            "plaintextLength"@,
        ) == Some(m.plaintext_length) && json::string_at(m.canonical@, "classification"@) == Some(m.classification@)
            && json::string_at(m.canonical@, "encryptionDomain"@) == Some(m.encryption_domain@) && json::string_at(
            m.canonical@,
            "contentDigest"@,
        ) == Some(m.content_digest@) && json::string_at(producer, "owner"@) == Some(m.owner_account_id@)
            && json::string_at(producer, "tenant"@) == Some(m.tenant_scope@) && json::string_at(producer, "task"@) == Some(
            m.task_id@,
        ) && json::string_at(producer, "context"@) == Some(m.context_id@) && json::string_at(producer, "message"@)
            == Some(m.message_id@) && json::string_at(producer, "dispatch"@) == Some(m.dispatch_id@) && json::string_at(
            policy,
            "policyId"@,
        ) == Some(m.policy_id@) && json::integer_at(policy, "revision"@) == Some(m.policy_revision) && json::string_at(
            policy,
            "digest"@,
        ) == Some(m.policy_digest@) && json::integer_at(policy, "createdAt"@) == Some(m.created_at) && json::integer_at(
            policy,
            "retainUntil"@,
        ) == Some(m.retain_until) && m.chunks@.len() == 0 && m.provenance@.len() == 0 && json::items_at(
            m.canonical@,
            "chunks"@,
        ) == Some(Seq::<Seq<char>>::empty()) && json::items_at(m.canonical@, "derivedFrom"@) == Some(
            Seq::<Seq<char>>::empty(),
        ) ==> manifest_valid(m),
{
}

} // verus!
