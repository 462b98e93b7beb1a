//! Configuration of the PostgreSQL durable authority.

use vstd::prelude::*;

use crate::json;
use crate::text;
use crate::transaction::{ArtifactPublicationTestFault, PostgresTransactionTestFault};
use crate::weburl;
use crate::weburl::UrlParts;

verus! {

/// The longest connection URL.
pub const MAX_CONFIG_BYTES: usize = 4096;

/// The longest connect or acquire timeout, in nanoseconds.
pub const MAX_TIMEOUT_NANOS: u128 = 30_000_000_000;

/// Why the authority cannot be opened.
#[derive(Clone, Copy, Debug, PartialEq, Eq, Structural)]
pub enum PostgresStoreError {
    InvalidConfig,
    TlsRequired,
    Initialization,
    InvalidSchema,
    Unavailable,
    ReconciliationRequired,
    ArtifactRestoreIncomplete,
    ArtifactMigrationRequired,
    ArtifactMigrationPlanMismatch,
    ArtifactMigrationBusy,
    ArtifactMigrationInvalidSource,
    ArtifactRestoreTargetNotEmpty,
}

/// What an operator is told of an error.
pub open spec fn store_error_text(e: PostgresStoreError) -> Seq<char> {
    match e {
        PostgresStoreError::InvalidConfig => "invalid PostgreSQL durable-authority configuration"@,
        PostgresStoreError::TlsRequired => "PostgreSQL TLS is required"@,
        PostgresStoreError::Initialization => "PostgreSQL durable-authority initialization failed"@,
        PostgresStoreError::InvalidSchema => "PostgreSQL durable-authority schema is unsupported or corrupt"@,
        PostgresStoreError::Unavailable => "PostgreSQL durable-authority pool is unavailable"@,
        PostgresStoreError::ReconciliationRequired => "quota policy reconciliation is required"@,
        PostgresStoreError::ArtifactRestoreIncomplete => "artifact restore is incomplete; gateway startup is refused"@,
        PostgresStoreError::ArtifactMigrationRequired => "populated inline artifact migration is required"@,
        PostgresStoreError::ArtifactMigrationPlanMismatch =>
            "artifact migration plan does not match the source authority"@,
        PostgresStoreError::ArtifactMigrationBusy =>
            "artifact migration is fenced by another operator or active work"@,
        PostgresStoreError::ArtifactMigrationInvalidSource =>
            "artifact migration source is corrupt or unsupported"@,
        PostgresStoreError::ArtifactRestoreTargetNotEmpty => "artifact restore target is not empty"@,
    }
}

impl PostgresStoreError {
    /// What an operator is told of the error.
    pub fn message(self) -> (r: &'static str)
        ensures
            r@ == store_error_text(self),
    {
        match self {
            PostgresStoreError::InvalidConfig => "invalid PostgreSQL durable-authority configuration",
            PostgresStoreError::TlsRequired => "PostgreSQL TLS is required",
            PostgresStoreError::Initialization => "PostgreSQL durable-authority initialization failed",
            PostgresStoreError::InvalidSchema => "PostgreSQL durable-authority schema is unsupported or corrupt",
            PostgresStoreError::Unavailable => "PostgreSQL durable-authority pool is unavailable",
            PostgresStoreError::ReconciliationRequired => "quota policy reconciliation is required",
            PostgresStoreError::ArtifactRestoreIncomplete =>
                "artifact restore is incomplete; gateway startup is refused",
            PostgresStoreError::ArtifactMigrationRequired => "populated inline artifact migration is required",
            PostgresStoreError::ArtifactMigrationPlanMismatch =>
                "artifact migration plan does not match the source authority",
            PostgresStoreError::ArtifactMigrationBusy =>
                "artifact migration is fenced by another operator or active work",
            PostgresStoreError::ArtifactMigrationInvalidSource =>
                "artifact migration source is corrupt or unsupported",
            PostgresStoreError::ArtifactRestoreTargetNotEmpty => "artifact restore target is not empty",
        }
    }
}

/// What a step of the inline artifact migration did.
#[derive(Clone, Debug, PartialEq, Eq)]
pub struct ArtifactMigrationOutcome {
    pub migrated_artifacts: u64,
    pub rewritten_rows: u64,
    pub completed: bool,
    pub completion_seal: Option<String>,
}

/// What a batch of authorization audit retention did.
#[derive(Clone, Debug, PartialEq, Eq)]
pub struct AuthorizationAuditCleanup {
    pub deleted: u64,
    pub projection_blocked: u64,
    pub has_more: bool,
    pub oldest_remaining: Option<i64>,
    pub cutoff: i64,
}

/// Whether a text may name a schema: a lower-case letter, then lower-case letters,
/// digits and underscores, at most 48 bytes in all.
pub open spec fn identifier_valid(value: Seq<char>) -> bool {
    let bytes = text::utf8(value);
    &&& 1 <= bytes.len() <= 48
    &&& 97 <= bytes[0] <= 122
    &&& forall|i: int| 0 <= i < bytes.len() ==> text::is_lower_alnum_underscore(#[trigger] bytes[i])
}

/// Whether a text may name a schema.
pub fn valid_identifier(value: &str) -> (r: bool)
    ensures
        r == identifier_valid(value@),
{
    let bytes = value.as_bytes();
    if bytes.len() == 0 || bytes.len() > 48 || bytes[0] < 97 || bytes[0] > 122 {
        return false;
    }
    let mut i: usize = 0;
    while i < bytes.len()
        invariant
            i <= bytes@.len(),
            bytes@ == text::utf8(value@),
            forall|j: int| 0 <= j < i ==> text::is_lower_alnum_underscore(#[trigger] bytes@[j]),
        decreases bytes@.len() - i,
    {
        let b: u8 = bytes[i];
        let ok = (b >= 97 && b <= 122) || (b >= 48 && b <= 57) || b == 95;
        if !ok {
            assert(!text::is_lower_alnum_underscore(bytes@[i as int]));
            return false;
        }
        i += 1;
    }
    true
}

/// The configuration of the authority. It holds credentials in its URLs, which its
/// description never shows.
pub struct PostgresStoreConfig {
    pub migrator_url: String,
    pub runtime_url: String,
    pub schema: String,
    pub pool_size: usize,
    pub connect_timeout_nanos: u128,
    pub acquire_timeout_nanos: u128,
    pub test_only_insecure_loopback: bool,
    pub trust_injected_time: bool,
    pub test_cleanup: bool,
    pub audit_projection_enabled: bool,
    pub quota_enforcement: bool,
    pub quota_policy: bool,
    pub quota_reconciliation_plan: bool,
    pub push_policy: bool,
    pub max_tasks: usize,
    pub artifact_store: bool,
    pub artifact_migration_plan: bool,
    pub artifact_migration_plan_file: bool,
    pub transaction_test_faults: Vec<PostgresTransactionTestFault>,
    pub artifact_publication_test_fault: Option<ArtifactPublicationTestFault>,
    pub receiver_renewal_test_probe: bool,
}

/// Whether parsed parts name a PostgreSQL server and a user.
pub open spec fn names_server(parts: Option<weburl::UrlView>) -> bool {
    &&& parts is Some
    &&& parts->0.scheme == "postgres"@ || parts->0.scheme == "postgresql"@
    &&& parts->0.host is Some
    &&& parts->0.username.len() > 0
}

/// Whether two parsed URLs and a schema make a configuration.
pub open spec fn config_valid(
    migrator_url: Seq<char>,
    runtime_url: Seq<char>,
    schema: Seq<char>,
    migrator: Option<weburl::UrlView>,
    runtime: Option<weburl::UrlView>,
) -> bool {
    &&& 1 <= text::utf8(migrator_url).len() <= MAX_CONFIG_BYTES
    &&& 1 <= text::utf8(runtime_url).len() <= MAX_CONFIG_BYTES
    &&& migrator_url != runtime_url
    &&& identifier_valid(schema)
    &&& names_server(migrator)
    &&& names_server(runtime)
}

/// The view of parsed parts.
pub open spec fn parts_view(parts: Option<UrlParts>) -> Option<weburl::UrlView> {
    match parts {
        Some(p) => Some(p@),
        None => None,
    }
}

fn is_server(parts: &Option<UrlParts>) -> (r: bool)
    ensures
        r == names_server(parts_view(*parts)),
{
    match parts {
        None => false,
        Some(p) => (text::same_text(p.scheme.as_str(), "postgres") || text::same_text(
            p.scheme.as_str(),
            "postgresql",
        )) && p.host.is_some() && !p.username.as_str().is_empty(),
    }
}

/// Makes a configuration from its texts and from the parts of its two URLs.
pub fn config_from_parts(
    migrator_url: String,
    runtime_url: String,
    schema: String,
    migrator: &Option<UrlParts>,
    runtime: &Option<UrlParts>,
) -> (r: Result<PostgresStoreConfig, PostgresStoreError>)
    ensures
        match r {
            Err(e) => e == PostgresStoreError::InvalidConfig && !config_valid(
                migrator_url@,
                runtime_url@,
                schema@,
                parts_view(*migrator),
                parts_view(*runtime),
            ),
            Ok(c) => {
                &&& config_valid(
                    migrator_url@,
                    runtime_url@,
                    schema@,
                    parts_view(*migrator),
                    parts_view(*runtime),
                )
                &&& config_defaults(c)
                &&& c.migrator_url@ == migrator_url@
                &&& c.runtime_url@ == runtime_url@
                &&& c.schema@ == schema@
            },
        },
{
    let migrator_len: usize = text::byte_len(migrator_url.as_str());
    let runtime_len: usize = text::byte_len(runtime_url.as_str());
    if migrator_len == 0 || migrator_len > MAX_CONFIG_BYTES || runtime_len == 0 || runtime_len > MAX_CONFIG_BYTES
        || migrator_url == runtime_url || !valid_identifier(schema.as_str()) || !is_server(migrator) || !is_server(
        runtime,
    ) {
        return Err(PostgresStoreError::InvalidConfig);
    }
    Ok(
        PostgresStoreConfig {
            migrator_url,
            runtime_url,
            schema,
            pool_size: 4,
            connect_timeout_nanos: 5_000_000_000,
            acquire_timeout_nanos: 5_000_000_000,
            test_only_insecure_loopback: false,
            trust_injected_time: false,
            test_cleanup: false,
            audit_projection_enabled: false,
            quota_enforcement: false,
            quota_policy: false,
            quota_reconciliation_plan: false,
            push_policy: false,
            max_tasks: 1024,
            artifact_store: false,
            artifact_migration_plan: false,
            artifact_migration_plan_file: false,
            transaction_test_faults: Vec::new(),
            artifact_publication_test_fault: None,
            receiver_renewal_test_probe: false,
        },
    )
}

/// Whether everything but the three texts of a configuration is at its default.
pub open spec fn config_defaults(c: PostgresStoreConfig) -> bool {
    &&& c.pool_size == 4
    &&& c.connect_timeout_nanos == 5_000_000_000
    &&& c.acquire_timeout_nanos == 5_000_000_000
    &&& !c.test_only_insecure_loopback
    &&& !c.trust_injected_time
    &&& !c.test_cleanup
    &&& !c.audit_projection_enabled
    &&& !c.quota_enforcement
    &&& !c.quota_policy
    &&& !c.quota_reconciliation_plan
    &&& !c.push_policy
    &&& c.max_tasks == 1024
    &&& !c.artifact_store
    &&& !c.artifact_migration_plan
    &&& !c.artifact_migration_plan_file
    &&& c.transaction_test_faults@ == Seq::<PostgresTransactionTestFault>::empty()
    &&& c.artifact_publication_test_fault is None
    &&& !c.receiver_renewal_test_probe
}

/// What `{:?}` writes for a duration of whole seconds and nanoseconds.
pub uninterp spec fn duration_text_of(seconds: u64, nanoseconds: u32) -> Seq<char>;

/// `std::time::Duration::new` and the `Debug` form of what it makes, which is a
/// function of the two numbers alone, named [`duration_text_of`]. `new` panics
/// where carried nanoseconds overflow the seconds; fewer than a second of them
/// are never carried.
#[verifier::external_body]
fn duration_text(seconds: u64, nanoseconds: u32) -> (r: String)
    requires
        nanoseconds < 1_000_000_000,
    ensures
        r@ == duration_text_of(seconds, nanoseconds),
{
    format!("{:?}", std::time::Duration::new(seconds, nanoseconds))
}

/// How a timeout is described.
pub open spec fn timeout_described(nanos: u128) -> Seq<char> {
    duration_text_of((nanos / 1_000_000_000) as u64, (nanos % 1_000_000_000) as u32)
}

fn timeout_text(nanos: u128) -> (r: String)
    requires
        nanos <= MAX_TIMEOUT_NANOS,
    ensures
        r@ == timeout_described(nanos),
{
    duration_text((nanos / 1_000_000_000) as u64, (nanos % 1_000_000_000) as u32)
}

/// A field of a description.
#[verifier::opaque]
pub open spec fn field_text(name: Seq<char>, value: Seq<char>) -> Seq<char> {
    name + ": "@ + value
}

/// A text between quotes.
pub open spec fn quoted_text(value: Seq<char>) -> Seq<char> {
    "\""@ + value + "\""@
}

fn push_field(parts: &mut Vec<String>, name: &str, value: &str)
    ensures
        text::texts(final(parts)@) == text::texts(old(parts)@).push(field_text(name@, value@)),
{
    let mut out = name.to_owned();
    out.append(": ");
    out.append(value);
    parts.push(out);
    reveal(field_text);
    assert(text::texts(parts@) =~= text::texts(old(parts)@).push(field_text(name@, value@)));
}

fn push_flag(parts: &mut Vec<String>, name: &str, value: bool)
    ensures
        text::texts(final(parts)@) == text::texts(old(parts)@).push(field_text(name@, json::json_bool(value))),
{
    push_field(parts, name, json::bool_text(value));
}

fn quoted(value: &str) -> (r: String)
    ensures
        r@ == quoted_text(value@),
{
    let mut out = "\"".to_owned();
    out.append(value);
    out.append("\"");
    out
}

/// How a configuration reaches its server.
pub open spec fn server_fields(c: PostgresStoreConfig) -> Seq<Seq<char>> {
    seq![
        field_text("migrator_url"@, quoted_text("<redacted>"@)),
        field_text("runtime_url"@, quoted_text("<redacted>"@)),
        field_text("schema"@, quoted_text(c.schema@)),
        field_text("pool_size"@, text::decimal(c.pool_size as nat)),
        field_text("connect_timeout"@, timeout_described(c.connect_timeout_nanos)),
        field_text("acquire_timeout"@, timeout_described(c.acquire_timeout_nanos)),
        field_text("max_tasks"@, text::decimal(c.max_tasks as nat)),
    ]
}

/// What a configuration sets up.
pub open spec fn authority_fields(c: PostgresStoreConfig) -> Seq<Seq<char>> {
    seq![
        field_text("artifact_store_configured"@, json::json_bool(c.artifact_store)),
        field_text("artifact_migration_plan_configured"@, json::json_bool(c.artifact_migration_plan)),
        field_text("artifact_migration_plan_file_configured"@, json::json_bool(c.artifact_migration_plan_file)),
        field_text("trust_injected_time"@, json::json_bool(c.trust_injected_time)),
        field_text("audit_projection_enabled"@, json::json_bool(c.audit_projection_enabled)),
        field_text("quota_enforcement"@, json::json_bool(c.quota_enforcement)),
        field_text("quota_policy_configured"@, json::json_bool(c.quota_policy)),
        field_text("push_policy_configured"@, json::json_bool(c.push_policy)),
        field_text("quota_reconciliation_plan_configured"@, json::json_bool(c.quota_reconciliation_plan)),
    ]
}

/// What a configuration sets up for tests.
pub open spec fn trial_fields(c: PostgresStoreConfig) -> Seq<Seq<char>> {
    seq![
        field_text("test_cleanup_enabled"@, json::json_bool(c.test_cleanup)),
        field_text("test_only_insecure_loopback"@, json::json_bool(c.test_only_insecure_loopback)),
        field_text("transaction_test_fault_count"@, text::decimal(c.transaction_test_faults@.len())),
        field_text(
            "artifact_publication_test_fault_enabled"@,
            json::json_bool(c.artifact_publication_test_fault is Some),
        ),
        field_text("receiver_renewal_test_probe_enabled"@, json::json_bool(c.receiver_renewal_test_probe)),
    ]
}

/// The fields of a configuration's description.
pub open spec fn config_fields(c: PostgresStoreConfig) -> Seq<Seq<char>> {
    server_fields(c) + authority_fields(c) + trial_fields(c)
}

/// The description of a configuration.
pub open spec fn config_text(c: PostgresStoreConfig) -> Seq<char> {
    "PostgresStoreConfig { "@ + text::joined(config_fields(c), ", "@) + " }"@
}

/// A configuration is described alike whatever its URLs are.
pub proof fn law_descriptions_hide_urls(c: PostgresStoreConfig, d: PostgresStoreConfig)
    requires
        d == (PostgresStoreConfig { migrator_url: d.migrator_url, runtime_url: d.runtime_url, ..c }),
    ensures
        config_text(c) == config_text(d),
{
}

/// Whether a URL asks for TLS.
pub open spec fn asks_for_tls(parts: weburl::UrlView) -> bool {
    exists|i: int| 0 <= i < parts.query_pairs.len() && tls_pair(#[trigger] parts.query_pairs[i])
}

/// A query pair that asks for TLS.
pub open spec fn tls_pair(pair: (Seq<char>, Seq<char>)) -> bool {
    pair.0 == "sslmode"@ && (pair.1 == "require"@ || pair.1 == "verify-ca"@ || pair.1 == "verify-full"@)
}

/// Whether a URL names the machine itself.
pub open spec fn names_loopback(parts: weburl::UrlView) -> bool {
    parts.host == Some("127.0.0.1"@) || parts.host == Some("localhost"@) || parts.host == Some("::1"@)
}

/// Whether a URL is used without TLS, or why it cannot be used.
pub open spec fn plaintext_url(parts: Option<weburl::UrlView>, insecure_loopback: bool) -> Result<
    bool,
    PostgresStoreError,
> {
    match parts {
        None => Err(PostgresStoreError::InvalidConfig),
        Some(p) => if asks_for_tls(p) {
            Ok(false)
        } else if insecure_loopback && names_loopback(p) {
            Ok(true)
        } else {
            Err(PostgresStoreError::TlsRequired)
        },
    }
}

fn has_tls_pair(parts: &UrlParts) -> (r: bool)
    ensures
        r == asks_for_tls(parts@),
{
    let mut i: usize = 0;
    while i < parts.query_pairs.len()
        invariant
            i <= parts.query_pairs@.len(),
            forall|j: int| 0 <= j < i ==> !tls_pair(#[trigger] parts@.query_pairs[j]),
        decreases parts.query_pairs@.len() - i,
    {
        let key = parts.query_pairs[i].0.as_str();
        let value = parts.query_pairs[i].1.as_str();
        assert(parts@.query_pairs[i as int] == (key@, value@));
        if text::same_text(key, "sslmode") && (text::same_text(value, "require") || text::same_text(
            value,
            "verify-ca",
        ) || text::same_text(value, "verify-full")) {
            assert(tls_pair(parts@.query_pairs[i as int]));
            return true;
        }
        i += 1;
    }
    false
}

fn classify_url(parts: &Option<UrlParts>, insecure_loopback: bool) -> (r: Result<bool, PostgresStoreError>)
    ensures
        r == plaintext_url(parts_view(*parts), insecure_loopback),
{
    match parts {
        None => Err(PostgresStoreError::InvalidConfig),
        Some(p) => {
            if has_tls_pair(p) {
                return Ok(false);
            }
            let loopback = text::opt_text_is(&p.host, "127.0.0.1") || text::opt_text_is(&p.host, "localhost")
                || text::opt_text_is(&p.host, "::1");
            if insecure_loopback && loopback {
                Ok(true)
            } else {
                Err(PostgresStoreError::TlsRequired)
            }
        },
    }
}

/// Whether the authority is reached without TLS: both URLs must agree.
pub open spec fn transport_policy(
    migrator: Option<weburl::UrlView>,
    runtime: Option<weburl::UrlView>,
    insecure_loopback: bool,
) -> Result<bool, PostgresStoreError> {
    match plaintext_url(migrator, insecure_loopback) {
        Err(e) => Err(e),
        Ok(m) => match plaintext_url(runtime, insecure_loopback) {
            Err(e) => Err(e),
            Ok(r) => if m != r {
                Err(PostgresStoreError::InvalidConfig)
            } else {
                Ok(m)
            },
        },
    }
}

/// Decides whether the authority is reached without TLS, from the parts of its two
/// URLs.
pub fn validate_tls(migrator: &Option<UrlParts>, runtime: &Option<UrlParts>, insecure_loopback: bool) -> (r: Result<
    bool,
    PostgresStoreError,
>)
    ensures
        r == transport_policy(parts_view(*migrator), parts_view(*runtime), insecure_loopback),
{
    let m = match classify_url(migrator, insecure_loopback) {
        Ok(m) => m,
        Err(e) => {
            return Err(e);
        },
    };
    let r = match classify_url(runtime, insecure_loopback) {
        Ok(r) => r,
        Err(e) => {
            return Err(e);
        },
    };
    if m != r {
        return Err(PostgresStoreError::InvalidConfig);
    }
    Ok(m)
}

/// Without the loopback escape hatch the authority is never reached in plaintext.
pub proof fn law_production_requires_tls(migrator: Option<weburl::UrlView>, runtime: Option<weburl::UrlView>)
    ensures
        transport_policy(migrator, runtime, false) != Ok::<bool, PostgresStoreError>(true),
        transport_policy(migrator, runtime, false) == Ok::<bool, PostgresStoreError>(false) <==> (migrator is Some
            && asks_for_tls(migrator->0) && runtime is Some && asks_for_tls(runtime->0)),
{
}

impl PostgresStoreConfig {
    /// Makes a configuration with its defaults.
    pub fn new(migrator_url: String, runtime_url: String, schema: String) -> (r: Result<Self, PostgresStoreError>)
        ensures
            match r {
                Err(e) => e == PostgresStoreError::InvalidConfig && !config_valid(
                    migrator_url@,
                    runtime_url@,
                    schema@,
                    weburl::url_parsed(migrator_url@),
                    weburl::url_parsed(runtime_url@),
                ),
                Ok(c) => {
                    &&& config_valid(
                        migrator_url@,
                        runtime_url@,
                        schema@,
                        weburl::url_parsed(migrator_url@),
                        weburl::url_parsed(runtime_url@),
                    )
                    &&& config_defaults(c)
                    &&& c.migrator_url@ == migrator_url@
                    &&& c.runtime_url@ == runtime_url@
                    &&& c.schema@ == schema@
                },
            },
    {
        let migrator = weburl::parse_url(migrator_url.as_str());
        let runtime = weburl::parse_url(runtime_url.as_str());
        config_from_parts(migrator_url, runtime_url, schema, &migrator, &runtime)
    }

    /// Allows plaintext to the machine itself and caller-supplied time, for tests.
    pub fn with_test_only_insecure_loopback(self, enabled: bool) -> (r: Self)
        ensures
            r == (PostgresStoreConfig {
                test_only_insecure_loopback: enabled,
                trust_injected_time: enabled,
                test_cleanup: enabled,
                ..self
            }),
            r.test_only_insecure_loopback == enabled && r.trust_injected_time == enabled && r.test_cleanup == enabled,
            r.quota_enforcement == self.quota_enforcement && r.pool_size == self.pool_size && r.schema@ == self.schema@,
    {
        let mut out = self;
        out.test_only_insecure_loopback = enabled;
        out.trust_injected_time = enabled;
        out.test_cleanup = enabled;
        out
    }

    /// Leaves cleanup to a parent process.
    pub fn with_test_only_parent_managed_cleanup(self) -> (r: Self)
        ensures
            r == (PostgresStoreConfig { test_cleanup: false, ..self }),
            !r.test_cleanup && r.test_only_insecure_loopback == self.test_only_insecure_loopback,
    {
        let mut out = self;
        out.test_cleanup = false;
        out
    }

    /// Keeps the loopback transport while it runs on database time.
    pub fn with_test_only_trust_injected_time(self, enabled: bool) -> (r: Self)
        ensures
            r == (PostgresStoreConfig { trust_injected_time: enabled, ..self }),
            r.trust_injected_time == enabled && r.test_only_insecure_loopback == self.test_only_insecure_loopback,
    {
        let mut out = self;
        out.trust_injected_time = enabled;
        out
    }

    /// Sets the number of pooled connections.
    pub fn with_pool_size(self, size: usize) -> (r: Result<Self, PostgresStoreError>)
        ensures
            match r {
                Ok(c) => 1 <= size <= 32 && c == (PostgresStoreConfig { pool_size: size, ..self }),
                Err(e) => !(1 <= size <= 32) && e == PostgresStoreError::InvalidConfig,
            },
            r is Ok <==> size >= 1 && size <= 32,
            r matches Ok(c) ==> c.pool_size == size && c.max_tasks == self.max_tasks,
    {
        if size < 1 || size > 32 {
            return Err(PostgresStoreError::InvalidConfig);
        }
        let mut out = self;
        out.pool_size = size;
        Ok(out)
    }

    /// Sets how many tasks a tenant may have.
    pub fn with_max_tasks(self, max_tasks: usize) -> (r: Result<Self, PostgresStoreError>)
        ensures
            match r {
                Ok(c) => 1 <= max_tasks <= 1_000_000 && c == (PostgresStoreConfig { max_tasks, ..self }),
                Err(e) => !(1 <= max_tasks <= 1_000_000) && e == PostgresStoreError::InvalidConfig,
            },
            r is Ok <==> max_tasks >= 1 && max_tasks <= 1000 * 1000,
            r matches Ok(c) ==> c.max_tasks == max_tasks && c.pool_size == self.pool_size,
    {
        if max_tasks == 0 || max_tasks > 1_000_000 {
            return Err(PostgresStoreError::InvalidConfig);
        }
        let mut out = self;
        out.max_tasks = max_tasks;
        Ok(out)
    }

    /// Binds an artifact store.
    pub fn with_artifact_store(self) -> (r: Self)
        ensures
            r == (PostgresStoreConfig { artifact_store: true, ..self }),
            r.artifact_store && r.artifact_migration_plan == self.artifact_migration_plan,
    {
        let mut out = self;
        out.artifact_store = true;
        out
    }

    /// Binds the approved plan of the inline artifact migration.
    pub fn with_artifact_migration_plan(self) -> (r: Self)
        ensures
            r == (PostgresStoreConfig { artifact_migration_plan: true, ..self }),
            r.artifact_migration_plan && r.artifact_migration_plan_file == self.artifact_migration_plan_file,
    {
        let mut out = self;
        out.artifact_migration_plan = true;
        out
    }

    /// Binds the approved plan with the file that it came from.
    pub fn with_artifact_migration_plan_file(self) -> (r: Self)
        ensures
            r == (PostgresStoreConfig { artifact_migration_plan: true, artifact_migration_plan_file: true, ..self }),
            r.artifact_migration_plan && r.artifact_migration_plan_file,
    {
        let mut out = self;
        out.artifact_migration_plan = true;
        out.artifact_migration_plan_file = true;
        out
    }

    /// Requires a quota intent on every quota-bearing mutation.
    pub fn with_quota_enforcement(self, enabled: bool) -> (r: Self)
        ensures
            r == (PostgresStoreConfig { quota_enforcement: enabled, ..self }),
            r.quota_enforcement == enabled && r.quota_policy == self.quota_policy,
    {
        let mut out = self;
        out.quota_enforcement = enabled;
        out
    }

    /// Turns on audit projection.
    pub fn with_audit_projection(self, enabled: bool) -> (r: Self)
        ensures
            r == (PostgresStoreConfig { audit_projection_enabled: enabled, ..self }),
            r.audit_projection_enabled == enabled && r.quota_enforcement == self.quota_enforcement,
    {
        let mut out = self;
        out.audit_projection_enabled = enabled;
        out
    }

    /// Installs the quota policy, which turns enforcement on.
    pub fn with_quota_policy(self) -> (r: Self)
        ensures
            r == (PostgresStoreConfig { quota_enforcement: true, quota_policy: true, ..self }),
            r.quota_policy && r.quota_enforcement,
    {
        let mut out = self;
        out.quota_enforcement = true;
        out.quota_policy = true;
        out
    }

    /// Binds the callback policy.
    pub fn with_push_policy(self) -> (r: Self)
        ensures
            r == (PostgresStoreConfig { push_policy: true, ..self }),
            r.push_policy && r.quota_policy == self.quota_policy,
    {
        let mut out = self;
        out.push_policy = true;
        out
    }

    /// Supplies a plan that drains usage above lowered limits.
    pub fn with_quota_reconciliation_plan(self) -> (r: Self)
        ensures
            r == (PostgresStoreConfig { quota_reconciliation_plan: true, ..self }),
            r.quota_reconciliation_plan && r.quota_policy == self.quota_policy,
    {
        let mut out = self;
        out.quota_reconciliation_plan = true;
        out
    }

    /// Sets the connect and acquire timeouts, in nanoseconds.
    pub fn with_timeouts(self, connect: u128, acquire: u128) -> (r: Result<Self, PostgresStoreError>)
        ensures
            match r {
                Ok(c) => 1 <= connect <= MAX_TIMEOUT_NANOS && 1 <= acquire <= MAX_TIMEOUT_NANOS && c == (
                PostgresStoreConfig { connect_timeout_nanos: connect, acquire_timeout_nanos: acquire, ..self }),
                Err(e) => !(1 <= connect <= MAX_TIMEOUT_NANOS && 1 <= acquire <= MAX_TIMEOUT_NANOS) && e
                    == PostgresStoreError::InvalidConfig,
            },
            r matches Ok(c) ==> c.connect_timeout_nanos == connect && c.acquire_timeout_nanos == acquire,
    {
        if connect == 0 || acquire == 0 || connect > MAX_TIMEOUT_NANOS || acquire > MAX_TIMEOUT_NANOS {
            return Err(PostgresStoreError::InvalidConfig);
        }
        let mut out = self;
        out.connect_timeout_nanos = connect;
        out.acquire_timeout_nanos = acquire;
        Ok(out)
    }

    /// Installs transaction faults for tests.
    pub fn with_transaction_test_faults(self, faults: Vec<PostgresTransactionTestFault>) -> (r: Self)
        ensures
            r == (PostgresStoreConfig { transaction_test_faults: faults, ..self }),
    {
        let mut out = self;
        out.transaction_test_faults = faults;
        out
    }

    /// Installs one publication fault for tests.
    pub fn with_artifact_publication_test_fault(self, fault: ArtifactPublicationTestFault) -> (r: Self)
        ensures
            r == (PostgresStoreConfig { artifact_publication_test_fault: Some(fault), ..self }),
    {
        let mut out = self;
        out.artifact_publication_test_fault = Some(fault);
        out
    }

    /// Stops receiver renewals at two points for tests.
    pub fn with_receiver_renewal_test_probe(self) -> (r: Self)
        ensures
            r == (PostgresStoreConfig { receiver_renewal_test_probe: true, ..self }),
    {
        let mut out = self;
        out.receiver_renewal_test_probe = true;
        out
    }

    fn describe_server(&self) -> (parts: Vec<String>)
        requires
            self.connect_timeout_nanos <= MAX_TIMEOUT_NANOS,
            self.acquire_timeout_nanos <= MAX_TIMEOUT_NANOS,
        ensures
            text::texts(parts@) == server_fields(*self),
    {
        let mut parts: Vec<String> = Vec::new();
        assert(text::texts(parts@) =~= Seq::<Seq<char>>::empty());
        push_field(&mut parts, "migrator_url", quoted("<redacted>").as_str());
        push_field(&mut parts, "runtime_url", quoted("<redacted>").as_str());
        push_field(&mut parts, "schema", quoted(self.schema.as_str()).as_str());
        push_field(&mut parts, "pool_size", text::decimal_text(self.pool_size as u64).as_str());
        push_field(&mut parts, "connect_timeout", timeout_text(self.connect_timeout_nanos).as_str());
        push_field(&mut parts, "acquire_timeout", timeout_text(self.acquire_timeout_nanos).as_str());
        push_field(&mut parts, "max_tasks", text::decimal_text(self.max_tasks as u64).as_str());
        parts
    }

    fn describe_authority(&self) -> (parts: Vec<String>)
        ensures
            text::texts(parts@) == authority_fields(*self),
    {
        let mut parts: Vec<String> = Vec::new();
        assert(text::texts(parts@) =~= Seq::<Seq<char>>::empty());
        push_flag(&mut parts, "artifact_store_configured", self.artifact_store);
        push_flag(&mut parts, "artifact_migration_plan_configured", self.artifact_migration_plan);
        push_flag(&mut parts, "artifact_migration_plan_file_configured", self.artifact_migration_plan_file);
        push_flag(&mut parts, "trust_injected_time", self.trust_injected_time);
        push_flag(&mut parts, "audit_projection_enabled", self.audit_projection_enabled);
        push_flag(&mut parts, "quota_enforcement", self.quota_enforcement);
        push_flag(&mut parts, "quota_policy_configured", self.quota_policy);
        push_flag(&mut parts, "push_policy_configured", self.push_policy);
        push_flag(&mut parts, "quota_reconciliation_plan_configured", self.quota_reconciliation_plan);
        parts
    }

    fn describe_trials(&self) -> (parts: Vec<String>)
        ensures
            text::texts(parts@) == trial_fields(*self),
    {
        let mut parts: Vec<String> = Vec::new();
        assert(text::texts(parts@) =~= Seq::<Seq<char>>::empty());
        push_flag(&mut parts, "test_cleanup_enabled", self.test_cleanup);
        push_flag(&mut parts, "test_only_insecure_loopback", self.test_only_insecure_loopback);
        let faults: u64 = self.transaction_test_faults.len() as u64;
        push_field(&mut parts, "transaction_test_fault_count", text::decimal_text(faults).as_str());
        let publication_fault = self.artifact_publication_test_fault.is_some();
        push_flag(&mut parts, "artifact_publication_test_fault_enabled", publication_fault);
        push_flag(&mut parts, "receiver_renewal_test_probe_enabled", self.receiver_renewal_test_probe);
        parts
    }

    /// Describes the configuration without the credentials of its URLs.
    pub fn describe(&self) -> (r: String)
        requires
            identifier_valid(self.schema@),
            self.connect_timeout_nanos <= MAX_TIMEOUT_NANOS,
            self.acquire_timeout_nanos <= MAX_TIMEOUT_NANOS,
        ensures
            r@ == config_text(*self),
    {
        let mut parts = self.describe_server();
        let mut more = self.describe_authority();
        parts.append(&mut more);
        let mut rest = self.describe_trials();
        parts.append(&mut rest);
        assert(text::texts(parts@) =~= config_fields(*self));
        let mut out = "PostgresStoreConfig { ".to_owned();
        out.append(text::join_texts(&parts, ", ").as_str());
        out.append(" }");
        out
    }

    /// The name of the schema.
    pub fn schema_name(&self) -> (r: &str)
        ensures
            r@ == self.schema@,
    {
        self.schema.as_str()
    }

    /// Checks the transport policy without opening a connection.
    pub fn validate_tls_policy(&self) -> (r: Result<(), PostgresStoreError>)
        ensures
            match r {
                Ok(_) => transport_policy(
                    weburl::url_parsed(self.migrator_url@),
                    weburl::url_parsed(self.runtime_url@),
                    self.test_only_insecure_loopback,
                ) is Ok,
                Err(e) => transport_policy(
                    weburl::url_parsed(self.migrator_url@),
                    weburl::url_parsed(self.runtime_url@),
                    self.test_only_insecure_loopback,
                ) == Err::<bool, PostgresStoreError>(e),
            },
    {
        let migrator = weburl::parse_url(self.migrator_url.as_str());
        let runtime = weburl::parse_url(self.runtime_url.as_str());
        match validate_tls(&migrator, &runtime, self.test_only_insecure_loopback) {
            Ok(_) => Ok(()),
            Err(e) => Err(e),
        }
    }
}

/// A name that may stand in a statement has between one and 48 bytes, begins with a lower-case
/// letter and goes on with lower-case letters, digits and underscores.
pub proof fn law_identifiers_are_lower_case(value: Seq<char>)
    ensures
        identifier_valid(value) <==> 1 <= text::utf8(value).len() <= 48 && 97 <= text::utf8(value)[0] <= 122
            && forall|i: int|
            0 <= i < text::utf8(value).len() ==> {
                let b = #[trigger] text::utf8(value)[i];
                97 <= b <= 122 || 48 <= b <= 57 || b == 95
            },
{
    if identifier_valid(value) {
        assert forall|i: int| 0 <= i < text::utf8(value).len() implies {
            let b = #[trigger] text::utf8(value)[i];
            97 <= b <= 122 || 48 <= b <= 57 || b == 95
        } by {
            assert(text::is_lower_alnum_underscore(text::utf8(value)[i]));
        }
    }
}

/// Two URLs and a schema make a configuration exactly where both are of one to 4096 bytes, are
/// not the same, name a PostgreSQL server and a user, and the schema is a name.
pub proof fn law_configurations_name_two_servers(
    migrator_url: Seq<char>,
    runtime_url: Seq<char>,
    schema: Seq<char>,
    migrator: weburl::UrlView,
    runtime: weburl::UrlView,
)
    ensures
        config_valid(migrator_url, runtime_url, schema, Some(migrator), Some(runtime)) <==> {
            &&& 1 <= text::utf8(migrator_url).len() <= 4096
            &&& 1 <= text::utf8(runtime_url).len() <= 4096
            &&& migrator_url != runtime_url
            &&& identifier_valid(schema)
            &&& migrator.scheme == "postgres"@ || migrator.scheme == "postgresql"@
            &&& runtime.scheme == "postgres"@ || runtime.scheme == "postgresql"@
            &&& migrator.host is Some
            &&& runtime.host is Some
            &&& migrator.username.len() >= 1
            &&& runtime.username.len() >= 1
        },
        !config_valid(migrator_url, runtime_url, schema, None, Some(runtime)),
        !config_valid(migrator_url, runtime_url, schema, Some(migrator), None),
{
}

/// A URL is reached over TLS where it asks for it, in plaintext only where it does not, the escape
/// hatch is open and it names the machine itself, and not at all otherwise.
pub proof fn law_plaintext_stays_home(parts: weburl::UrlView, insecure_loopback: bool, i: int)
    ensures
        plaintext_url(None, insecure_loopback) == Err::<bool, PostgresStoreError>(PostgresStoreError::InvalidConfig),
        plaintext_url(Some(parts), insecure_loopback) == Ok::<bool, PostgresStoreError>(true) ==> insecure_loopback
            && parts.host is Some && (parts.host->0 == "127.0.0.1"@ || parts.host->0 == "localhost"@ || parts.host->0
            == "::1"@),
        0 <= i < parts.query_pairs.len() && parts.query_pairs[i].0 == "sslmode"@ && (parts.query_pairs[i].1
            == "require"@ || parts.query_pairs[i].1 == "verify-ca"@ || parts.query_pairs[i].1 == "verify-full"@)
            ==> plaintext_url(Some(parts), insecure_loopback) == Ok::<bool, PostgresStoreError>(false),
        parts.query_pairs.len() == 0 && !insecure_loopback ==> plaintext_url(Some(parts), insecure_loopback) == Err::<
            bool,
            PostgresStoreError,
        >(PostgresStoreError::TlsRequired),
        parts.query_pairs.len() == 0 && insecure_loopback && (parts.host == Some("127.0.0.1"@) || parts.host == Some(
            "localhost"@,
        ) || parts.host == Some("::1"@)) ==> plaintext_url(Some(parts), insecure_loopback) == Ok::<
            bool,
            PostgresStoreError,
        >(true),
        parts.query_pairs.len() == 0 && parts.host != Some("127.0.0.1"@) && parts.host != Some("localhost"@)
            && parts.host != Some("::1"@) ==> plaintext_url(Some(parts), insecure_loopback) == Err::<
            bool,
            PostgresStoreError,
        >(PostgresStoreError::TlsRequired),
{
    if 0 <= i < parts.query_pairs.len() && parts.query_pairs[i].0 == "sslmode"@ && (parts.query_pairs[i].1
        == "require"@ || parts.query_pairs[i].1 == "verify-ca"@ || parts.query_pairs[i].1 == "verify-full"@) {
        assert(tls_pair(parts.query_pairs[i]));
    }
}

/// The two URLs of a configuration are reached alike: where one is over TLS and the other is not,
/// the configuration is refused, and the migrator's fault comes first.
pub proof fn law_both_urls_are_reached_alike(
    migrator: Option<weburl::UrlView>,
    runtime: Option<weburl::UrlView>,
    insecure_loopback: bool,
)
    ensures
        transport_policy(migrator, runtime, insecure_loopback) matches Ok(plain) ==> plaintext_url(
            migrator,
            insecure_loopback,
        ) == Ok::<bool, PostgresStoreError>(plain) && plaintext_url(runtime, insecure_loopback) == Ok::<
            bool,
            PostgresStoreError,
        >(plain),
        plaintext_url(migrator, insecure_loopback) is Ok && plaintext_url(runtime, insecure_loopback) is Ok
            && plaintext_url(migrator, insecure_loopback) != plaintext_url(runtime, insecure_loopback)
            ==> transport_policy(migrator, runtime, insecure_loopback) == Err::<bool, PostgresStoreError>(
            PostgresStoreError::InvalidConfig,
        ),
        plaintext_url(migrator, insecure_loopback) is Ok && plaintext_url(migrator, insecure_loopback) == plaintext_url(
            runtime,
            insecure_loopback,
        ) ==> transport_policy(migrator, runtime, insecure_loopback) == plaintext_url(migrator, insecure_loopback),
        plaintext_url(migrator, insecure_loopback) is Err ==> transport_policy(migrator, runtime, insecure_loopback)
            == plaintext_url(migrator, insecure_loopback),
        plaintext_url(migrator, insecure_loopback) is Ok && plaintext_url(runtime, insecure_loopback) is Err
            ==> transport_policy(migrator, runtime, insecure_loopback) == plaintext_url(runtime, insecure_loopback),
{
}

/// A new configuration pools four connections, waits five seconds for each, holds 1024 tasks and
/// has everything else off.
pub proof fn law_new_configurations_are_modest(c: PostgresStoreConfig)
    requires
        config_defaults(c),
    ensures
        c.pool_size == 4,
        c.max_tasks == 1024,
        c.connect_timeout_nanos == 5 * 1_000_000_000,
        c.acquire_timeout_nanos == 5 * 1_000_000_000,
        !c.test_only_insecure_loopback,
        !c.trust_injected_time,
        !c.test_cleanup,
        !c.audit_projection_enabled,
        !c.quota_enforcement,
        !c.quota_policy,
        !c.quota_reconciliation_plan,
        !c.push_policy,
        !c.artifact_store,
        !c.artifact_migration_plan,
        !c.artifact_migration_plan_file,
        !c.receiver_renewal_test_probe,
        c.transaction_test_faults@.len() == 0,
        c.artifact_publication_test_fault is None,
{
}

} // verus!
