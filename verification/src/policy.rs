//! The operator's callback policy: its limits, its enrollments, and the material that
//! they name.

use reqwest::Identity;
use rustls::pki_types::pem::PemObject;
use rustls::pki_types::{CertificateDer, PrivateKeyDer};
use vstd::prelude::*;

use crate::callback_url;
use crate::callback_url::{CallbackUrlView, CanonicalCallbackUrl};
use crate::push_error::PushSecurityError;
use crate::retry;
use crate::retry::RetryPolicy;
use crate::signer;
use crate::signer::CallbackSigner;
use crate::text;
use crate::weburl;
use crate::weburl::{UrlParts, UrlView};

verus! {

/// The largest policy file, in bytes.
pub const MAX_POLICY_BYTES: usize = 262_144;

/// Where the policy is configured: under its own name or under a deprecated one.
/// Naming both is ambiguous, and an empty path names nothing: both are refused.
pub fn resolve_push_config_path(canonical: Option<Vec<u8>>, deprecated_policy_alias: Option<Vec<u8>>) -> (r: Result<
    Option<Vec<u8>>,
    PushSecurityError,
>)
    ensures
        ({
            let refused = (canonical is Some && canonical->0@.len() == 0) || (deprecated_policy_alias is Some
                && deprecated_policy_alias->0@.len() == 0) || (canonical is Some && deprecated_policy_alias is Some);
            match r {
                Err(e) => refused && e == PushSecurityError::InvalidPolicy,
                Ok(path) => !refused && path == (if canonical is Some {
                    canonical
                } else {
                    deprecated_policy_alias
                }),
            }
        }),
        r is Ok && canonical is Some ==> r->Ok_0 == canonical && deprecated_policy_alias is None,
        r is Ok && canonical is None ==> r->Ok_0 == deprecated_policy_alias,
        r matches Ok(Some(path)) ==> path@.len() > 0,
        canonical is None && deprecated_policy_alias is None ==> r is Ok,
{
    match canonical {
        Some(path) => {
            if path.len() == 0 || deprecated_policy_alias.is_some() {
                return Err(PushSecurityError::InvalidPolicy);
            }
            Ok(Some(path))
        },
        None => match deprecated_policy_alias {
            Some(path) => {
                if path.len() == 0 {
                    return Err(PushSecurityError::InvalidPolicy);
                }
                Ok(Some(path))
            },
            None => Ok(None),
        },
    }
}

/// An enrollment as the policy file states it.
pub struct RawEnrollment {
    pub tenant: String,
    pub endpoint_id: String,
    pub url: String,
    pub event: String,
    pub auth: String,
    pub key_generation: String,
    pub secret_file: String,
    pub ca_file: Option<String>,
    pub mtls_cert_file: Option<String>,
    pub mtls_key_file: Option<String>,
}

/// A policy as its file states it.
pub struct RawPolicy {
    pub schema: String,
    pub enabled: bool,
    pub policy_id: String,
    pub policy_revision: u64,
    pub policy_digest: String,
    pub max_pending: u32,
    pub max_configs_per_task: u16,
    pub max_configs_per_tenant: u32,
    pub worker_count: u16,
    pub claim_batch: u16,
    pub claim_lease_ms: u64,
    pub dns_timeout_ms: u64,
    pub max_dns_answers: u16,
    pub connect_timeout_ms: u64,
    pub request_timeout_ms: u64,
    pub max_response_bytes: u32,
    pub max_attempts: u16,
    pub base_retry_ms: u64,
    pub max_retry_ms: u64,
    pub max_delivery_age_ms: u64,
    pub enrollments: Vec<RawEnrollment>,
}

/// Whether a byte may stand in an identifier of a policy.
pub open spec fn id_byte(b: u8) -> bool {
    text::is_alnum_byte(b) || b == 45 || b == 95 || b == 46
}

/// Whether a text is an identifier of a policy.
pub open spec fn bounded_id(value: Seq<char>) -> bool {
    let bytes = text::utf8(value);
    &&& 0 < bytes.len() <= 128
    &&& forall|i: int| 0 <= i < bytes.len() ==> id_byte(#[trigger] bytes[i])
}

/// An identifier has between one and 128 bytes, each of them a letter, a digit, a hyphen, an
/// underscore or a dot.
pub proof fn law_identifiers_are_plain(value: Seq<char>)
    ensures
        bounded_id(value) <==> 1 <= text::utf8(value).len() <= 128 && forall|i: int|
            0 <= i < text::utf8(value).len() ==> {
                let b = #[trigger] text::utf8(value)[i];
                ||| 48 <= b <= 57
                ||| 65 <= b <= 90
                ||| 97 <= b <= 122
                ||| b == 45
                ||| b == 46
                ||| b == 95
            },
{
    if bounded_id(value) {
        assert forall|i: int| 0 <= i < text::utf8(value).len() implies {
            let b = #[trigger] text::utf8(value)[i];
            ||| 48 <= b <= 57
            ||| 65 <= b <= 90
            ||| 97 <= b <= 122
            ||| b == 45
            ||| b == 46
            ||| b == 95
        } by {
            assert(id_byte(text::utf8(value)[i]));
        }
    }
}

fn is_bounded_id(value: &str) -> (r: bool)
    ensures
        r == bounded_id(value@),
{
    let bytes = value.as_bytes();
    if bytes.len() == 0 || bytes.len() > 128 {
        return false;
    }
    let mut i: usize = 0;
    while i < bytes.len()
        invariant
            i <= bytes@.len(),
            bytes@ == text::utf8(value@),
            forall|j: int| 0 <= j < i ==> id_byte(#[trigger] bytes@[j]),
        decreases bytes@.len() - i,
    {
        let b: u8 = bytes[i];
        if !((b >= 48 && b <= 57) || (b >= 65 && b <= 90) || (b >= 97 && b <= 122) || b == 45 || b == 95 || b == 46) {
            assert(!id_byte(bytes@[i as int]));
            return false;
        }
        i += 1;
    }
    true
}

/// Whether a text is the digest of a policy: `sha256:` and sixty-four hexadecimal
/// digits of either case.
pub open spec fn policy_digest_form(value: Seq<char>) -> bool {
    let bytes = text::utf8(value);
    &&& bytes.len() == 71
    &&& text::begins_with(bytes, text::utf8("sha256:"@))
    &&& forall|i: int| 7 <= i < bytes.len() ==> text::is_hex_byte(#[trigger] bytes[i])
}

fn is_policy_digest(value: &str) -> (r: bool)
    ensures
        r == policy_digest_form(value@),
{
    let bytes = value.as_bytes();
    if bytes.len() != 71 || !text::starts_with_bytes(bytes, "sha256:".as_bytes()) {
        return false;
    }
    let mut i: usize = 7;
    while i < bytes.len()
        invariant
            7 <= i <= bytes@.len(),
            bytes@ == text::utf8(value@),
            forall|j: int| 7 <= j < i ==> text::is_hex_byte(#[trigger] bytes@[j]),
        decreases bytes@.len() - i,
    {
        let b: u8 = bytes[i];
        if !((b >= 48 && b <= 57) || (b >= 65 && b <= 70) || (b >= 97 && b <= 102)) {
            assert(!text::is_hex_byte(bytes@[i as int]));
            return false;
        }
        i += 1;
    }
    true
}

/// Whether a path is absolute.
pub open spec fn absolute(path: Seq<char>) -> bool {
    text::utf8(path).len() > 0 && text::utf8(path)[0] == 47
}

/// Whether a path is absolute, where there is one.
pub open spec fn absolute_or_none(path: Option<String>) -> bool {
    path is Some ==> absolute(path->0@)
}

fn is_absolute(path: &str) -> (r: bool)
    ensures
        r == absolute(path@),
{
    let bytes = path.as_bytes();
    bytes.len() > 0 && bytes[0] == 47
}

fn is_absolute_or_none(path: &Option<String>) -> (r: bool)
    ensures
        r == absolute_or_none(*path),
{
    match path {
        Some(p) => is_absolute(p.as_str()),
        None => true,
    }
}

/// Whether the limits of a policy are within bounds.
pub open spec fn limits_valid(raw: RawPolicy) -> bool {
    &&& raw.schema@ == "smesh-push/1"@
    &&& bounded_id(raw.policy_id@)
    &&& raw.policy_revision > 0
    &&& policy_digest_form(raw.policy_digest@)
    &&& 1 <= raw.max_pending <= 1_000_000
    &&& 1 <= raw.max_configs_per_task <= 32
    &&& 1 <= raw.max_configs_per_tenant <= raw.max_pending
    &&& 1 <= raw.worker_count <= 64
    &&& 1 <= raw.claim_batch <= 1000
    &&& 1000 <= raw.claim_lease_ms <= 300_000
    &&& 10 <= raw.dns_timeout_ms <= 30_000
    &&& 1 <= raw.max_dns_answers <= 32
    &&& 10 <= raw.connect_timeout_ms <= 30_000
    &&& raw.connect_timeout_ms <= raw.request_timeout_ms <= 120_000
    &&& 1 <= raw.max_response_bytes <= 65_536
    &&& 1 <= raw.max_attempts <= 32
    &&& 0 < raw.base_retry_ms <= raw.max_retry_ms <= 3_600_000
    &&& raw.max_retry_ms <= raw.max_delivery_age_ms <= 604_800_000
    &&& raw.enabled ==> raw.enrollments@.len() > 0
    &&& raw.enrollments@.len() <= 10_000
}

/// The limits of a policy are accepted exactly within their bounds: each number from its smallest
/// to its largest, a tenant's callbacks within the pending ones, a request no shorter than its
/// connection, and the retry delays in order below the age of a delivery.
pub proof fn law_policy_limits_are_bounded(raw: RawPolicy)
    ensures
        limits_valid(raw) ==> {
            &&& raw.policy_revision >= 1
            &&& 1 <= raw.max_configs_per_tenant <= raw.max_pending <= 1_000_000
            &&& raw.max_configs_per_task >= 1 && raw.max_configs_per_task <= 32
            &&& raw.worker_count >= 1 && raw.worker_count <= 64
            &&& raw.claim_batch >= 1 && raw.claim_batch <= 1000
            &&& raw.claim_lease_ms >= 1000 && raw.claim_lease_ms <= 300_000
            &&& raw.dns_timeout_ms >= 10 && raw.dns_timeout_ms <= 30_000
            &&& raw.max_dns_answers >= 1 && raw.max_dns_answers <= 32
            &&& 10 <= raw.connect_timeout_ms <= 30_000
            &&& raw.connect_timeout_ms <= raw.request_timeout_ms
            &&& raw.request_timeout_ms <= 120_000
            &&& raw.max_response_bytes >= 1 && raw.max_response_bytes <= 65_536
            &&& raw.max_attempts >= 1 && raw.max_attempts <= 32
            &&& 1 <= raw.base_retry_ms <= raw.max_retry_ms <= raw.max_delivery_age_ms
            &&& raw.max_retry_ms <= 3_600_000
            &&& raw.max_delivery_age_ms <= 604_800_000
            &&& raw.enrollments@.len() <= 10_000
            &&& raw.enabled ==> raw.enrollments@.len() >= 1
            &&& bounded_id(raw.policy_id@)
            &&& policy_digest_form(raw.policy_digest@)
            &&& raw.schema@ == "smesh-push/1"@
        },
        raw.schema@ == "smesh-push/1"@ && bounded_id(raw.policy_id@) && policy_digest_form(raw.policy_digest@)
            && raw.policy_revision >= 1 && 1 <= raw.max_configs_per_tenant <= raw.max_pending <= 1_000_000 && 1
            <= raw.max_configs_per_task <= 32 && 1 <= raw.worker_count <= 64 && 1 <= raw.claim_batch <= 1000 && 1000
            <= raw.claim_lease_ms <= 300_000 && 10 <= raw.dns_timeout_ms <= 30_000 && 1 <= raw.max_dns_answers <= 32
            && 10 <= raw.connect_timeout_ms <= 30_000 && raw.connect_timeout_ms <= raw.request_timeout_ms <= 120_000
            && 1 <= raw.max_response_bytes <= 65_536 && 1 <= raw.max_attempts <= 32 && 1 <= raw.base_retry_ms
            <= raw.max_retry_ms <= 3_600_000 && raw.max_retry_ms <= raw.max_delivery_age_ms <= 604_800_000
            && raw.enrollments@.len() <= 10_000 && (raw.enrollments@.len() >= 1 || !raw.enabled) ==> limits_valid(raw),
{
}

/// The digest of a policy is sixty-four hexadecimal digits behind its algorithm.
pub proof fn law_policy_digests_have_sixty_four_digits(value: Seq<char>)
    ensures
        policy_digest_form(value) ==> text::utf8(value).len() == 7 + 64 && forall|i: int|
            7 <= i < 71 ==> {
                let b = #[trigger] text::utf8(value)[i];
                ||| 48 <= b <= 57
                ||| 65 <= b <= 70
                ||| 97 <= b <= 102
            },
{
    if policy_digest_form(value) {
        assert forall|i: int| 7 <= i < 71 implies {
            let b = #[trigger] text::utf8(value)[i];
            ||| 48 <= b <= 57
            ||| 65 <= b <= 70
            ||| 97 <= b <= 102
        } by {
            assert(text::is_hex_byte(text::utf8(value)[i]));
        }
    }
}

fn are_limits_valid(raw: &RawPolicy) -> (r: bool)
    ensures
        r == limits_valid(*raw),
{
    text::same_text(raw.schema.as_str(), "smesh-push/1") && is_bounded_id(raw.policy_id.as_str())
        && raw.policy_revision > 0 && is_policy_digest(raw.policy_digest.as_str()) && raw.max_pending >= 1
        && raw.max_pending <= 1_000_000 && raw.max_configs_per_task >= 1 && raw.max_configs_per_task <= 32
        && raw.max_configs_per_tenant >= 1 && raw.max_configs_per_tenant <= raw.max_pending && raw.worker_count >= 1
        && raw.worker_count <= 64 && raw.claim_batch >= 1 && raw.claim_batch <= 1000 && raw.claim_lease_ms >= 1000
        && raw.claim_lease_ms <= 300_000 && raw.dns_timeout_ms >= 10 && raw.dns_timeout_ms <= 30_000
        && raw.max_dns_answers >= 1 && raw.max_dns_answers <= 32 && raw.connect_timeout_ms >= 10
        && raw.connect_timeout_ms <= 30_000 && raw.request_timeout_ms >= raw.connect_timeout_ms
        && raw.request_timeout_ms <= 120_000 && raw.max_response_bytes >= 1 && raw.max_response_bytes <= 65_536
        && raw.max_attempts >= 1 && raw.max_attempts <= 32 && raw.base_retry_ms > 0 && raw.max_retry_ms
        >= raw.base_retry_ms && raw.max_retry_ms <= 3_600_000 && raw.max_delivery_age_ms >= raw.max_retry_ms
        && raw.max_delivery_age_ms <= 604_800_000 && (!raw.enabled || raw.enrollments.len() > 0)
        && raw.enrollments.len() <= 10_000
}

/// Whether the parts of an enrollment are well formed, apart from its destination.
pub open spec fn entry_form(e: RawEnrollment) -> bool {
    &&& bounded_id(e.tenant@)
    &&& bounded_id(e.endpoint_id@)
    &&& bounded_id(e.key_generation@)
    &&& e.event@ == "terminal"@
    &&& e.auth@ == "hmac-sha256"@
    &&& absolute(e.secret_file@)
    &&& absolute_or_none(e.ca_file)
    &&& absolute_or_none(e.mtls_cert_file)
    &&& absolute_or_none(e.mtls_key_file)
    &&& e.mtls_cert_file is Some <==> e.mtls_key_file is Some
}

/// An enrollment is well formed exactly where its three names are identifiers, it asks for the
/// terminal event under the one signature there is, every file that it names has an absolute path
/// and a client certificate comes with its key.
pub proof fn law_enrollments_name_absolute_files(e: RawEnrollment)
    ensures
        entry_form(e) <==> {
            &&& bounded_id(e.tenant@)
            &&& bounded_id(e.endpoint_id@)
            &&& bounded_id(e.key_generation@)
            &&& e.event@ == "terminal"@
            &&& e.auth@ == "hmac-sha256"@
            &&& text::utf8(e.secret_file@).len() >= 1 && text::utf8(e.secret_file@)[0] == 0x2f
            &&& e.ca_file is Some ==> text::utf8(e.ca_file->0@).len() >= 1 && text::utf8(e.ca_file->0@)[0] == 0x2f
            &&& e.mtls_cert_file is Some ==> text::utf8(e.mtls_cert_file->0@).len() >= 1 && text::utf8(
                e.mtls_cert_file->0@,
            )[0] == 0x2f
            &&& e.mtls_key_file is Some ==> text::utf8(e.mtls_key_file->0@).len() >= 1 && text::utf8(
                e.mtls_key_file->0@,
            )[0] == 0x2f
            &&& (e.mtls_cert_file is Some && e.mtls_key_file is Some) || (e.mtls_cert_file is None && e.mtls_key_file
                is None)
        },
{
}

fn is_entry_form(e: &RawEnrollment) -> (r: bool)
    ensures
        r == entry_form(*e),
{
    is_bounded_id(e.tenant.as_str()) && is_bounded_id(e.endpoint_id.as_str()) && is_bounded_id(
        e.key_generation.as_str(),
    ) && text::same_text(e.event.as_str(), "terminal") && text::same_text(e.auth.as_str(), "hmac-sha256")
        && is_absolute(e.secret_file.as_str()) && is_absolute_or_none(&e.ca_file) && is_absolute_or_none(
        &e.mtls_cert_file,
    ) && is_absolute_or_none(&e.mtls_key_file) && e.mtls_cert_file.is_some() == e.mtls_key_file.is_some()
}

/// Whether two enrollments of a tenant cannot stand side by side: they have the same
/// endpoint or the same destination.
pub open spec fn entries_clash(a: RawEnrollment, b: RawEnrollment) -> bool {
    a.tenant@ == b.tenant@ && (a.endpoint_id@ == b.endpoint_id@ || a.url@ == b.url@)
}

/// Whether an enrollment clashes with one before it.
pub open spec fn clashes_before(rows: Seq<RawEnrollment>, i: int) -> bool {
    exists|j: int| 0 <= j < i && #[trigger] entries_clash(rows[j], rows[i])
}

/// Why an enrollment is refused, given the parts that were found in its URL.
pub open spec fn entry_fault(rows: Seq<RawEnrollment>, found: Seq<Option<UrlView>>, i: int) -> Option<
    PushSecurityError,
> {
    if !entry_form(rows[i]) {
        Some(PushSecurityError::InvalidPolicy)
    } else if !callback_url::accepted_url(rows[i].url@, found[i]) {
        Some(PushSecurityError::InvalidDestination)
    } else if clashes_before(rows, i) {
        Some(PushSecurityError::InvalidPolicy)
    } else {
        None
    }
}

/// Why the first refused enrollment among the first `n` is refused.
pub open spec fn entries_fault(rows: Seq<RawEnrollment>, found: Seq<Option<UrlView>>, n: int) -> Option<
    PushSecurityError,
>
    decreases n,
{
    if n <= 0 {
        None
    } else {
        match entries_fault(rows, found, n - 1) {
            Some(e) => Some(e),
            None => entry_fault(rows, found, n - 1),
        }
    }
}

/// Why a policy is refused, given the parts that were found in the URLs of its
/// enrollments.
pub open spec fn policy_fault(raw: RawPolicy, found: Seq<Option<UrlView>>) -> Option<PushSecurityError> {
    if !limits_valid(raw) {
        Some(PushSecurityError::InvalidPolicy)
    } else {
        entries_fault(raw.enrollments@, found, raw.enrollments@.len() as int)
    }
}

/// The parts that are found in the URLs of enrollments.
pub open spec fn urls_found(rows: Seq<RawEnrollment>) -> Seq<Option<UrlView>> {
    Seq::new(rows.len(), |i: int| weburl::url_parsed(rows[i].url@))
}

/// URL parts as text.
pub open spec fn parts_views(parts: Seq<Option<UrlParts>>) -> Seq<Option<UrlView>> {
    Seq::new(
        parts.len(),
        |i: int|
            match parts[i] {
                Some(p) => Some(p@),
                None => None,
            },
    )
}

/// An enrollment as text.
pub struct EnrollmentView {
    pub tenant: Seq<char>,
    pub endpoint_id: Seq<char>,
    pub url: CallbackUrlView,
    pub key_generation: Seq<char>,
    pub secret_file: Seq<char>,
    pub ca_file: Option<Seq<char>>,
    pub mtls_cert_file: Option<Seq<char>>,
    pub mtls_key_file: Option<Seq<char>>,
}

/// Whether an enrollment is what the policy file states.
pub open spec fn enrolled_as(e: EnrollmentView, raw: RawEnrollment) -> bool {
    &&& e.tenant == raw.tenant@
    &&& e.endpoint_id == raw.endpoint_id@
    &&& e.url.canonical == raw.url@
    &&& callback_url::canonical_url(e.url)
    &&& e.key_generation == raw.key_generation@
    &&& e.secret_file == raw.secret_file@
    &&& e.ca_file == text::opt_text(raw.ca_file)
    &&& e.mtls_cert_file == text::opt_text(raw.mtls_cert_file)
    &&& e.mtls_key_file == text::opt_text(raw.mtls_key_file)
}

/// A destination that an operator enrolled for a tenant. Destination, tenant and
/// secret are never shown.
pub struct PushEnrollment {
    tenant: String,
    endpoint_id: String,
    url: CanonicalCallbackUrl,
    key_generation: String,
    secret_file: String,
    ca_file: Option<String>,
    mtls_cert_file: Option<String>,
    mtls_key_file: Option<String>,
}

impl View for PushEnrollment {
    type V = EnrollmentView;

    closed spec fn view(&self) -> EnrollmentView {
        EnrollmentView {
            tenant: self.tenant@,
            endpoint_id: self.endpoint_id@,
            url: self.url@,
            key_generation: self.key_generation@,
            secret_file: self.secret_file@,
            ca_file: text::opt_text(self.ca_file),
            mtls_cert_file: text::opt_text(self.mtls_cert_file),
            mtls_key_file: text::opt_text(self.mtls_key_file),
        }
    }
}

impl PushEnrollment {
    /// The tenant.
    pub fn tenant(&self) -> (r: &str)
        ensures
            r@ == self@.tenant,
    {
        self.tenant.as_str()
    }

    /// The endpoint.
    pub fn endpoint_id(&self) -> (r: &str)
        ensures
            r@ == self@.endpoint_id,
    {
        self.endpoint_id.as_str()
    }

    /// The destination.
    pub fn url(&self) -> (r: &CanonicalCallbackUrl)
        ensures
            r@ == self@.url,
    {
        &self.url
    }

    /// The generation of the signing key.
    pub fn key_generation(&self) -> (r: &str)
        ensures
            r@ == self@.key_generation,
    {
        self.key_generation.as_str()
    }

    /// The file that holds the signing secret.
    pub fn secret_file(&self) -> (r: &str)
        ensures
            r@ == self@.secret_file,
    {
        self.secret_file.as_str()
    }

    /// The file that holds the only trusted roots, where there is one.
    pub fn ca_file(&self) -> (r: Option<&str>)
        ensures
            match r {
                Some(path) => self@.ca_file == Some(path@),
                None => self@.ca_file is None,
            },
    {
        match &self.ca_file {
            Some(path) => Some(path.as_str()),
            None => None,
        }
    }

    /// The files that hold the client certificate and its key, where there are both.
    pub fn mtls_files(&self) -> (r: Option<(&str, &str)>)
        ensures
            match r {
                Some(files) => self@.mtls_cert_file == Some(files.0@) && self@.mtls_key_file == Some(files.1@),
                None => self@.mtls_cert_file is None || self@.mtls_key_file is None,
            },
    {
        match &self.mtls_cert_file {
            Some(cert) => match &self.mtls_key_file {
                Some(key) => Some((cert.as_str(), key.as_str())),
                None => None,
            },
            None => None,
        }
    }

    /// The signer of this enrollment, made with the content of its secret file, where
    /// that could be read.
    pub fn load_signer(&self, secret: &Option<Vec<u8>>) -> (r: Result<CallbackSigner, PushSecurityError>)
        ensures
            ({
                let usable = secret is Some && signer::MIN_SECRET_BYTES <= secret->0@.len()
                    <= signer::MAX_SECRET_BYTES;
                match r {
                    Ok(s) => usable && s.secret() == secret->0@,
                    Err(e) => !usable && e == PushSecurityError::InvalidSecret,
                }
            }),
    {
        match secret {
            Some(bytes) => CallbackSigner::new(bytes.as_slice()),
            None => Err(PushSecurityError::InvalidSecret),
        }
    }
}

/// A policy as text and numbers.
pub struct PolicyView {
    pub enabled: bool,
    pub policy_id: Seq<char>,
    pub policy_revision: u64,
    pub policy_digest: Seq<char>,
    pub max_pending: u32,
    pub max_configs_per_task: u16,
    pub max_configs_per_tenant: u32,
    pub worker_count: u16,
    pub claim_batch: u16,
    pub claim_lease_ms: u64,
    pub dns_timeout_ms: u64,
    pub max_dns_answers: u16,
    pub connect_timeout_ms: u64,
    pub request_timeout_ms: u64,
    pub max_response_bytes: u32,
    pub max_attempts: u16,
    pub base_retry_ms: u64,
    pub max_retry_ms: u64,
    pub max_delivery_age_ms: u64,
    pub enrollments: Seq<EnrollmentView>,
}

/// The retry schedule of a policy.
pub open spec fn schedule_of(p: PolicyView) -> retry::RetryView {
    retry::RetryView {
        max_attempts: p.max_attempts,
        base_ms: p.base_retry_ms,
        max_ms: p.max_retry_ms,
        max_age_ms: p.max_delivery_age_ms,
    }
}

/// Whether no two enrollments of a tenant have the same endpoint or the same
/// destination.
pub open spec fn enrollments_distinct(list: Seq<EnrollmentView>) -> bool {
    forall|i: int, j: int|
        0 <= i < j < list.len() && (#[trigger] list[i]).tenant == (#[trigger] list[j]).tenant ==> list[i].endpoint_id
            != list[j].endpoint_id && list[i].url.canonical != list[j].url.canonical
}

/// Whether a policy can be acted on.
pub open spec fn valid_policy(p: PolicyView) -> bool {
    &&& retry::valid_bounds(schedule_of(p))
    &&& 1 <= p.max_dns_answers <= 32
    &&& 1 <= p.worker_count <= 64
    &&& p.enabled ==> p.enrollments.len() > 0
    &&& enrollments_distinct(p.enrollments)
    &&& forall|i: int|
        0 <= i < p.enrollments.len() ==> callback_url::canonical_url((#[trigger] p.enrollments[i]).url)
}

/// Whether a policy is what its file states.
pub open spec fn policy_as(p: PolicyView, raw: RawPolicy) -> bool {
    &&& p.enabled == raw.enabled
    &&& p.policy_id == raw.policy_id@
    &&& p.policy_revision == raw.policy_revision
    &&& p.policy_digest == raw.policy_digest@
    &&& p.max_pending == raw.max_pending
    &&& p.max_configs_per_task == raw.max_configs_per_task
    &&& p.max_configs_per_tenant == raw.max_configs_per_tenant
    &&& p.worker_count == raw.worker_count
    &&& p.claim_batch == raw.claim_batch
    &&& p.claim_lease_ms == raw.claim_lease_ms
    &&& p.dns_timeout_ms == raw.dns_timeout_ms
    &&& p.max_dns_answers == raw.max_dns_answers
    &&& p.connect_timeout_ms == raw.connect_timeout_ms
    &&& p.request_timeout_ms == raw.request_timeout_ms
    &&& p.max_response_bytes == raw.max_response_bytes
    &&& p.max_attempts == raw.max_attempts
    &&& p.base_retry_ms == raw.base_retry_ms
    &&& p.max_retry_ms == raw.max_retry_ms
    &&& p.max_delivery_age_ms == raw.max_delivery_age_ms
    &&& p.enrollments.len() == raw.enrollments@.len()
    &&& forall|i: int|
        0 <= i < p.enrollments.len() ==> enrolled_as(#[trigger] p.enrollments[i], raw.enrollments@[i])
}

/// Enrollments as text.
pub open spec fn enrollment_views(list: Seq<PushEnrollment>) -> Seq<EnrollmentView> {
    Seq::new(list.len(), |i: int| list[i]@)
}

/// What the files of an enrollment hold. A file that is missing, or that its owner
/// does not keep private, could not be read.
pub struct EnrollmentMaterial {
    pub secret: Option<Vec<u8>>,
    pub ca: Option<Vec<u8>>,
    pub mtls_cert: Option<Vec<u8>>,
    pub mtls_key: Option<Vec<u8>>,
}

/// What was found in the files of an enrollment: the length of the secret, the
/// numbers of certificates and keys, and whether certificate and key make an
/// identity.
#[derive(Clone, Copy, Debug, PartialEq, Eq, Structural)]
pub struct MaterialFindings {
    pub secret_bytes: Option<usize>,
    pub ca_certificates: Option<usize>,
    pub client_certificates: Option<usize>,
    pub client_keys: Option<usize>,
    pub identity: bool,
}

/// Whether an enrollment can be served with what was found in its files.
pub open spec fn findings_usable(e: EnrollmentView, f: MaterialFindings) -> bool {
    &&& f.secret_bytes is Some && signer::MIN_SECRET_BYTES <= f.secret_bytes->0 <= signer::MAX_SECRET_BYTES
    &&& e.ca_file is Some ==> f.ca_certificates is Some && f.ca_certificates->0 > 0
    &&& e.mtls_cert_file is Some && e.mtls_key_file is Some ==> f.client_certificates is Some
        && f.client_certificates->0 > 0 && f.client_keys == Some(1usize) && f.identity
}

/// Refuses an enrollment that cannot be served with what was found in its files.
pub fn check_findings(enrollment: &PushEnrollment, f: &MaterialFindings) -> (r: Result<(), PushSecurityError>)
    ensures
        r == (if findings_usable(enrollment@, *f) {
            Ok::<(), PushSecurityError>(())
        } else {
            Err(PushSecurityError::InvalidSecret)
        }),
{
    match f.secret_bytes {
        Some(n) => {
            if n < signer::MIN_SECRET_BYTES || n > signer::MAX_SECRET_BYTES {
                return Err(PushSecurityError::InvalidSecret);
            }
        },
        None => {
            return Err(PushSecurityError::InvalidSecret);
        },
    }
    if enrollment.ca_file().is_some() {
        match f.ca_certificates {
            Some(n) => {
                if n == 0 {
                    return Err(PushSecurityError::InvalidSecret);
                }
            },
            None => {
                return Err(PushSecurityError::InvalidSecret);
            },
        }
    }
    if enrollment.mtls_files().is_some() {
        match f.client_certificates {
            Some(n) => {
                if n == 0 {
                    return Err(PushSecurityError::InvalidSecret);
                }
            },
            None => {
                return Err(PushSecurityError::InvalidSecret);
            },
        }
        match f.client_keys {
            Some(n) => {
                if n != 1 {
                    return Err(PushSecurityError::InvalidSecret);
                }
            },
            None => {
                return Err(PushSecurityError::InvalidSecret);
            },
        }
        if !f.identity {
            return Err(PushSecurityError::InvalidSecret);
        }
    }
    Ok(())
}

/// The certificates in PEM text, where all of it can be read.
pub uninterp spec fn certificates_of(pem: Seq<u8>) -> Option<Seq<Seq<u8>>>;

/// The private keys in PEM text, where all of it can be read.
pub uninterp spec fn private_keys_of(pem: Seq<u8>) -> Option<Seq<Seq<u8>>>;

/// Whether PEM text makes a client identity.
pub uninterp spec fn identity_of(pem: Seq<u8>) -> bool;

/// `rustls::pki_types::CertificateDer::pem_slice_iter`, collected: success and the
/// certificates are a function of the text alone, named [`certificates_of`].
#[verifier::external_body]
pub(crate) fn pem_certificates(pem: &[u8]) -> (r: Option<Vec<Vec<u8>>>)
    ensures
        match r {
            Some(list) => certificates_of(pem@) == Some(text::byte_views(list@)),
            None => certificates_of(pem@) is None,
        },
{
    let list = CertificateDer::pem_slice_iter(pem).collect::<Result<Vec<_>, _>>().ok()?;
    Some(list.iter().map(|certificate| certificate.as_ref().to_vec()).collect())
}

/// `rustls::pki_types::PrivateKeyDer::pem_slice_iter`, collected: success and the
/// keys are a function of the text alone, named [`private_keys_of`].
#[verifier::external_body]
pub(crate) fn pem_private_keys(pem: &[u8]) -> (r: Option<Vec<Vec<u8>>>)
    ensures
        match r {
            Some(list) => private_keys_of(pem@) == Some(text::byte_views(list@)),
            None => private_keys_of(pem@) is None,
        },
{
    let list = PrivateKeyDer::pem_slice_iter(pem).collect::<Result<Vec<_>, _>>().ok()?;
    Some(list.iter().map(|key| key.secret_der().to_vec()).collect())
}

/// `reqwest::Identity::from_pem`: whether it accepts is a function of the text alone,
/// named [`identity_of`].
#[verifier::external_body]
pub(crate) fn pem_identity(pem: &[u8]) -> (r: bool)
    ensures
        r == identity_of(pem@),
{
    Identity::from_pem(pem).is_ok()
}

/// `reqwest::Certificate::from_der`: whether the client takes the bytes as a certificate
/// that it trusts. With rustls, the one backend that is built, it keeps the bytes and
/// reads them when the client is built, so that none are refused here.
#[verifier::external_body]
pub(crate) fn der_certificate(der: &[u8]) -> (r: bool)
    ensures
        r,
{
    reqwest::Certificate::from_der(der).is_ok()
}

/// Takes certificates that were read, if there are any.
pub fn certificates_or_refuse(parsed: Option<Vec<Vec<u8>>>) -> (r: Result<Vec<Vec<u8>>, PushSecurityError>)
    ensures
        match r {
            Ok(list) => parsed == Some(list) && list@.len() > 0,
            Err(e) => e == PushSecurityError::InvalidSecret && (parsed is None || parsed->0@.len() == 0),
        },
{
    match parsed {
        Some(list) => if list.len() == 0 {
            Err(PushSecurityError::InvalidSecret)
        } else {
            Ok(list)
        },
        None => Err(PushSecurityError::InvalidSecret),
    }
}

/// Reads the certificates in PEM text. There must be one.
pub fn parse_certificates(bytes: &[u8]) -> (r: Result<Vec<Vec<u8>>, PushSecurityError>)
    ensures
        match r {
            Ok(list) => certificates_of(bytes@) == Some(text::byte_views(list@)) && list@.len() > 0,
            Err(e) => e == PushSecurityError::InvalidSecret && (certificates_of(bytes@) is None || certificates_of(
                bytes@,
            )->0.len() == 0),
        },
{
    certificates_or_refuse(pem_certificates(bytes))
}

/// Whether PEM texts hold certificates and one key.
pub open spec fn identity_material(cert: Seq<u8>, key: Seq<u8>) -> bool {
    &&& certificates_of(cert) is Some && certificates_of(cert)->0.len() > 0
    &&& private_keys_of(key) is Some && private_keys_of(key)->0.len() == 1
}

/// Refuses a client identity unless there are certificates and exactly one key.
pub fn validate_identity_material(cert_bytes: &[u8], key_bytes: &[u8]) -> (r: Result<(), PushSecurityError>)
    ensures
        r == (if identity_material(cert_bytes@, key_bytes@) {
            Ok::<(), PushSecurityError>(())
        } else {
            Err(PushSecurityError::InvalidSecret)
        }),
{
    match parse_certificates(cert_bytes) {
        Ok(_) => {},
        Err(e) => {
            return Err(e);
        },
    }
    match pem_private_keys(key_bytes) {
        Some(keys) => if keys.len() == 1 {
            Ok(())
        } else {
            Err(PushSecurityError::InvalidSecret)
        },
        None => Err(PushSecurityError::InvalidSecret),
    }
}

/// Whether an enrollment can be served with the content of its files.
pub open spec fn material_usable(e: EnrollmentView, m: EnrollmentMaterial) -> bool {
    &&& m.secret is Some && signer::MIN_SECRET_BYTES <= m.secret->0@.len() <= signer::MAX_SECRET_BYTES
    &&& e.ca_file is Some ==> m.ca is Some && certificates_of(m.ca->0@) is Some && certificates_of(
        m.ca->0@,
    )->0.len() > 0
    &&& e.mtls_cert_file is Some && e.mtls_key_file is Some ==> {
        &&& m.mtls_cert is Some && m.mtls_key is Some
        &&& identity_material(m.mtls_cert->0@, m.mtls_key->0@)
        &&& identity_of(m.mtls_cert->0@ + m.mtls_key->0@)
    }
}

fn count_certificates(bytes: &Option<Vec<u8>>) -> (r: Option<usize>)
    ensures
        match r {
            Some(n) => bytes is Some && certificates_of(bytes->0@) is Some && certificates_of(bytes->0@)->0.len() == n,
            None => bytes is None || certificates_of(bytes->0@) is None,
        },
{
    match bytes {
        Some(b) => match pem_certificates(b.as_slice()) {
            Some(list) => Some(list.len()),
            None => None,
        },
        None => None,
    }
}

/// Reads what the files of an enrollment hold. Files that the enrollment does not
/// name are not read.
fn read_material(enrollment: &PushEnrollment, m: &EnrollmentMaterial) -> (f: MaterialFindings)
    ensures
        findings_usable(enrollment@, f) == material_usable(enrollment@, *m),
{
    let secret_bytes: Option<usize> = match &m.secret {
        Some(b) => Some(b.len()),
        None => None,
    };
    let ca_certificates: Option<usize> = if enrollment.ca_file().is_some() {
        count_certificates(&m.ca)
    } else {
        None
    };
    let mut client_certificates: Option<usize> = None;
    let mut client_keys: Option<usize> = None;
    let mut identity: bool = false;
    if enrollment.mtls_files().is_some() {
        client_certificates = count_certificates(&m.mtls_cert);
        if let Some(key) = &m.mtls_key {
            client_keys = match pem_private_keys(key.as_slice()) {
                Some(list) => Some(list.len()),
                None => None,
            };
            if let Some(cert) = &m.mtls_cert {
                let mut combined = text::copy_bytes(cert.as_slice());
                text::push_bytes(&mut combined, key.as_slice());
                identity = pem_identity(combined.as_slice());
            }
        }
    }
    MaterialFindings { secret_bytes, ca_certificates, client_certificates, client_keys, identity }
}

/// The callback policy of an operator.
pub struct PushPolicy {
    enabled: bool,
    policy_id: String,
    policy_revision: u64,
    policy_digest: String,
    max_pending: u32,
    max_configs_per_task: u16,
    max_configs_per_tenant: u32,
    worker_count: u16,
    claim_batch: u16,
    claim_lease_ms: u64,
    dns_timeout_ms: u64,
    max_dns_answers: u16,
    connect_timeout_ms: u64,
    request_timeout_ms: u64,
    max_response_bytes: u32,
    max_attempts: u16,
    base_retry_ms: u64,
    max_retry_ms: u64,
    max_delivery_age_ms: u64,
    enrollments: Vec<PushEnrollment>,
}

impl View for PushPolicy {
    type V = PolicyView;

    closed spec fn view(&self) -> PolicyView {
        PolicyView {
            enabled: self.enabled,
            policy_id: self.policy_id@,
            policy_revision: self.policy_revision,
            policy_digest: self.policy_digest@,
            max_pending: self.max_pending,
            max_configs_per_task: self.max_configs_per_task,
            max_configs_per_tenant: self.max_configs_per_tenant,
            worker_count: self.worker_count,
            claim_batch: self.claim_batch,
            claim_lease_ms: self.claim_lease_ms,
            dns_timeout_ms: self.dns_timeout_ms,
            max_dns_answers: self.max_dns_answers,
            connect_timeout_ms: self.connect_timeout_ms,
            request_timeout_ms: self.request_timeout_ms,
            max_response_bytes: self.max_response_bytes,
            max_attempts: self.max_attempts,
            base_retry_ms: self.base_retry_ms,
            max_retry_ms: self.max_retry_ms,
            max_delivery_age_ms: self.max_delivery_age_ms,
            enrollments: enrollment_views(self.enrollments@),
        }
    }
}

/// Whether a policy file has a size at which it is read.
pub open spec fn policy_size_valid(size: nat) -> bool {
    0 < size <= MAX_POLICY_BYTES
}

/// Why a policy file is refused, given what was read in it.
pub open spec fn file_fault(size: nat, raw: Option<RawPolicy>, found: Seq<Option<UrlView>>) -> Option<
    PushSecurityError,
> {
    if !policy_size_valid(size) {
        Some(PushSecurityError::InvalidPolicy)
    } else {
        match raw {
            None => Some(PushSecurityError::InvalidPolicy),
            Some(p) => policy_fault(p, found),
        }
    }
}

/// Whether the first `n` enrollments can be served with the content of their files.
pub open spec fn all_material_usable(list: Seq<EnrollmentView>, materials: Seq<EnrollmentMaterial>, n: int) -> bool {
    forall|i: int| 0 <= i < n ==> material_usable(#[trigger] list[i], materials[i])
}

impl PushPolicy {
    #[verifier::type_invariant]
    spec fn can_be_acted_on(self) -> bool {
        valid_policy(self@)
    }

    /// Takes what a reader found in a policy file of some bytes.
    pub fn parse_bytes(bytes: &[u8], raw: Option<RawPolicy>) -> (r: Result<PushPolicy, PushSecurityError>)
        ensures
            match r {
                Ok(p) => file_fault(bytes@.len(), raw, urls_found(raw->0.enrollments@)) is None && policy_as(p@, raw->0)
                    && valid_policy(p@),
                Err(e) => file_fault(bytes@.len(), raw, urls_found(raw->0.enrollments@)) == Some(e),
            },
    {
        if bytes.len() == 0 || bytes.len() > MAX_POLICY_BYTES {
            return Err(PushSecurityError::InvalidPolicy);
        }
        match raw {
            None => Err(PushSecurityError::InvalidPolicy),
            Some(p) => validate_raw_policy(p),
        }
    }

    /// Takes a policy that was read, where its enrollments can be served with the
    /// content of their files.
    pub fn load(parsed: Result<PushPolicy, PushSecurityError>, materials: &Vec<EnrollmentMaterial>) -> (r: Result<
        PushPolicy,
        PushSecurityError,
    >)
        requires
            parsed is Ok ==> materials@.len() == parsed->Ok_0@.enrollments.len(),
        ensures
            match parsed {
                Err(e) => r == Err::<PushPolicy, PushSecurityError>(e),
                Ok(p) => if all_material_usable(p@.enrollments, materials@, p@.enrollments.len() as int) {
                    r == Ok::<PushPolicy, PushSecurityError>(p)
                } else {
                    r == Err::<PushPolicy, PushSecurityError>(PushSecurityError::InvalidSecret)
                },
            },
    {
        match parsed {
            Err(e) => Err(e),
            Ok(p) => match p.validate_material(materials) {
                Ok(_) => Ok(p),
                Err(e) => Err(e),
            },
        }
    }

    /// Checks every secret, root and identity, without a lookup or a connection.
    pub fn validate_material(&self, materials: &Vec<EnrollmentMaterial>) -> (r: Result<(), PushSecurityError>)
        requires
            materials@.len() == self@.enrollments.len(),
        ensures
            r == (if all_material_usable(self@.enrollments, materials@, self@.enrollments.len() as int) {
                Ok::<(), PushSecurityError>(())
            } else {
                Err(PushSecurityError::InvalidSecret)
            }),
    {
        let mut i: usize = 0;
        while i < self.enrollments.len()
            invariant
                i <= self.enrollments@.len(),
                materials@.len() == self.enrollments@.len(),
                self@.enrollments == enrollment_views(self.enrollments@),
                all_material_usable(self@.enrollments, materials@, i as int),
            decreases self.enrollments@.len() - i,
        {
            let findings = read_material(&self.enrollments[i], &materials[i]);
            assert(self@.enrollments[i as int] == self.enrollments@[i as int]@);
            match check_findings(&self.enrollments[i], &findings) {
                Ok(_) => {},
                Err(e) => {
                    assert(!material_usable(self@.enrollments[i as int], materials@[i as int]));
                    return Err(e);
                },
            }
            i += 1;
        }
        Ok(())
    }

    /// Whether callbacks are on.
    pub fn enabled(&self) -> (r: bool)
        ensures
            r == self@.enabled,
    {
        self.enabled
    }

    /// The name of the policy.
    pub fn policy_id(&self) -> (r: &str)
        ensures
            r@ == self@.policy_id,
    {
        self.policy_id.as_str()
    }

    /// The revision of the policy.
    pub fn policy_revision(&self) -> (r: u64)
        ensures
            r == self@.policy_revision,
    {
        self.policy_revision
    }

    /// The digest of the policy.
    pub fn policy_digest(&self) -> (r: &str)
        ensures
            r@ == self@.policy_digest,
    {
        self.policy_digest.as_str()
    }

    /// How many deliveries may be pending.
    pub fn max_pending(&self) -> (r: u32)
        ensures
            r == self@.max_pending,
    {
        self.max_pending
    }

    /// How many callbacks a task may have.
    pub fn max_configs_per_task(&self) -> (r: u16)
        ensures
            r == self@.max_configs_per_task,
    {
        self.max_configs_per_task
    }

    /// How many callbacks a tenant may have.
    pub fn max_configs_per_tenant(&self) -> (r: u32)
        ensures
            r == self@.max_configs_per_tenant,
    {
        self.max_configs_per_tenant
    }

    /// How many deliveries a worker claims at once.
    pub fn claim_batch(&self) -> (r: u16)
        ensures
            r == self@.claim_batch,
    {
        self.claim_batch
    }

    /// How many workers there are.
    pub fn worker_count(&self) -> (r: u16)
        ensures
            r == self@.worker_count,
            1 <= r <= 64,
    {
        proof {
            use_type_invariant(self);
        }
        self.worker_count
    }

    /// How long a claim lasts.
    pub fn claim_lease_ms(&self) -> (r: u64)
        ensures
            r == self@.claim_lease_ms,
    {
        self.claim_lease_ms
    }

    /// How many bytes of a response are read.
    pub fn max_response_bytes(&self) -> (r: u32)
        ensures
            r == self@.max_response_bytes,
    {
        self.max_response_bytes
    }

    /// The retry schedule.
    pub fn retry_policy(&self) -> (r: RetryPolicy)
        ensures
            r@ == schedule_of(self@),
    {
        proof {
            use_type_invariant(self);
        }
        match RetryPolicy::new(self.max_attempts, self.base_retry_ms, self.max_retry_ms, self.max_delivery_age_ms) {
            Ok(policy) => policy,
            Err(_) => {
                assert(false);
                vstd::pervasive::unreached()
            },
        }
    }

    /// How many attempts are made.
    pub fn max_attempts(&self) -> (r: u16)
        ensures
            r == self@.max_attempts,
    {
        self.max_attempts
    }

    /// How old a delivery may get.
    pub fn max_delivery_age_ms(&self) -> (r: u64)
        ensures
            r == self@.max_delivery_age_ms,
    {
        self.max_delivery_age_ms
    }

    /// How long a lookup may take.
    pub fn dns_timeout_ms(&self) -> (r: u64)
        ensures
            r == self@.dns_timeout_ms,
    {
        self.dns_timeout_ms
    }

    /// How many answers a lookup may have.
    pub fn max_dns_answers(&self) -> (r: u16)
        ensures
            r == self@.max_dns_answers,
            1 <= r <= 32,
    {
        proof {
            use_type_invariant(self);
        }
        self.max_dns_answers
    }

    /// How long a connection may take.
    pub fn connect_timeout_ms(&self) -> (r: u64)
        ensures
            r == self@.connect_timeout_ms,
    {
        self.connect_timeout_ms
    }

    /// How long a request may take.
    pub fn request_timeout_ms(&self) -> (r: u64)
        ensures
            r == self@.request_timeout_ms,
    {
        self.request_timeout_ms
    }

    /// The enrollments.
    pub fn enrollments(&self) -> (r: &[PushEnrollment])
        ensures
            enrollment_views(r@) == self@.enrollments,
    {
        self.enrollments.as_slice()
    }

    /// Finds the enrollment of a tenant's endpoint at exactly one destination.
    pub fn enrollment(&self, tenant: &str, endpoint_id: &str, exact_url: &str) -> (r: Result<
        &PushEnrollment,
        PushSecurityError,
    >)
        ensures
            ({
                let accepted = callback_url::accepted_url(exact_url@, weburl::url_parsed(exact_url@));
                match r {
                    Ok(e) => accepted && enrolled_for(e@, tenant@, endpoint_id@, exact_url@) && self@.enrollments.contains(
                        e@,
                    ),
                    Err(PushSecurityError::InvalidDestination) => !accepted,
                    Err(e) => {
                        &&& accepted
                        &&& e == PushSecurityError::EnrollmentDenied
                        &&& forall|i: int|
                            0 <= i < self@.enrollments.len() ==> !enrolled_for(
                                #[trigger] self@.enrollments[i],
                                tenant@,
                                endpoint_id@,
                                exact_url@,
                            )
                    },
                }
            }),
    {
        match CanonicalCallbackUrl::parse(exact_url) {
            Ok(requested) => self.find_enrollment(tenant, endpoint_id, &requested),
            Err(e) => Err(e),
        }
    }

    /// Finds the enrollment of a tenant's endpoint at a destination.
    pub fn find_enrollment(&self, tenant: &str, endpoint_id: &str, requested: &CanonicalCallbackUrl) -> (r: Result<
        &PushEnrollment,
        PushSecurityError,
    >)
        requires
            callback_url::canonical_url(requested@),
        ensures
            match r {
                Ok(e) => enrolled_for(e@, tenant@, endpoint_id@, requested@.canonical) && self@.enrollments.contains(
                    e@,
                ),
                Err(e) => {
                    &&& e == PushSecurityError::EnrollmentDenied
                    &&& forall|i: int|
                        0 <= i < self@.enrollments.len() ==> !enrolled_for(
                            #[trigger] self@.enrollments[i],
                            tenant@,
                            endpoint_id@,
                            requested@.canonical,
                        )
                },
            },
    {
        proof {
            use_type_invariant(self);
        }
        let mut i: usize = 0;
        while i < self.enrollments.len()
            invariant
                i <= self.enrollments@.len(),
                self@.enrollments == enrollment_views(self.enrollments@),
                callback_url::canonical_url(requested@),
                valid_policy(self@),
                forall|j: int|
                    0 <= j < i ==> !enrolled_for(
                        #[trigger] self@.enrollments[j],
                        tenant@,
                        endpoint_id@,
                        requested@.canonical,
                    ),
            decreases self.enrollments@.len() - i,
        {
            let entry = &self.enrollments[i];
            proof {
                assert(self@.enrollments[i as int] == entry@);
                if entry@.url.canonical == requested@.canonical {
                    callback_url::law_canonical_urls_read_one_way(entry@.url, requested@);
                }
            }
            if text::same_text(entry.tenant.as_str(), tenant) && text::same_text(
                entry.endpoint_id.as_str(),
                endpoint_id,
            ) && entry.url.same(requested) {
                return Ok(entry);
            }
            i += 1;
        }
        Err(PushSecurityError::EnrollmentDenied)
    }
}

/// Whether an enrollment is that of a tenant's endpoint at a destination.
pub open spec fn enrolled_for(e: EnrollmentView, tenant: Seq<char>, endpoint_id: Seq<char>, url: Seq<char>) -> bool {
    e.tenant == tenant && e.endpoint_id == endpoint_id && e.url.canonical == url
}

/// At most one enrollment of a policy is that of a tenant's endpoint, and at most one
/// is at a tenant's destination.
pub proof fn law_enrollments_are_unique(p: PolicyView, i: int, j: int)
    requires
        valid_policy(p),
        0 <= i < p.enrollments.len(),
        0 <= j < p.enrollments.len(),
        p.enrollments[i].tenant == p.enrollments[j].tenant,
        p.enrollments[i].endpoint_id == p.enrollments[j].endpoint_id || p.enrollments[i].url.canonical
            == p.enrollments[j].url.canonical,
    ensures
        i == j,
{
}

fn clashes_with_earlier(rows: &Vec<RawEnrollment>, i: usize) -> (r: bool)
    requires
        i < rows@.len(),
    ensures
        r == clashes_before(rows@, i as int),
{
    let mut j: usize = 0;
    while j < i
        invariant
            j <= i < rows@.len(),
            forall|k: int| 0 <= k < j ==> !#[trigger] entries_clash(rows@[k], rows@[i as int]),
        decreases i - j,
    {
        if rows[j].tenant == rows[i].tenant && (rows[j].endpoint_id == rows[i].endpoint_id || rows[j].url
            == rows[i].url) {
            assert(entries_clash(rows@[j as int], rows@[i as int]));
            return true;
        }
        j += 1;
    }
    false
}

proof fn lemma_entries_prefix(rows: Seq<RawEnrollment>, found: Seq<Option<UrlView>>, m: int, n: int)
    requires
        0 <= m <= n,
        entries_fault(rows, found, m) is Some,
    ensures
        entries_fault(rows, found, n) == entries_fault(rows, found, m),
    decreases n - m,
{
    if m < n {
        lemma_entries_prefix(rows, found, m, n - 1);
    }
}

/// Enrollments are accepted all together: exactly where each is well formed, has an accepted
/// destination, and shares neither its endpoint nor its destination with an earlier one of the
/// same tenant.
pub proof fn law_every_enrollment_must_be_acceptable(rows: Seq<RawEnrollment>, found: Seq<Option<UrlView>>, n: int)
    requires
        0 <= n <= rows.len(),
    ensures
        entries_fault(rows, found, n) is None <==> forall|i: int|
            0 <= i < n ==> entry_form(#[trigger] rows[i]) && callback_url::accepted_url(rows[i].url@, found[i])
                && forall|j: int|
                0 <= j < i ==> (#[trigger] rows[j]).tenant@ != rows[i].tenant@ || rows[j].endpoint_id@
                    != rows[i].endpoint_id@ && rows[j].url@ != rows[i].url@,
    decreases n,
{
    if n > 0 {
        law_every_enrollment_must_be_acceptable(rows, found, n - 1);
        let last = rows[n - 1];
        if entry_fault(rows, found, n - 1) is None {
            assert forall|j: int| 0 <= j < n - 1 implies (#[trigger] rows[j]).tenant@ != last.tenant@
                || rows[j].endpoint_id@ != last.endpoint_id@ && rows[j].url@ != last.url@ by {
                assert(!entries_clash(rows[j], rows[n - 1]));
            }
        } else if entry_form(last) && callback_url::accepted_url(last.url@, found[n - 1]) {
            let j = choose|j: int| 0 <= j < n - 1 && #[trigger] entries_clash(rows[j], rows[n - 1]);
            assert(rows[j].tenant@ == last.tenant@);
        }
    }
}

/// A bad destination is told apart from a bad form, and a policy whose limits are out of bounds
/// is refused before any of its enrollments is looked at.
pub proof fn law_policies_are_refused_for_their_first_fault(
    raw: RawPolicy,
    found: Seq<Option<UrlView>>,
    i: int,
)
    requires
        0 <= i < raw.enrollments@.len(),
        entries_fault(raw.enrollments@, found, i) is None,
    ensures
        !limits_valid(raw) ==> policy_fault(raw, found) == Some(PushSecurityError::InvalidPolicy),
        limits_valid(raw) && !entry_form(raw.enrollments@[i]) ==> policy_fault(raw, found) == Some(
            PushSecurityError::InvalidPolicy,
        ),
        limits_valid(raw) && entry_form(raw.enrollments@[i]) && !callback_url::accepted_url(
            raw.enrollments@[i].url@,
            found[i],
        ) ==> policy_fault(raw, found) == Some(PushSecurityError::InvalidDestination),
{
    if entries_fault(raw.enrollments@, found, i + 1) is Some {
        lemma_entries_prefix(raw.enrollments@, found, i + 1, raw.enrollments@.len() as int);
    }
}

/// Takes the enrollments of a policy, or says why the first bad one is refused.
fn take_enrollments(rows: &Vec<RawEnrollment>, parts: &Vec<Option<UrlParts>>) -> (r: Result<
    Vec<PushEnrollment>,
    PushSecurityError,
>)
    requires
        parts@.len() == rows@.len(),
    ensures
        match r {
            Ok(list) => {
                &&& entries_fault(rows@, parts_views(parts@), rows@.len() as int) is None
                &&& list@.len() == rows@.len()
                &&& forall|i: int| 0 <= i < list@.len() ==> enrolled_as(#[trigger] list@[i]@, rows@[i])
                &&& forall|i: int| 0 <= i < rows@.len() ==> !#[trigger] clashes_before(rows@, i)
            },
            Err(e) => entries_fault(rows@, parts_views(parts@), rows@.len() as int) == Some(e),
        },
{
    let mut list: Vec<PushEnrollment> = Vec::new();
    let ghost found = parts_views(parts@);
    let mut i: usize = 0;
    while i < rows.len()
        invariant
            i <= rows@.len(),
            parts@.len() == rows@.len(),
            found == parts_views(parts@),
            list@.len() == i,
            entries_fault(rows@, found, i as int) is None,
            forall|j: int| 0 <= j < i ==> enrolled_as(#[trigger] list@[j]@, rows@[j]),
            forall|j: int| 0 <= j < i ==> !#[trigger] clashes_before(rows@, j),
        decreases rows@.len() - i,
    {
        let entry = &rows[i];
        if !is_entry_form(entry) {
            proof {
                assert(entries_fault(rows@, found, i + 1) == Some(PushSecurityError::InvalidPolicy));
                lemma_entries_prefix(rows@, found, i + 1, rows@.len() as int);
            }
            return Err(PushSecurityError::InvalidPolicy);
        }
        let url = match callback_url::check_callback_url(entry.url.as_str(), &parts[i]) {
            Ok(url) => url,
            Err(e) => {
                proof {
                    assert(entries_fault(rows@, found, i + 1) == Some(PushSecurityError::InvalidDestination));
                    lemma_entries_prefix(rows@, found, i + 1, rows@.len() as int);
                }
                return Err(e);
            },
        };
        if clashes_with_earlier(rows, i) {
            proof {
                assert(entries_fault(rows@, found, i + 1) == Some(PushSecurityError::InvalidPolicy));
                lemma_entries_prefix(rows@, found, i + 1, rows@.len() as int);
            }
            return Err(PushSecurityError::InvalidPolicy);
        }
        let enrollment = PushEnrollment {
            tenant: entry.tenant.clone(),
            endpoint_id: entry.endpoint_id.clone(),
            url,
            key_generation: entry.key_generation.clone(),
            secret_file: entry.secret_file.clone(),
            ca_file: text::copy_opt_text(&entry.ca_file),
            mtls_cert_file: text::copy_opt_text(&entry.mtls_cert_file),
            mtls_key_file: text::copy_opt_text(&entry.mtls_key_file),
        };
        assert(enrolled_as(enrollment@, rows@[i as int]));
        list.push(enrollment);
        i += 1;
    }
    Ok(list)
}

/// Takes a policy that its file states, given the parts that were found in the URLs of
/// its enrollments.
pub fn check_raw_policy(raw: RawPolicy, parts: &Vec<Option<UrlParts>>) -> (r: Result<PushPolicy, PushSecurityError>)
    requires
        parts@.len() == raw.enrollments@.len(),
    ensures
        match r {
            Ok(p) => policy_fault(raw, parts_views(parts@)) is None && policy_as(p@, raw) && valid_policy(p@),
            Err(e) => policy_fault(raw, parts_views(parts@)) == Some(e),
        },
{
    if !are_limits_valid(&raw) {
        return Err(PushSecurityError::InvalidPolicy);
    }
    let enrollments = match take_enrollments(&raw.enrollments, parts) {
        Ok(list) => list,
        Err(e) => {
            return Err(e);
        },
    };
    proof {
        let rows = raw.enrollments@;
        let list = enrollment_views(enrollments@);
        assert forall|i: int, j: int|
            0 <= i < j < list.len() && (#[trigger] list[i]).tenant == (#[trigger] list[j]).tenant implies list[i].endpoint_id
            != list[j].endpoint_id && list[i].url.canonical != list[j].url.canonical by {
            assert(enrolled_as(enrollments@[i]@, rows[i]));
            assert(enrolled_as(enrollments@[j]@, rows[j]));
            assert(!clashes_before(rows, j));
            assert(!entries_clash(rows[i], rows[j]));
        }
        assert forall|i: int| 0 <= i < list.len() implies enrolled_as(#[trigger] list[i], rows[i]) by {
            assert(enrolled_as(enrollments@[i]@, rows[i]));
        }
    }
    Ok(
        PushPolicy {
            enabled: raw.enabled,
            policy_id: raw.policy_id,
            policy_revision: raw.policy_revision,
            policy_digest: raw.policy_digest,
            max_pending: raw.max_pending,
            max_configs_per_task: raw.max_configs_per_task,
            max_configs_per_tenant: raw.max_configs_per_tenant,
            worker_count: raw.worker_count,
            claim_batch: raw.claim_batch,
            claim_lease_ms: raw.claim_lease_ms,
            dns_timeout_ms: raw.dns_timeout_ms,
            max_dns_answers: raw.max_dns_answers,
            connect_timeout_ms: raw.connect_timeout_ms,
            request_timeout_ms: raw.request_timeout_ms,
            max_response_bytes: raw.max_response_bytes,
            max_attempts: raw.max_attempts,
            base_retry_ms: raw.base_retry_ms,
            max_retry_ms: raw.max_retry_ms,
            max_delivery_age_ms: raw.max_delivery_age_ms,
            enrollments,
        },
    )
}

/// Takes a policy that its file states.
pub fn validate_raw_policy(raw: RawPolicy) -> (r: Result<PushPolicy, PushSecurityError>)
    ensures
        match r {
            Ok(p) => policy_fault(raw, urls_found(raw.enrollments@)) is None && policy_as(p@, raw) && valid_policy(
                p@,
            ),
            Err(e) => policy_fault(raw, urls_found(raw.enrollments@)) == Some(e),
        },
{
    let mut parts: Vec<Option<UrlParts>> = Vec::new();
    let mut i: usize = 0;
    while i < raw.enrollments.len()
        invariant
            i <= raw.enrollments@.len(),
            parts@.len() == i,
            forall|j: int|
                0 <= j < i ==> (#[trigger] parts_views(parts@)[j]) == weburl::url_parsed(raw.enrollments@[j].url@),
        decreases raw.enrollments@.len() - i,
    {
        let ghost before = parts@;
        let found = weburl::parse_url(raw.enrollments[i].url.as_str());
        parts.push(found);
        proof {
            assert forall|j: int| 0 <= j < i + 1 implies (#[trigger] parts_views(parts@)[j]) == weburl::url_parsed(
                raw.enrollments@[j].url@,
            ) by {
                if j < i {
                    assert(parts_views(before)[j] == weburl::url_parsed(raw.enrollments@[j].url@));
                    assert(parts@[j] == before[j]);
                }
            }
        }
        i += 1;
    }
    assert(parts_views(parts@) =~= urls_found(raw.enrollments@));
    check_raw_policy(raw, &parts)
}

/// A policy is acted on as its file states it: every number and name, and one enrollment for each
/// that the file has, with its tenant, its endpoint, its destination and its files.
pub proof fn law_policies_are_what_their_files_state(p: PolicyView, raw: RawPolicy, i: int)
    requires
        policy_as(p, raw),
        0 <= i < raw.enrollments@.len(),
    ensures
        p.enabled == raw.enabled,
        p.policy_id == raw.policy_id@,
        p.policy_revision == raw.policy_revision,
        p.policy_digest == raw.policy_digest@,
        p.max_pending == raw.max_pending,
        p.max_configs_per_task == raw.max_configs_per_task,
        p.max_configs_per_tenant == raw.max_configs_per_tenant,
        p.worker_count == raw.worker_count,
        p.claim_batch == raw.claim_batch,
        p.claim_lease_ms == raw.claim_lease_ms,
        p.dns_timeout_ms == raw.dns_timeout_ms,
        p.max_dns_answers == raw.max_dns_answers,
        p.connect_timeout_ms == raw.connect_timeout_ms,
        p.request_timeout_ms == raw.request_timeout_ms,
        p.max_response_bytes == raw.max_response_bytes,
        schedule_of(p).max_attempts == raw.max_attempts,
        schedule_of(p).base_ms == raw.base_retry_ms,
        schedule_of(p).max_ms == raw.max_retry_ms,
        schedule_of(p).max_age_ms == raw.max_delivery_age_ms,
        p.enrollments.len() == raw.enrollments@.len(),
        p.enrollments[i].tenant == raw.enrollments@[i].tenant@,
        p.enrollments[i].endpoint_id == raw.enrollments@[i].endpoint_id@,
        p.enrollments[i].url.canonical == raw.enrollments@[i].url@,
        p.enrollments[i].key_generation == raw.enrollments@[i].key_generation@,
        p.enrollments[i].secret_file == raw.enrollments@[i].secret_file@,
        p.enrollments[i].ca_file is Some <==> raw.enrollments@[i].ca_file is Some,
        p.enrollments[i].mtls_cert_file is Some <==> raw.enrollments@[i].mtls_cert_file is Some,
        p.enrollments[i].mtls_key_file is Some <==> raw.enrollments@[i].mtls_key_file is Some,
        raw.enrollments@[i].ca_file is Some ==> p.enrollments[i].ca_file->0 == raw.enrollments@[i].ca_file->0@,
        raw.enrollments@[i].mtls_cert_file is Some ==> p.enrollments[i].mtls_cert_file->0
            == raw.enrollments@[i].mtls_cert_file->0@,
        raw.enrollments@[i].mtls_key_file is Some ==> p.enrollments[i].mtls_key_file->0
            == raw.enrollments@[i].mtls_key_file->0@,
{
    assert(enrolled_as(p.enrollments[i], raw.enrollments@[i]));
}

/// An enrollment is served only with a secret of 32 to 4096 bytes, with at least one trusted root
/// where it names a file of them, and with certificates and exactly one key that make an identity
/// where it names both files of one. What it does not name is not asked for.
pub proof fn law_served_enrollments_have_their_material(e: EnrollmentView, m: EnrollmentMaterial)
    ensures
        material_usable(e, m) ==> {
            &&& m.secret is Some
            &&& 32 <= m.secret->0@.len() <= 4096
            &&& e.ca_file is Some ==> m.ca is Some && certificates_of(m.ca->0@) is Some && certificates_of(
                m.ca->0@,
            )->0.len() >= 1
            &&& e.mtls_cert_file is Some && e.mtls_key_file is Some ==> m.mtls_cert is Some && m.mtls_key is Some
                && certificates_of(m.mtls_cert->0@) is Some && certificates_of(m.mtls_cert->0@)->0.len() >= 1
                && private_keys_of(m.mtls_key->0@) is Some && private_keys_of(m.mtls_key->0@)->0.len() == 1
                && identity_of(m.mtls_cert->0@ + m.mtls_key->0@)
        },
        m.secret is Some && 32 <= m.secret->0@.len() <= 4096 && e.ca_file is None && (e.mtls_cert_file is None
            || e.mtls_key_file is None) ==> material_usable(e, m),
        m.secret is Some && 32 <= m.secret->0@.len() <= 4096 && e.ca_file is Some && m.ca is Some && certificates_of(
            m.ca->0@,
        ) is Some && certificates_of(m.ca->0@)->0.len() >= 1 && e.mtls_cert_file is None ==> material_usable(e, m),
{
}

/// A policy file is read where it has between one byte and a quarter of a mebibyte, and is
/// refused where it has none, has more, or cannot be understood.
pub proof fn law_policy_files_are_bounded(size: nat, raw: Option<RawPolicy>, found: Seq<Option<UrlView>>)
    ensures
        size == 0 || size > 256 * 1024 || raw is None ==> file_fault(size, raw, found) == Some(
            PushSecurityError::InvalidPolicy,
        ),
        1 <= size <= 256 * 1024 && raw is Some ==> file_fault(size, raw, found) == policy_fault(raw->0, found),
{
}

/// A policy that is served asks one to 32 answers of a lookup, runs one to 64 workers, enrolls
/// somebody where it is on, nobody twice, and sends to canonical destinations alone.
pub proof fn law_served_policies_are_sound(p: PolicyView, i: int)
    ensures
        valid_policy(p) ==> 1 <= p.max_dns_answers && p.max_dns_answers <= 32 && 1 <= p.worker_count && p.worker_count <= 64
            && (p.enabled ==> p.enrollments.len() >= 1) && retry::valid_bounds(schedule_of(p)) && enrollments_distinct(
            p.enrollments,
        ),
        valid_policy(p) && 0 <= i < p.enrollments.len() ==> callback_url::canonical_url(p.enrollments[i].url),
        p.enrollments.len() == 0 && !p.enabled && 1 <= p.max_dns_answers <= 32 && 1 <= p.worker_count <= 64
            && retry::valid_bounds(schedule_of(p)) ==> valid_policy(p),
        p.enrollments.len() == 0 && p.enabled ==> !valid_policy(p),
{
}

/// The secret of an enrollment has between 32 and 4096 bytes, an authority that it names has a
/// certificate, and an identity that it names has certificates, one key and fits together.
pub proof fn law_enrolled_material_is_complete(e: EnrollmentView, f: MaterialFindings)
    ensures
        findings_usable(e, f) ==> f.secret_bytes is Some && 32 <= f.secret_bytes->0 && f.secret_bytes->0 <= 4096,
        findings_usable(e, f) && e.ca_file is Some ==> f.ca_certificates is Some && f.ca_certificates->0 >= 1,
        findings_usable(e, f) && e.mtls_cert_file is Some && e.mtls_key_file is Some ==> f.client_certificates is Some
            && f.client_certificates->0 >= 1 && f.client_keys is Some && f.client_keys->0 == 1 && f.identity,
        f.secret_bytes is Some && 32 <= f.secret_bytes->0 <= 4096 && e.ca_file is None && (e.mtls_cert_file is None
            || e.mtls_key_file is None) ==> findings_usable(e, f),
        f.secret_bytes is Some && 32 <= f.secret_bytes->0 <= 4096 && f.ca_certificates is Some && f.ca_certificates->0
            >= 1 && f.client_certificates is Some && f.client_certificates->0 >= 1 && f.client_keys == Some(1usize)
            && f.identity ==> findings_usable(e, f),
{
}

/// A destination is enrolled for one tenant, under one endpoint and at one address.
pub proof fn law_enrollments_are_for_one_destination(
    e: EnrollmentView,
    tenant: Seq<char>,
    endpoint_id: Seq<char>,
    url: Seq<char>,
)
    ensures
        enrolled_for(e, e.tenant, e.endpoint_id, e.url.canonical),
        tenant != e.tenant ==> !enrolled_for(e, tenant, endpoint_id, url),
        endpoint_id != e.endpoint_id ==> !enrolled_for(e, tenant, endpoint_id, url),
        url != e.url.canonical ==> !enrolled_for(e, tenant, endpoint_id, url),
{
}

/// A policy file that is too large, or that does not hold a policy, is no policy.
pub proof fn law_unreadable_files_are_no_policy(size: nat, raw: Option<RawPolicy>, found: Seq<Option<UrlView>>)
    ensures
        raw is None ==> file_fault(size, raw, found) == Some(PushSecurityError::InvalidPolicy),
        !policy_size_valid(size) ==> file_fault(size, raw, found) == Some(PushSecurityError::InvalidPolicy),
        policy_size_valid(size) && raw is Some ==> file_fault(size, raw, found) == policy_fault(raw->0, found),
{
}

} // verus!
