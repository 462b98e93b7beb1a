//! Callback configurations, their pages, and the state of deliveries.

use vstd::prelude::*;
use vstd::utf8::*;

use crate::crypto;
use crate::fault::Fault;
use crate::task;
use crate::task::Task;
use crate::text;

verus! {

/// The character between the fields of a page token.
pub const FIELD_SEPARATOR: char = '\u{1f}';

/// The state of a callback configuration.
#[derive(Clone, Copy, Debug, PartialEq, Eq, Structural)]
pub enum CallbackConfigState {
    Active,
    Draining,
    Revoked,
    TerminalClosed,
}

/// The stored text of a configuration's state.
pub open spec fn config_state_text(s: CallbackConfigState) -> Seq<char> {
    match s {
        CallbackConfigState::Active => "active"@,
        CallbackConfigState::Draining => "draining"@,
        CallbackConfigState::Revoked => "revoked"@,
        CallbackConfigState::TerminalClosed => "terminal_closed"@,
    }
}

/// A configuration's states are stored as texts of their own, each readable back as the state
/// that it stands for.
pub proof fn law_config_states_have_their_own_texts(a: CallbackConfigState, b: CallbackConfigState)
    ensures
        config_state_text(a) == config_state_text(b) <==> a == b,
        config_state_text(CallbackConfigState::Active).len() == 6,
        config_state_text(CallbackConfigState::Draining).len() == 8,
        config_state_text(CallbackConfigState::Revoked).len() == 7,
        config_state_text(CallbackConfigState::TerminalClosed).len() == 15,
{
    reveal_strlit("active");
    reveal_strlit("draining");
    reveal_strlit("revoked");
    reveal_strlit("terminal_closed");
    assert("active"@.len() == 6);
    assert("draining"@.len() == 8);
    assert("revoked"@.len() == 7);
    assert("terminal_closed"@.len() == 15);
}

/// Reads the stored text of a configuration's state.
pub fn config_state_from_str(value: &str) -> (r: Option<CallbackConfigState>)
    ensures
        match r {
            Some(s) => value@ == config_state_text(s),
            None => forall|s: CallbackConfigState| value@ != #[trigger] config_state_text(s),
        },
{
    if text::same_text(value, "active") {
        Some(CallbackConfigState::Active)
    } else if text::same_text(value, "draining") {
        Some(CallbackConfigState::Draining)
    } else if text::same_text(value, "revoked") {
        Some(CallbackConfigState::Revoked)
    } else if text::same_text(value, "terminal_closed") {
        Some(CallbackConfigState::TerminalClosed)
    } else {
        None
    }
}

/// A callback configuration on record.
pub struct ConfigRow {
    pub config_id: String,
    pub enrollment_id: String,
    pub enrollment_generation: i64,
    pub canonical_url: String,
    pub url_digest: String,
    pub state: String,
    pub created_at: i64,
}

/// A callback configuration.
pub struct CallbackConfig {
    pub tenant_scope: String,
    pub task_id: String,
    pub config_id: String,
    pub enrollment_id: String,
    pub enrollment_generation: u64,
    pub canonical_url: String,
    pub url_digest: String,
    pub state: CallbackConfigState,
    pub created_at: i64,
}

/// Whether a text names a state.
pub open spec fn names_state(value: Seq<char>) -> bool {
    exists|s: CallbackConfigState| value == #[trigger] config_state_text(s)
}

/// Why a configuration on record cannot be read.
pub open spec fn config_fault(row: ConfigRow) -> Option<Fault> {
    if !names_state(row.state@) {
        Some(Fault::CallbackConfigStateCorrupt)
    } else if row.enrollment_generation < 0 {
        Some(Fault::CallbackEnrollmentCorrupt)
    } else {
        None
    }
}

/// Whether a configuration is the one on record.
pub open spec fn config_of(c: CallbackConfig, row: ConfigRow, tenant: Seq<char>, task_id: Seq<char>) -> bool {
    &&& c.tenant_scope@ == tenant
    &&& c.task_id@ == task_id
    &&& c.config_id@ == row.config_id@
    &&& c.enrollment_id@ == row.enrollment_id@
    &&& c.enrollment_generation == row.enrollment_generation
    &&& c.canonical_url@ == row.canonical_url@
    &&& c.url_digest@ == row.url_digest@
    &&& config_state_text(c.state) == row.state@
    &&& c.created_at == row.created_at
}

/// A configuration on record is read exactly where its state has a name and its enrollment's
/// generation can be counted, and is then shown as it stands under the tenant and the task that
/// were asked for.
pub proof fn law_configurations_are_read_as_stored(
    c: CallbackConfig,
    row: ConfigRow,
    tenant: Seq<char>,
    task_id: Seq<char>,
)
    ensures
        (exists|s: CallbackConfigState| row.state@ == #[trigger] config_state_text(s)) && row.enrollment_generation >= 0
            <==> config_fault(row) is None,
        !(exists|s: CallbackConfigState| row.state@ == #[trigger] config_state_text(s)) ==> config_fault(row) == Some(
            Fault::CallbackConfigStateCorrupt,
        ),
        config_fault(row) == Some(Fault::CallbackEnrollmentCorrupt) ==> row.enrollment_generation < 0,
        (exists|s: CallbackConfigState| row.state@ == #[trigger] config_state_text(s)) && row.enrollment_generation < 0
            ==> config_fault(row) == Some(Fault::CallbackEnrollmentCorrupt),
        config_of(c, row, tenant, task_id) ==> {
            &&& c.tenant_scope@ == tenant
            &&& c.task_id@ == task_id
            &&& c.config_id@ == row.config_id@
            &&& c.enrollment_id@ == row.enrollment_id@
            &&& c.enrollment_generation == row.enrollment_generation
            &&& c.canonical_url@ == row.canonical_url@
            &&& c.url_digest@ == row.url_digest@
            &&& c.created_at == row.created_at
            &&& forall|s: CallbackConfigState| row.state@ == #[trigger] config_state_text(s) ==> c.state == s
        },
{
    if config_of(c, row, tenant, task_id) {
        assert forall|s: CallbackConfigState| row.state@ == #[trigger] config_state_text(s) implies c.state == s by {
            law_config_states_have_their_own_texts(c.state, s);
        }
    }
}

/// Reads a configuration on record.
pub fn postgres_callback_config(row: &ConfigRow, tenant: &str, task_id: &str) -> (r: Result<CallbackConfig, Fault>)
    ensures
        match r {
            Ok(c) => config_fault(*row) is None && config_of(c, *row, tenant@, task_id@),
            Err(e) => config_fault(*row) == Some(e),
        },
{
    let state = match config_state_from_str(row.state.as_str()) {
        Some(state) => state,
        None => {
            return Err(Fault::CallbackConfigStateCorrupt);
        },
    };
    assert(row.state@ == config_state_text(state));
    if row.enrollment_generation < 0 {
        return Err(Fault::CallbackEnrollmentCorrupt);
    }
    Ok(
        CallbackConfig {
            tenant_scope: tenant.to_owned(),
            task_id: task_id.to_owned(),
            config_id: row.config_id.clone(),
            enrollment_id: row.enrollment_id.clone(),
            enrollment_generation: row.enrollment_generation as u64,
            canonical_url: row.canonical_url.clone(),
            url_digest: row.url_digest.clone(),
            state,
            created_at: row.created_at,
        },
    )
}

/// What a page token carries: the version, the tenant, the task, and where the page
/// starts.
pub open spec fn token_payload_of(tenant: Seq<char>, task_id: Seq<char>, created: i64, id: Seq<char>) -> Seq<char> {
    "1"@.push(FIELD_SEPARATOR) + (tenant.push(FIELD_SEPARATOR) + (task_id.push(FIELD_SEPARATOR) + (
    text::signed_decimal(created as int).push(FIELD_SEPARATOR) + id)))
}

/// The bytes that authenticate a page token's payload.
pub open spec fn token_input(payload: Seq<u8>) -> Seq<u8> {
    text::utf8("smesh-callback-page-v1\0"@) + payload
}

/// The page token for a payload: the payload and its tag.
pub open spec fn token_of(key: Seq<u8>, payload: Seq<char>) -> Seq<char> {
    crypto::base64url_of(text::utf8(payload)) + "."@ + crypto::base64url_of(
        crypto::hmac_sha256_of(key, token_input(text::utf8(payload))),
    )
}

/// Where a page starts: after the configuration of this time and id.
pub struct PageStart {
    pub created_at: i64,
    pub config_id: String,
}

/// Where the page starts that a payload names for a task, or nothing where it is
/// not such a payload.
pub open spec fn payload_meaning(payload: Seq<char>, tenant: Seq<char>, task_id: Seq<char>) -> Option<
    (int, Seq<char>),
> {
    let f = text::fields(payload, FIELD_SEPARATOR);
    if f.len() == 5 && f[0] == "1"@ && f[1] == tenant && f[2] == task_id && text::signed_value(text::utf8(f[3])) is Some
        && f[4].len() > 0 {
        Some((text::signed_value(text::utf8(f[3]))->0, f[4]))
    } else {
        None
    }
}

/// The payload that a token's parts authenticate under a key. The parts are decoded;
/// one is absent where its text cannot be.
pub open spec fn authentic_payload(key: Seq<u8>, payload: Option<Seq<u8>>, tag: Option<Seq<u8>>) -> Option<Seq<char>> {
    if payload is Some && tag is Some && tag->0 == crypto::hmac_sha256_of(key, token_input(payload->0)) && valid_utf8(
        payload->0,
    ) {
        Some(decode_utf8(payload->0))
    } else {
        None
    }
}

/// A page token names one task of one tenant: no payload is read for two of them, and what is
/// read is a time and an id that is not empty.
pub proof fn law_page_tokens_name_one_task(
    payload: Seq<char>,
    tenant: Seq<char>,
    task_id: Seq<char>,
    other_tenant: Seq<char>,
    other_task: Seq<char>,
)
    requires
        payload_meaning(payload, tenant, task_id) is Some,
    ensures
        payload_meaning(payload, other_tenant, other_task) is Some <==> other_tenant == tenant && other_task == task_id,
        payload_meaning(payload, tenant, task_id) matches Some((at, id)) && id.len() > 0,
{
}

/// A token is taken for authentic only under the key that its tag was made with, over the very
/// payload that it carries.
pub proof fn law_page_tokens_are_authentic(key: Seq<u8>, payload: Option<Seq<u8>>, tag: Option<Seq<u8>>)
    ensures
        authentic_payload(key, payload, tag) is Some ==> payload is Some && tag is Some && tag->0
            == crypto::hmac_sha256_of(key, text::utf8("smesh-callback-page-v1\0"@) + payload->0),
        payload is Some && valid_utf8(payload->0) && tag == Some(
            crypto::hmac_sha256_of(key, text::utf8("smesh-callback-page-v1\0"@) + payload->0),
        ) ==> authentic_payload(key, payload, tag) == Some(decode_utf8(payload->0)),
{
}

/// Where the page starts that a token names for a task.
pub open spec fn token_meaning(key: Seq<u8>, token: Seq<char>, tenant: Seq<char>, task_id: Seq<char>) -> Option<
    (int, Seq<char>),
> {
    match text::first_at(token, '.') {
        None => None,
        Some(i) => match authentic_payload(
            key,
            crypto::base64url_decoded(token.subrange(0, i)),
            crypto::base64url_decoded(token.subrange(i + 1, token.len() as int)),
        ) {
            None => None,
            Some(payload) => payload_meaning(payload, tenant, task_id),
        },
    }
}

/// Whether a text has no separator in it.
pub open spec fn is_plain_field(s: Seq<char>) -> bool {
    !s.contains(FIELD_SEPARATOR)
}

proof fn lemma_payload_reads_back(tenant: Seq<char>, task_id: Seq<char>, created: i64, id: Seq<char>)
    requires
        is_plain_field(tenant),
        is_plain_field(task_id),
        is_plain_field(id),
        id.len() > 0,
    ensures
        payload_meaning(token_payload_of(tenant, task_id, created, id), tenant, task_id) == Some((created as int, id)),
{
    let sep = FIELD_SEPARATOR;
    let number = text::signed_decimal(created as int);
    reveal_strlit("1");
    text::lemma_signed_decimal(created);
    assert forall|i: int| 0 <= i < number.len() implies number[i] != sep by {
        let b = text::signed_decimal_bytes(created as int)[i];
        assert(number[i] == b as char);
        assert(text::is_digit_byte(b) || b == 45);
    }
    assert(is_plain_field(number));
    assert(is_plain_field("1"@));
    let d = number.push(sep) + id;
    let c = task_id.push(sep) + d;
    let b = tenant.push(sep) + c;
    let a = "1"@.push(sep) + b;
    text::lemma_fields_concat(number, sep, id);
    text::lemma_fields_concat(task_id, sep, d);
    text::lemma_fields_concat(tenant, sep, c);
    text::lemma_fields_concat("1"@, sep, b);
    text::lemma_single_field(number, sep);
    text::lemma_single_field(id, sep);
    text::lemma_single_field(task_id, sep);
    text::lemma_single_field(tenant, sep);
    text::lemma_single_field("1"@, sep);
    assert(text::fields(a, sep) =~= seq!["1"@, tenant, task_id, number, id]);
}

/// Makes the token of the page that follows a configuration. It reads back as that
/// page for the same tenant and task.
pub fn postgres_callback_token(key: &[u8; 32], tenant: &str, task_id: &str, created: i64, id: &str) -> (r: String)
    ensures
        r@ == token_of(key@, token_payload_of(tenant@, task_id@, created, id@)),
        is_plain_field(tenant@) && is_plain_field(task_id@) && is_plain_field(id@) && id@.len() > 0 ==> token_meaning(
            key@,
            r@,
            tenant@,
            task_id@,
        ) == Some((created as int, id@)),
{
    let mut payload = "1".to_owned();
    payload.push(FIELD_SEPARATOR);
    payload.append(tenant);
    payload.push(FIELD_SEPARATOR);
    payload.append(task_id);
    payload.push(FIELD_SEPARATOR);
    payload.append(text::signed_decimal_text(created).as_str());
    payload.push(FIELD_SEPARATOR);
    payload.append(id);
    assert(payload@ =~= token_payload_of(tenant@, task_id@, created, id@));
    let mut input = text::copy_bytes("smesh-callback-page-v1\0".as_bytes());
    text::push_bytes(&mut input, payload.as_str().as_bytes());
    let tag: [u8; 32] = crypto::hmac_sha256(key.as_slice(), input.as_slice());
    let head = crypto::base64url(payload.as_str().as_bytes());
    let tail = crypto::base64url(tag.as_slice());
    let mut token = head.clone();
    token.append(".");
    token.append(tail.as_str());
    proof {
        reveal_strlit(".");
        assert(token@ == token_of(key@, payload@));
        text::lemma_first_at(token@, '.');
        let n = head@.len() as int;
        assert(token@[n] == '.');
        assert forall|i: int| 0 <= i < n implies token@[i] != '.' by {
            assert(token@[i] == head@[i]);
            assert(crypto::is_base64url_char(head@[i]));
        }
        let k = text::first_at(token@, '.')->0;
        assert(k == n) by {
            if k < n {
                assert(token@[k] != '.');
            }
            if n < k {
                assert(token@[n] != '.');
            }
        }
        assert(token@.subrange(0, n) =~= head@);
        assert(token@.subrange(n + 1, token@.len() as int) =~= tail@);
        encode_utf8_valid_utf8(payload@);
        encode_utf8_decode_utf8(payload@);
        if is_plain_field(tenant@) && is_plain_field(task_id@) && is_plain_field(id@) && id@.len() > 0 {
            lemma_payload_reads_back(tenant@, task_id@, created, id@);
        }
    }
    token
}

/// Reads the fields of an authentic payload.
pub fn read_callback_payload(payload: &str, tenant: &str, task_id: &str) -> (r: Result<PageStart, Fault>)
    ensures
        match r {
            Ok(start) => payload_meaning(payload@, tenant@, task_id@) == Some((start.created_at as int, start.config_id@)),
            Err(e) => e == Fault::InvalidCallbackPageToken && payload_meaning(payload@, tenant@, task_id@) is None,
        },
{
    let parts = text::split_fields(payload, FIELD_SEPARATOR);
    let ghost f = text::fields(payload@, FIELD_SEPARATOR);
    assert(f.len() == parts@.len());
    if parts.len() != 5 {
        return Err(Fault::InvalidCallbackPageToken);
    }
    assert forall|i: int| 0 <= i < 5 implies f[i] == parts@[i]@ by {}
    if !text::same_text(parts[0].as_str(), "1") || !text::same_text(parts[1].as_str(), tenant) || !text::same_text(
        parts[2].as_str(),
        task_id,
    ) {
        return Err(Fault::InvalidCallbackPageToken);
    }
    match text::parse_signed(parts[3].as_str().as_bytes()) {
        None => Err(Fault::InvalidCallbackPageToken),
        Some(created_at) => {
            if parts[4].as_str().is_empty() {
                return Err(Fault::InvalidCallbackPageToken);
            }
            Ok(PageStart { created_at, config_id: parts[4].clone() })
        },
    }
}

/// Checks the decoded parts of a token and reads its payload.
pub fn read_callback_parts(
    key: &[u8; 32],
    payload: Option<Vec<u8>>,
    tag: Option<Vec<u8>>,
    tenant: &str,
    task_id: &str,
) -> (r: Result<PageStart, Fault>)
    ensures
        ({
            let decoded = authentic_payload(
                key@,
                match payload {
                    Some(p) => Some(p@),
                    None => None,
                },
                match tag {
                    Some(t) => Some(t@),
                    None => None,
                },
            );
            match r {
                Ok(start) => decoded is Some && payload_meaning(decoded->0, tenant@, task_id@) == Some(
                    (start.created_at as int, start.config_id@),
                ),
                Err(e) => e == Fault::InvalidCallbackPageToken && (decoded is None || payload_meaning(
                    decoded->0,
                    tenant@,
                    task_id@,
                ) is None),
            }
        }),
{
    let bytes = match payload {
        Some(bytes) => bytes,
        None => {
            return Err(Fault::InvalidCallbackPageToken);
        },
    };
    let supplied = match tag {
        Some(supplied) => supplied,
        None => {
            return Err(Fault::InvalidCallbackPageToken);
        },
    };
    let mut input = text::copy_bytes("smesh-callback-page-v1\0".as_bytes());
    text::push_bytes(&mut input, bytes.as_slice());
    if !crypto::hmac_sha256_accepts(key.as_slice(), input.as_slice(), supplied.as_slice()) {
        return Err(Fault::InvalidCallbackPageToken);
    }
    match crypto::text_of_bytes(bytes) {
        None => Err(Fault::InvalidCallbackPageToken),
        Some(decoded) => read_callback_payload(decoded.as_str(), tenant, task_id),
    }
}

/// Reads a page token for a task.
pub fn parse_postgres_callback_token(key: &[u8; 32], token: &str, tenant: &str, task_id: &str) -> (r: Result<
    PageStart,
    Fault,
>)
    ensures
        match r {
            Ok(start) => token_meaning(key@, token@, tenant@, task_id@) == Some(
                (start.created_at as int, start.config_id@),
            ),
            Err(e) => e == Fault::InvalidCallbackPageToken && token_meaning(key@, token@, tenant@, task_id@) is None,
        },
{
    match text::split_first(token, '.') {
        None => Err(Fault::InvalidCallbackPageToken),
        Some((head, tail)) => {
            let payload = crypto::base64url_decode(head.as_str());
            let tag = crypto::base64url_decode(tail.as_str());
            read_callback_parts(key, payload, tag, tenant, task_id)
        },
    }
}

/// What a callback policy allows.
#[derive(Clone, Copy, Debug, PartialEq, Eq, Structural)]
pub struct CallbackLimits {
    pub policy_revision: u64,
    pub max_configs_per_task: u16,
    pub max_configs_per_tenant: u32,
}

/// A request to register a callback.
pub struct ConfigCreateCommand {
    pub enrollment_id: String,
    pub enrollment_generation: u64,
    pub canonical_url: String,
    pub url_digest: String,
}

/// What is on record when a callback is registered.
pub struct CreateInputs {
    pub task_open: bool,
    pub enrolled: bool,
    pub existing: Option<ConfigRow>,
    pub tenant_configs: i64,
    pub task_configs: i64,
}

/// Whether a configuration on record was made by the same request.
pub open spec fn same_request(row: ConfigRow, c: ConfigCreateCommand) -> bool {
    row.enrollment_id@ == c.enrollment_id@ && row.enrollment_generation == c.enrollment_generation && row.canonical_url@
        == c.canonical_url@ && row.url_digest@ == c.url_digest@
}

/// Why a callback cannot be registered. A policy that is off allows none.
pub open spec fn create_fault(limits: Option<CallbackLimits>, c: ConfigCreateCommand, i: CreateInputs) -> Option<
    Fault,
> {
    if limits is None {
        Some(Fault::PushNotificationNotSupported)
    } else if c.enrollment_generation > i64::MAX {
        Some(Fault::InvalidCallbackGeneration)
    } else if limits->0.policy_revision > i64::MAX {
        Some(Fault::CallbackPolicyCorrupt)
    } else if !i.task_open {
        Some(Fault::TaskNotFound)
    } else if !i.enrolled {
        Some(Fault::CallbackEnrollmentNotAuthorized)
    } else if i.existing is Some {
        if same_request(i.existing->0, c) {
            config_fault(i.existing->0)
        } else {
            Some(Fault::CallbackConfigConflict)
        }
    } else if i.tenant_configs >= limits->0.max_configs_per_tenant {
        Some(Fault::CallbackTenantCapacity)
    } else if i.task_configs >= limits->0.max_configs_per_task {
        Some(Fault::CallbackConfigCapacity)
    } else {
        None
    }
}

/// A callback is registered exactly where callbacks are on, its numbers can be stored, its task
/// is open and its enrollment is authorized; a first registration needs room with the tenant and
/// with the task, and one that is on record must be of the same request.
pub proof fn law_callbacks_are_registered_where_there_is_room(
    limits: Option<CallbackLimits>,
    c: ConfigCreateCommand,
    i: CreateInputs,
)
    ensures
        limits is None ==> create_fault(limits, c, i) == Some(Fault::PushNotificationNotSupported),
        limits is Some && c.enrollment_generation <= i64::MAX && limits->0.policy_revision <= i64::MAX && !i.task_open
            ==> create_fault(limits, c, i) == Some(Fault::TaskNotFound),
        limits is Some && c.enrollment_generation <= i64::MAX && limits->0.policy_revision <= i64::MAX && i.task_open
            && !i.enrolled ==> create_fault(limits, c, i) == Some(Fault::CallbackEnrollmentNotAuthorized),
        i.existing is None ==> (create_fault(limits, c, i) is None <==> limits is Some && c.enrollment_generation
            <= i64::MAX && limits->0.policy_revision <= i64::MAX && i.task_open && i.enrolled && i.tenant_configs
            < limits->0.max_configs_per_tenant && i.task_configs < limits->0.max_configs_per_task),
        i.existing is Some && create_fault(limits, c, i) is None ==> {
            &&& i.existing->0.enrollment_id@ == c.enrollment_id@
            &&& i.existing->0.enrollment_generation == c.enrollment_generation
            &&& i.existing->0.canonical_url@ == c.canonical_url@
            &&& i.existing->0.url_digest@ == c.url_digest@
            &&& config_fault(i.existing->0) is None
        },
        limits is Some && c.enrollment_generation <= i64::MAX && limits->0.policy_revision <= i64::MAX && i.task_open
            && i.enrolled && i.existing is Some && (i.existing->0.enrollment_id@ != c.enrollment_id@
            || i.existing->0.enrollment_generation != c.enrollment_generation || i.existing->0.canonical_url@
            != c.canonical_url@ || i.existing->0.url_digest@ != c.url_digest@) ==> create_fault(limits, c, i) == Some(
            Fault::CallbackConfigConflict,
        ),
        create_fault(limits, c, i) == Some(Fault::CallbackTenantCapacity) ==> i.tenant_configs
            >= limits->0.max_configs_per_tenant,
        create_fault(limits, c, i) == Some(Fault::CallbackConfigCapacity) ==> i.task_configs
            >= limits->0.max_configs_per_task && i.tenant_configs < limits->0.max_configs_per_tenant,
{
}

/// What registering a callback does.
pub enum CreateStep {
    /// The same request was made before; its configuration is handed back.
    Existing(CallbackConfig),
    /// The configuration is written.
    Insert,
}

/// Decides what registering a callback does.
pub fn create_callback_config(
    limits: &Option<CallbackLimits>,
    c: &ConfigCreateCommand,
    i: &CreateInputs,
    tenant: &str,
    task_id: &str,
) -> (r: Result<CreateStep, Fault>)
    ensures
        match r {
            Err(e) => create_fault(*limits, *c, *i) == Some(e),
            Ok(CreateStep::Insert) => create_fault(*limits, *c, *i) is None && i.existing is None,
            Ok(CreateStep::Existing(config)) => create_fault(*limits, *c, *i) is None && i.existing is Some && config_of(
                config,
                i.existing->0,
                tenant@,
                task_id@,
            ),
        },
{
    let limits = match limits {
        Some(limits) => limits,
        None => {
            return Err(Fault::PushNotificationNotSupported);
        },
    };
    if c.enrollment_generation > 0x7fff_ffff_ffff_ffff {
        return Err(Fault::InvalidCallbackGeneration);
    }
    if limits.policy_revision > 0x7fff_ffff_ffff_ffff {
        return Err(Fault::CallbackPolicyCorrupt);
    }
    if !i.task_open {
        return Err(Fault::TaskNotFound);
    }
    if !i.enrolled {
        return Err(Fault::CallbackEnrollmentNotAuthorized);
    }
    match &i.existing {
        Some(row) => {
            if row.enrollment_id != c.enrollment_id || row.enrollment_generation != c.enrollment_generation as i64
                || row.canonical_url != c.canonical_url || row.url_digest != c.url_digest {
                return Err(Fault::CallbackConfigConflict);
            }
            match postgres_callback_config(row, tenant, task_id) {
                Ok(config) => Ok(CreateStep::Existing(config)),
                Err(e) => Err(e),
            }
        },
        None => {
            if i.tenant_configs >= limits.max_configs_per_tenant as i64 {
                return Err(Fault::CallbackTenantCapacity);
            }
            if i.task_configs >= limits.max_configs_per_task as i64 {
                return Err(Fault::CallbackConfigCapacity);
            }
            Ok(CreateStep::Insert)
        },
    }
}

/// Registering a callback again is answered by the configuration that is on record,
/// however full the tenant is.
pub proof fn law_registration_is_idempotent(
    limits: CallbackLimits,
    c: ConfigCreateCommand,
    i: CreateInputs,
    more: CreateInputs,
)
    requires
        i.existing is Some,
        create_fault(Some(limits), c, i) is None,
        more.existing == i.existing,
        more.task_open,
        more.enrolled,
    ensures
        create_fault(Some(limits), c, more) is None,
{
}

/// Reads one configuration where callbacks are on.
pub fn get_callback_config(
    enabled: bool,
    row: &Option<ConfigRow>,
    tenant: &str,
    task_id: &str,
) -> (r: Result<Option<CallbackConfig>, Fault>)
    ensures
        if !enabled {
            r == Err::<Option<CallbackConfig>, Fault>(Fault::PushNotificationNotSupported)
        } else {
            match *row {
                None => r == Ok::<Option<CallbackConfig>, Fault>(None),
                Some(found) => match r {
                    Ok(Some(c)) => config_fault(found) is None && config_of(c, found, tenant@, task_id@),
                    Ok(None) => false,
                    Err(e) => config_fault(found) == Some(e),
                },
            }
        },
        r is Ok ==> enabled,
        r matches Ok(found) ==> (found is Some <==> row is Some),
        !enabled ==> r is Err,
{
    if !enabled {
        return Err(Fault::PushNotificationNotSupported);
    }
    match row {
        None => Ok(None),
        Some(found) => match postgres_callback_config(found, tenant, task_id) {
            Ok(c) => Ok(Some(c)),
            Err(e) => Err(e),
        },
    }
}

/// A page of configurations.
pub struct CallbackConfigPage {
    pub configs: Vec<CallbackConfig>,
    pub next_token: Option<String>,
}

/// How many rows a page shows.
pub open spec fn page_len(rows: int, limit: int) -> int {
    if rows <= limit {
        rows
    } else {
        limit
    }
}

/// The fault of the first row that cannot be read.
pub open spec fn rows_fault(rows: Seq<ConfigRow>) -> Option<Fault>
    decreases rows.len(),
{
    if rows.len() == 0 {
        None
    } else {
        match rows_fault(rows.drop_last()) {
            Some(e) => Some(e),
            None => config_fault(rows.last()),
        }
    }
}

proof fn lemma_rows_prefix(rows: Seq<ConfigRow>, i: int)
    requires
        0 <= i <= rows.len(),
        rows_fault(rows.subrange(0, i)) is Some,
    ensures
        rows_fault(rows) == rows_fault(rows.subrange(0, i)),
    decreases rows.len() - i,
{
    if i == rows.len() {
        assert(rows.subrange(0, i) =~= rows);
    } else {
        assert(rows.subrange(0, i + 1).drop_last() =~= rows.subrange(0, i));
        lemma_rows_prefix(rows, i + 1);
    }
}

/// A page of configurations can be read exactly where each of its rows can.
pub proof fn law_every_row_of_a_page_must_be_readable(rows: Seq<ConfigRow>)
    ensures
        rows_fault(rows) is None <==> forall|i: int| 0 <= i < rows.len() ==> config_fault(#[trigger] rows[i]) is None,
    decreases rows.len(),
{
    if rows.len() > 0 {
        let shorter = rows.drop_last();
        law_every_row_of_a_page_must_be_readable(shorter);
        assert(rows.last() == rows[rows.len() - 1]);
        if rows_fault(rows) is None {
            assert forall|i: int| 0 <= i < rows.len() implies config_fault(#[trigger] rows[i]) is None by {
                if i < shorter.len() {
                    assert(shorter[i] == rows[i]);
                }
            }
        } else if rows_fault(shorter) is Some {
            let i = choose|i: int| 0 <= i < shorter.len() && config_fault(#[trigger] shorter[i]) is Some;
            assert(rows[i] == shorter[i]);
        }
    }
}

/// Makes a page of configurations out of the rows that follow its start. The store
/// reads one row more than a page holds; where it finds it there is a next page,
/// which starts after the last configuration shown.
pub fn list_callback_configs(
    enabled: bool,
    rows: &Vec<ConfigRow>,
    limit: usize,
    key: &[u8; 32],
    tenant: &str,
    task_id: &str,
) -> (r: Result<CallbackConfigPage, Fault>)
    requires
        limit >= 1,
    ensures
        if !enabled {
            r matches Err(e) && e == Fault::PushNotificationNotSupported
        } else {
            let n = page_len(rows@.len() as int, limit as int);
            match r {
                Err(e) => rows_fault(rows@.subrange(0, n)) == Some(e),
                Ok(page) => {
                    &&& rows_fault(rows@.subrange(0, n)) is None
                    &&& page.configs@.len() == n
                    &&& forall|i: int| 0 <= i < n ==> config_of(#[trigger] page.configs@[i], rows@[i], tenant@, task_id@)
                    &&& text::opt_text(page.next_token) == (if rows@.len() > limit {
                        Some(
                            token_of(
                                key@,
                                token_payload_of(tenant@, task_id@, rows@[n - 1].created_at, rows@[n - 1].config_id@),
                            ),
                        )
                    } else {
                        None
                    })
                },
            }
        },
        r matches Ok(page) ==> {
            &&& enabled
            &&& page.configs@.len() <= limit
            &&& page.configs@.len() <= rows@.len()
            &&& rows@.len() >= limit ==> page.configs@.len() == limit
            &&& rows@.len() <= limit ==> page.configs@.len() == rows@.len()
            &&& page.next_token is Some <==> rows@.len() > page.configs@.len()
            &&& forall|i: int|
                0 <= i < page.configs@.len() ==> (#[trigger] page.configs@[i]).config_id@ == rows@[i].config_id@
                    && page.configs@[i].task_id@ == task_id@ && page.configs@[i].tenant_scope@ == tenant@
        },
{
    if !enabled {
        return Err(Fault::PushNotificationNotSupported);
    }
    let more = rows.len() > limit;
    let n: usize = if more {
        limit
    } else {
        rows.len()
    };
    let mut configs: Vec<CallbackConfig> = Vec::new();
    let mut i: usize = 0;
    let ghost shown = rows@.subrange(0, n as int);
    assert(shown.subrange(0, 0) =~= Seq::<ConfigRow>::empty());
    while i < n
        invariant
            enabled,
            n == page_len(rows@.len() as int, limit as int),
            i <= n <= rows@.len(),
            shown == rows@.subrange(0, n as int),
            configs@.len() == i,
            rows_fault(shown.subrange(0, i as int)) is None,
            forall|j: int| 0 <= j < i ==> config_of(#[trigger] configs@[j], rows@[j], tenant@, task_id@),
        decreases n - i,
    {
        proof {
            assert(shown.subrange(0, i + 1).drop_last() =~= shown.subrange(0, i as int));
            assert(shown.subrange(0, i + 1).last() == rows@[i as int]);
        }
        match postgres_callback_config(&rows[i], tenant, task_id) {
            Ok(c) => {
                configs.push(c);
            },
            Err(e) => {
                proof {
                    lemma_rows_prefix(shown, i + 1);
                }
                return Err(e);
            },
        }
        i += 1;
    }
    assert(shown.subrange(0, n as int) =~= shown);
    let next_token = if more {
        let last = &rows[n - 1];
        Some(postgres_callback_token(key, tenant, task_id, last.created_at, last.config_id.as_str()))
    } else {
        None
    };
    Ok(CallbackConfigPage { configs, next_token })
}

/// What deleting a configuration did.
#[derive(Clone, Copy, Debug, PartialEq, Eq, Structural)]
pub enum CallbackDeleteOutcome {
    AlreadyAbsent,
    Draining,
    Revoked,
}

/// Decides what deleting a configuration does: one with a delivery under way is
/// drained, and deleting it twice is no error. `state` is the one on record.
pub fn delete_callback_config(enabled: bool, task_visible: bool, state: &Option<String>, delivery_leased: bool) -> (r:
    Result<CallbackDeleteOutcome, Fault>)
    ensures
        r == (if !enabled {
            Err::<CallbackDeleteOutcome, Fault>(Fault::PushNotificationNotSupported)
        } else if !task_visible {
            Err(Fault::TaskNotFound)
        } else if state is None || text::opt_text(*state) == Some("revoked"@) {
            Ok(CallbackDeleteOutcome::AlreadyAbsent)
        } else if delivery_leased {
            Ok(CallbackDeleteOutcome::Draining)
        } else {
            Ok(CallbackDeleteOutcome::Revoked)
        }),
        r is Ok <==> enabled && task_visible,
        r == Ok::<CallbackDeleteOutcome, Fault>(CallbackDeleteOutcome::Revoked) ==> !delivery_leased && *state is Some
            && state->0@ != "revoked"@,
        r == Ok::<CallbackDeleteOutcome, Fault>(CallbackDeleteOutcome::Draining) ==> delivery_leased && *state is Some
            && state->0@ != "revoked"@,
{
    if !enabled {
        return Err(Fault::PushNotificationNotSupported);
    }
    if !task_visible {
        return Err(Fault::TaskNotFound);
    }
    if state.is_none() || text::opt_text_is(state, "revoked") {
        return Ok(CallbackDeleteOutcome::AlreadyAbsent);
    }
    if delivery_leased {
        Ok(CallbackDeleteOutcome::Draining)
    } else {
        Ok(CallbackDeleteOutcome::Revoked)
    }
}

/// Whether callbacks are delivered.
#[derive(Clone, Copy, Debug, PartialEq, Eq, Structural)]
pub enum CallbackReadiness {
    Ready,
    Disabled,
}

/// Callbacks are delivered where a policy for them is in force.
pub fn callback_readiness(limits: &Option<CallbackLimits>) -> (r: CallbackReadiness)
    ensures
        r == (if limits is Some {
            CallbackReadiness::Ready
        } else {
            CallbackReadiness::Disabled
        }),
{
    match limits {
        Some(_) => CallbackReadiness::Ready,
        None => CallbackReadiness::Disabled,
    }
}

/// The generation of an enrollment that the store found.
pub fn resolve_callback_enrollment(limits: &Option<CallbackLimits>, generation: Option<i64>) -> (r: Result<
    Option<u64>,
    Fault,
>)
    ensures
        r == (if limits is None {
            Err::<Option<u64>, Fault>(Fault::PushNotificationNotSupported)
        } else if limits->0.policy_revision > i64::MAX {
            Err(Fault::CallbackPolicyCorrupt)
        } else {
            match generation {
                None => Ok(None),
                Some(g) => if g < 0 {
                    Err(Fault::CallbackEnrollmentCorrupt)
                } else {
                    Ok(Some(g as u64))
                },
            }
        }),
        r matches Ok(found) ==> limits is Some && (found is Some <==> generation is Some),
        r matches Ok(Some(g)) ==> g == generation->0,
        generation is Some && generation->0 < 0 ==> r is Err,
{
    match limits {
        None => Err(Fault::PushNotificationNotSupported),
        Some(l) => {
            if l.policy_revision > 0x7fff_ffff_ffff_ffff {
                return Err(Fault::CallbackPolicyCorrupt);
            }
            match generation {
                None => Ok(None),
                Some(g) => if g < 0 {
                    Err(Fault::CallbackEnrollmentCorrupt)
                } else {
                    Ok(Some(g as u64))
                },
            }
        },
    }
}

/// The numbers of a claimed delivery.
#[derive(Clone, Copy, Debug, PartialEq, Eq, Structural)]
pub struct DeliveryNumbers {
    pub lease_epoch: u64,
    pub enrollment_generation: u64,
    pub attempt_no: u16,
}

/// Reads the numbers of a claimed delivery.
pub fn claim_callback_delivery(lease_epoch: i64, enrollment_generation: i64, attempt_no: i32) -> (r: Result<
    DeliveryNumbers,
    Fault,
>)
    ensures
        r == (if lease_epoch < 0 {
            Err::<DeliveryNumbers, Fault>(Fault::CallbackFenceCorrupt)
        } else if enrollment_generation < 0 {
            Err(Fault::CallbackEnrollmentCorrupt)
        } else if !(0 <= attempt_no <= u16::MAX) {
            Err(Fault::CallbackAttemptCorrupt)
        } else {
            Ok(
                DeliveryNumbers {
                    lease_epoch: lease_epoch as u64,
                    enrollment_generation: enrollment_generation as u64,
                    attempt_no: attempt_no as u16,
                },
            )
        }),
        r is Ok <==> lease_epoch >= 0 && enrollment_generation >= 0 && 0 <= attempt_no <= 65_535,
        r matches Ok(n) ==> n.lease_epoch == lease_epoch && n.enrollment_generation == enrollment_generation && n.attempt_no
            == attempt_no,
{
    if lease_epoch < 0 {
        return Err(Fault::CallbackFenceCorrupt);
    }
    if enrollment_generation < 0 {
        return Err(Fault::CallbackEnrollmentCorrupt);
    }
    if attempt_no < 0 || attempt_no > 65_535 {
        return Err(Fault::CallbackAttemptCorrupt);
    }
    Ok(
        DeliveryNumbers {
            lease_epoch: lease_epoch as u64,
            enrollment_generation: enrollment_generation as u64,
            attempt_no: attempt_no as u16,
        },
    )
}

/// The epoch of a fence as the store compares it; one that is too large matches
/// nothing.
pub fn stored_epoch(epoch: u64) -> (r: i64)
    ensures
        r == (if epoch <= i64::MAX {
            epoch as int
        } else {
            -1
        }),
        r >= 0 ==> r == epoch,
        r < 0 <==> epoch > 0x7fff_ffff_ffff_ffff,
{
    if epoch <= 0x7fff_ffff_ffff_ffff {
        epoch as i64
    } else {
        -1
    }
}

/// The state that a delivery was left in.
#[derive(Clone, Copy, Debug, PartialEq, Eq, Structural)]
pub enum CallbackDeliveryState {
    Delivered,
    Retry,
    Dead,
    Canceled,
}

/// The stored text of a delivery's state.
pub open spec fn delivery_state_text(s: CallbackDeliveryState) -> Seq<char> {
    match s {
        CallbackDeliveryState::Delivered => "delivered"@,
        CallbackDeliveryState::Retry => "retry"@,
        CallbackDeliveryState::Dead => "dead"@,
        CallbackDeliveryState::Canceled => "canceled"@,
    }
}

/// A delivery's states are stored as texts of their own.
pub proof fn law_delivery_states_have_their_own_texts(a: CallbackDeliveryState, b: CallbackDeliveryState)
    ensures
        delivery_state_text(a) == delivery_state_text(b) <==> a == b,
        delivery_state_text(CallbackDeliveryState::Delivered).len() == 9,
        delivery_state_text(CallbackDeliveryState::Retry).len() == 5,
        delivery_state_text(CallbackDeliveryState::Dead).len() == 4,
        delivery_state_text(CallbackDeliveryState::Canceled).len() == 8,
{
    reveal_strlit("delivered");
    reveal_strlit("retry");
    reveal_strlit("dead");
    reveal_strlit("canceled");
    assert("delivered"@.len() == 9);
    assert("retry"@.len() == 5);
    assert("dead"@.len() == 4);
    assert("canceled"@.len() == 8);
}

impl CallbackDeliveryState {
    /// The stored text of the state.
    pub fn as_text(self) -> (r: &'static str)
        ensures
            r@ == delivery_state_text(self),
    {
        match self {
            CallbackDeliveryState::Delivered => "delivered",
            CallbackDeliveryState::Retry => "retry",
            CallbackDeliveryState::Dead => "dead",
            CallbackDeliveryState::Canceled => "canceled",
        }
    }
}

/// Reads the state that the store left a delivery in, absent where the fence of
/// the delivery did not hold.
pub fn finish_postgres_callback(state: &Option<String>) -> (r: Result<CallbackDeliveryState, Fault>)
    ensures
        match *state {
            None => r == Err::<CallbackDeliveryState, Fault>(Fault::CallbackFenceStale),
            Some(found) => match r {
                Ok(s) => found@ == delivery_state_text(s),
                Err(e) => e == Fault::CallbackDeliveryStateCorrupt && forall|s: CallbackDeliveryState|
                    found@ != #[trigger] delivery_state_text(s),
            },
        },
{
    let state = match state {
        Some(found) => found.as_str(),
        None => {
            return Err(Fault::CallbackFenceStale);
        },
    };
    if text::same_text(state, "delivered") {
        Ok(CallbackDeliveryState::Delivered)
    } else if text::same_text(state, "retry") {
        Ok(CallbackDeliveryState::Retry)
    } else if text::same_text(state, "dead") {
        Ok(CallbackDeliveryState::Dead)
    } else if text::same_text(state, "canceled") {
        Ok(CallbackDeliveryState::Canceled)
    } else {
        Err(Fault::CallbackDeliveryStateCorrupt)
    }
}

/// Whether a delivery that was to be committed was.
pub fn commit_callback_delivery(state: CallbackDeliveryState) -> (r: bool)
    ensures
        r == (state == CallbackDeliveryState::Delivered),
{
    state == CallbackDeliveryState::Delivered
}

/// The event that tells callbacks of a task's end.
pub struct TerminalCallback {
    pub event_id: String,
    pub payload_digest: String,
    pub egress_bytes: i64,
}

/// The identity of the event that tells callbacks of a task's end.
pub open spec fn callback_event_id_of(tenant: Seq<char>, task_id: Seq<char>, revision: i64, digest: Seq<char>) -> Seq<
    char,
> {
    "callback-event-"@ + crypto::content_digest_of(
        text::utf8(
            tenant + "\0"@ + task_id + "\0"@ + text::signed_decimal(revision as int) + "\0"@ + digest,
        ),
    ).subrange(7, 39)
}

/// Prepares the event that tells callbacks of a task's end, where callbacks are on
/// and the task has ended. `payload` is the encoded status update.
pub fn enqueue_terminal_callbacks(
    callbacks_enabled: bool,
    tenant: &str,
    t: &Task,
    revision: i64,
    payload: &[u8],
) -> (r: Result<Option<TerminalCallback>, Fault>)
    ensures
        match r {
            Ok(None) => !callbacks_enabled || !task::terminal(t.status.state),
            Err(e) => {
                &&& callbacks_enabled && task::terminal(t.status.state)
                &&& payload@.len() > i64::MAX && e == Fault::CallbackEgressOverflow
            },
            Ok(Some(c)) => {
                &&& callbacks_enabled && task::terminal(t.status.state)
                &&& c.payload_digest@ == crypto::content_digest_of(payload@)
                &&& c.event_id@ == callback_event_id_of(tenant@, t.id@, revision, c.payload_digest@)
                &&& c.egress_bytes == payload@.len()
            },
        },
        callbacks_enabled && (t.status.state == task::TaskState::Completed || t.status.state == task::TaskState::Failed
            || t.status.state == task::TaskState::Canceled || t.status.state == task::TaskState::Rejected)
            && payload@.len() <= i64::MAX ==> (r matches Ok(Some(c)) && c.egress_bytes == payload@.len()),
        t.status.state == task::TaskState::Submitted || t.status.state == task::TaskState::Working || t.status.state
            == task::TaskState::InputRequired || t.status.state == task::TaskState::AuthRequired ==> r matches Ok(None),
{
    if !callbacks_enabled || !t.status.state.is_terminal() {
        return Ok(None);
    }
    if payload.len() as u64 > 0x7fff_ffff_ffff_ffff {
        return Err(Fault::CallbackEgressOverflow);
    }
    let payload_digest = crypto::content_digest(payload);
    let mut key = tenant.to_owned();
    key.append("\0");
    key.append(t.id.as_str());
    key.append("\0");
    key.append(text::signed_decimal_text(revision).as_str());
    key.append("\0");
    key.append(payload_digest.as_str());
    let part = crypto::digest_part(key.as_str().as_bytes(), 7, 39);
    let mut event_id = "callback-event-".to_owned();
    event_id.append(part.as_str());
    Ok(Some(TerminalCallback { event_id, payload_digest, egress_bytes: payload.len() as i64 }))
}

/// An id drawn from random bytes: a prefix and part of their digest.
pub fn drawn_id(prefix: &str, random: &[u8]) -> (r: String)
    ensures
        r@ == prefix@ + crypto::content_digest_of(random@).subrange(7, 39),
{
    let part = crypto::digest_part(random, 7, 39);
    let mut out = prefix.to_owned();
    out.append(part.as_str());
    out
}

/// A page holds what there is, up to what was asked for.
pub proof fn law_pages_hold_what_was_asked_for(rows: int, limit: int)
    ensures
        page_len(rows, limit) <= rows,
        page_len(rows, limit) <= limit,
        page_len(rows, limit) == rows || page_len(rows, limit) == limit,
{
}

/// The event of a task's end is named for the tenant, the task, its revision and its digest, each
/// between separators.
pub proof fn law_events_are_named_for_their_task(tenant: Seq<char>, task_id: Seq<char>, revision: i64, digest: Seq<char>)
    requires
        !tenant.contains('\0'),
        !task_id.contains('\0'),
        !text::signed_decimal(revision as int).contains('\0'),
        !digest.contains('\0'),
    ensures
        exists|named: Seq<char>|
            callback_event_id_of(tenant, task_id, revision, digest) == "callback-event-"@ + crypto::content_digest_of(
                text::utf8(named),
            ).subrange(7, 39) && #[trigger] text::fields(named, '\0') == seq![
                tenant,
                task_id,
                text::signed_decimal(revision as int),
                digest,
            ],
{
    reveal_strlit("\0");
    let n = text::signed_decimal(revision as int);
    let named = tenant + "\0"@ + task_id + "\0"@ + n + "\0"@ + digest;
    let c = n.push('\0') + digest;
    let b = task_id.push('\0') + c;
    assert(named =~= tenant.push('\0') + b);
    text::law_leading_fields_come_first(tenant, '\0', b);
    text::law_leading_fields_come_first(task_id, '\0', c);
    text::law_leading_fields_come_first(n, '\0', digest);
    assert(text::fields(named, '\0') =~= seq![tenant, task_id, n, digest]);
}

/// A callback is refused for its numbers before anything else is looked at, and one that is on
/// record already is answered from the record.
pub proof fn law_callback_numbers_come_first(limits: CallbackLimits, c: ConfigCreateCommand, i: CreateInputs)
    ensures
        create_fault(None, c, i) == Some(Fault::PushNotificationNotSupported),
        c.enrollment_generation > 0x7fff_ffff_ffff_ffff ==> create_fault(Some(limits), c, i) == Some(
            Fault::InvalidCallbackGeneration,
        ),
        c.enrollment_generation <= 0x7fff_ffff_ffff_ffff && limits.policy_revision > 0x7fff_ffff_ffff_ffff
            ==> create_fault(Some(limits), c, i) == Some(Fault::CallbackPolicyCorrupt),
        create_fault(Some(limits), c, i) is None && i.existing is Some ==> i.existing->0.enrollment_id@ == c.enrollment_id@
            && i.existing->0.enrollment_generation == c.enrollment_generation && i.existing->0.canonical_url@
            == c.canonical_url@ && i.existing->0.url_digest@ == c.url_digest@,
        create_fault(Some(limits), c, i) is None ==> i.task_open && i.enrolled,
{
}

/// A token that was issued means what it was issued for, and only to the tenant and the task that it
/// was issued for.
pub proof fn law_payloads_mean_what_they_were_written_for(
    tenant: Seq<char>,
    task_id: Seq<char>,
    created: i64,
    id: Seq<char>,
    other_tenant: Seq<char>,
    other_task: Seq<char>,
)
    requires
        is_plain_field(tenant),
        is_plain_field(task_id),
        is_plain_field(id),
        id.len() > 0,
    ensures
        payload_meaning(token_payload_of(tenant, task_id, created, id), other_tenant, other_task) == (if tenant
            == other_tenant && task_id == other_task {
            Some((created as int, id))
        } else {
            None
        }),
{
    lemma_payload_reads_back(tenant, task_id, created, id);
    let p = token_payload_of(tenant, task_id, created, id);
    let f = text::fields(p, FIELD_SEPARATOR);
    assert(payload_meaning(p, tenant, task_id) == Some((created as int, id)));
    assert(f[1] == tenant && f[2] == task_id);
}

/// A new callback is refused for want of room in its tenant first, and then at its task.
pub proof fn law_full_tenants_are_refused_first(limits: CallbackLimits, c: ConfigCreateCommand, i: CreateInputs)
    requires
        c.enrollment_generation <= i64::MAX,
        limits.policy_revision <= i64::MAX,
        i.task_open,
        i.enrolled,
        i.existing is None,
    ensures
        i.tenant_configs >= limits.max_configs_per_tenant ==> create_fault(Some(limits), c, i) == Some(
            Fault::CallbackTenantCapacity,
        ),
        i.tenant_configs < limits.max_configs_per_tenant && i.task_configs >= limits.max_configs_per_task
            ==> create_fault(Some(limits), c, i) == Some(Fault::CallbackConfigCapacity),
        i.tenant_configs < limits.max_configs_per_tenant && i.task_configs < limits.max_configs_per_task
            ==> create_fault(Some(limits), c, i) is None,
{
}

} // verus!
