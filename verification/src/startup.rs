//! Opening the authority: roles, migrations, policy reconciliation and the checks
//! before it serves.

use vstd::prelude::*;

use crate::catalog;
use crate::crypto;
use crate::json;
use crate::quota::{PolicyIdentity, QuotaDimension, QuotaScopeKind};
use crate::schema_names;
use crate::semantics;
use crate::semantics::{AuthorityImage, ReconciliationRecord};
use crate::store_config;
use crate::store_config::{PostgresStoreConfig, PostgresStoreError};
use crate::text;
use crate::weburl;
use crate::weburl::UrlParts;

verus! {

/// The most bytes that a tenant may retain.
pub const MAX_TENANT_RETAINED_BYTES: i64 = 67_108_864;

/// The largest payload of a callback, as policies on record state it.
pub const CALLBACK_PAYLOAD_BYTES: i32 = 262_144;

/// The attributes of a database role.
#[derive(Clone, Copy, Debug, PartialEq, Eq, Structural)]
pub struct RoleAttributes {
    pub superuser: bool,
    pub inherit: bool,
    pub create_role: bool,
    pub create_db: bool,
    pub can_login: bool,
    pub replication: bool,
    pub bypass_rls: bool,
}

/// A role that can do nothing but what it is granted; `login` tells whether it must
/// be able to log in.
pub open spec fn role_restricted(a: RoleAttributes, login: bool) -> bool {
    !a.superuser && !a.inherit && !a.create_role && !a.create_db && a.can_login == login && !a.replication
        && !a.bypass_rls
}

/// A restricted role has no power of its own, and logs in exactly where it must.
pub proof fn law_restricted_roles_have_no_power(a: RoleAttributes, login: bool)
    ensures
        role_restricted(a, login) <==> a == (RoleAttributes {
            superuser: false,
            inherit: false,
            create_role: false,
            create_db: false,
            can_login: login,
            replication: false,
            bypass_rls: false,
        }),
{
}

fn is_restricted(a: &RoleAttributes, login: bool) -> (r: bool)
    ensures
        r == role_restricted(*a, login),
{
    !a.superuser && !a.inherit && !a.create_role && !a.create_db && a.can_login == login && !a.replication
        && !a.bypass_rls
}

/// A membership of one role in another.
pub struct Membership {
    pub member: String,
    pub parent: String,
    pub admin: bool,
    pub inherit: bool,
    pub set: bool,
}

/// The edge by which the runtime login enters the runtime role.
pub open spec fn runtime_edge(m: Membership, runtime_user: Seq<char>, role: Seq<char>) -> bool {
    m.member@ == runtime_user && m.parent@ == role && !m.admin && !m.inherit && m.set
}

/// The edge by which the migrator administers the runtime role.
pub open spec fn migrator_edge(m: Membership, migrator_user: Seq<char>, role: Seq<char>) -> bool {
    m.member@ == migrator_user && m.parent@ == role && m.admin && !m.inherit && !m.set
}

/// A membership of the runtime login in the runtime role of another schema.
pub struct SiblingMembership {
    pub role: String,
    pub admin: bool,
    pub inherit: bool,
    pub set: bool,
    pub attributes: RoleAttributes,
    pub schema_exists: bool,
    pub owner_administers: bool,
}

/// Whether such a membership is harmless.
pub open spec fn sibling_harmless(m: SiblingMembership) -> bool {
    &&& text::ends_with(text::utf8(m.role@), text::utf8("_runtime"@))
    &&& !m.admin && !m.inherit && m.set
    &&& role_restricted(m.attributes, false)
    &&& m.schema_exists
    &&& m.owner_administers
}

/// A role that is reached from the runtime role.
pub struct ReachedRole {
    pub role: String,
    pub cycle: bool,
    pub depth: i32,
    pub attributes: RoleAttributes,
}

/// Whether a reached role is the runtime role itself, without privileges.
pub open spec fn reached_harmless(r: ReachedRole, runtime_user: Seq<char>) -> bool {
    &&& !r.cycle && r.depth <= 0
    &&& !r.attributes.superuser && !r.attributes.create_role && !r.attributes.create_db && !r.attributes.replication
        && !r.attributes.bypass_rls
    &&& r.attributes.can_login ==> r.role@ == runtime_user
    &&& !r.attributes.inherit
}

/// What the database reports of the runtime login.
pub struct LoginImage {
    pub login: Option<RoleAttributes>,
    pub runtime_role_exists: bool,
    pub migrator_user: String,
    pub memberships: Vec<Membership>,
    pub siblings: Vec<SiblingMembership>,
    pub reached: Vec<ReachedRole>,
}

/// Why the runtime login is refused.
pub open spec fn login_fault(image: LoginImage, schema: Seq<char>, runtime_user: Seq<char>) -> Option<
    PostgresStoreError,
> {
    let role = catalog::runtime_role_of(schema);
    if image.login is None || !role_restricted(image.login->0, true) {
        Some(PostgresStoreError::Initialization)
    } else if !image.runtime_role_exists {
        if image.memberships@.len() == 0 {
            None
        } else {
            Some(PostgresStoreError::InvalidSchema)
        }
    } else if image.memberships@.len() == 2 && (exists|i: int|
        0 <= i < image.memberships@.len() && runtime_edge(#[trigger] image.memberships@[i], runtime_user, role)) && (
    exists|i: int|
        0 <= i < image.memberships@.len() && migrator_edge(
            #[trigger] image.memberships@[i],
            image.migrator_user@,
            role,
        )) && (forall|i: int| 0 <= i < image.siblings@.len() ==> sibling_harmless(#[trigger] image.siblings@[i])) && (
    forall|i: int| 0 <= i < image.reached@.len() ==> reached_harmless(#[trigger] image.reached@[i], runtime_user)) {
        None
    } else {
        Some(PostgresStoreError::InvalidSchema)
    }
}

/// A runtime login is accepted only where it is restricted; before the runtime role exists it
/// belongs to nothing, and after that the role has two members alone: the login, which may enter
/// it, and the migrator, which may administer it. Every other role that it reaches is harmless.
pub proof fn law_runtime_logins_enter_their_role_only(image: LoginImage, schema: Seq<char>, runtime_user: Seq<char>)
    ensures
        login_fault(image, schema, runtime_user) is None ==> {
            &&& image.login is Some
            &&& !image.login->0.superuser
            &&& !image.login->0.inherit
            &&& !image.login->0.create_role
            &&& !image.login->0.create_db
            &&& image.login->0.can_login
            &&& !image.login->0.replication
            &&& !image.login->0.bypass_rls
            &&& !image.runtime_role_exists ==> image.memberships@.len() == 0
            &&& image.runtime_role_exists ==> {
                &&& image.memberships@.len() == 2
                &&& exists|i: int|
                    0 <= i < image.memberships@.len() && (#[trigger] image.memberships@[i]).member@ == runtime_user
                        && image.memberships@[i].parent@ == catalog::runtime_role_of(schema)
                        && !image.memberships@[i].admin && !image.memberships@[i].inherit && image.memberships@[i].set
                &&& exists|i: int|
                    0 <= i < image.memberships@.len() && (#[trigger] image.memberships@[i]).member@
                        == image.migrator_user@ && image.memberships@[i].parent@ == catalog::runtime_role_of(schema)
                        && image.memberships@[i].admin && !image.memberships@[i].inherit && !image.memberships@[i].set
                &&& forall|i: int|
                    0 <= i < image.siblings@.len() ==> !(#[trigger] image.siblings@[i]).admin
                        && !image.siblings@[i].inherit && image.siblings@[i].set && image.siblings@[i].schema_exists
                        && image.siblings@[i].owner_administers && !image.siblings@[i].attributes.can_login
                        && !image.siblings@[i].attributes.superuser
                &&& forall|i: int|
                    0 <= i < image.reached@.len() ==> !(#[trigger] image.reached@[i]).cycle && image.reached@[i].depth
                        <= 0 && !image.reached@[i].attributes.superuser && !image.reached@[i].attributes.create_role
                        && !image.reached@[i].attributes.create_db && !image.reached@[i].attributes.replication
                        && !image.reached@[i].attributes.bypass_rls && !image.reached@[i].attributes.inherit && (
                    image.reached@[i].attributes.can_login ==> image.reached@[i].role@ == runtime_user)
            }
        },
        image.login is None ==> login_fault(image, schema, runtime_user) == Some(PostgresStoreError::Initialization),
        image.login is Some && role_restricted(image.login->0, true) && !image.runtime_role_exists
            && image.memberships@.len() == 0 ==> login_fault(image, schema, runtime_user) is None,
        image.login is Some && role_restricted(image.login->0, true) && !image.runtime_role_exists
            && image.memberships@.len() > 0 ==> login_fault(image, schema, runtime_user) == Some(
            PostgresStoreError::InvalidSchema,
        ),
{
    if login_fault(image, schema, runtime_user) is None && image.runtime_role_exists {
        let role = catalog::runtime_role_of(schema);
        let i = choose|i: int|
            0 <= i < image.memberships@.len() && runtime_edge(#[trigger] image.memberships@[i], runtime_user, role);
        assert(image.memberships@[i].member@ == runtime_user);
        let j = choose|j: int|
            0 <= j < image.memberships@.len() && migrator_edge(
                #[trigger] image.memberships@[j],
                image.migrator_user@,
                role,
            );
        assert(image.memberships@[j].member@ == image.migrator_user@);
    }
}

/// The login and the migrator of a schema are told apart by what they may do with its role, so
/// that a pair of memberships that lets each in is accepted.
pub proof fn law_paired_memberships_are_accepted(image: LoginImage, schema: Seq<char>, runtime_user: Seq<char>)
    requires
        image.login matches Some(a) && role_restricted(a, true),
        image.runtime_role_exists,
        image.memberships@.len() == 2,
        image.memberships@[0].member@ == runtime_user,
        image.memberships@[0].parent@ == catalog::runtime_role_of(schema),
        !image.memberships@[0].admin && !image.memberships@[0].inherit && image.memberships@[0].set,
        image.memberships@[1].member@ == image.migrator_user@,
        image.memberships@[1].parent@ == catalog::runtime_role_of(schema),
        image.memberships@[1].admin && !image.memberships@[1].inherit && !image.memberships@[1].set,
        image.siblings@.len() == 0,
        image.reached@.len() == 0,
    ensures
        login_fault(image, schema, runtime_user) is None,
{
    let role = catalog::runtime_role_of(schema);
    assert(runtime_edge(image.memberships@[0], runtime_user, role));
    assert(migrator_edge(image.memberships@[1], image.migrator_user@, role));
}

fn has_runtime_edge(items: &Vec<Membership>, runtime_user: &str, role: &str) -> (r: bool)
    ensures
        r == exists|i: int| 0 <= i < items@.len() && runtime_edge(#[trigger] items@[i], runtime_user@, role@),
{
    let mut i: usize = 0;
    while i < items.len()
        invariant
            i <= items@.len(),
            forall|j: int| 0 <= j < i ==> !runtime_edge(#[trigger] items@[j], runtime_user@, role@),
        decreases items@.len() - i,
    {
        let m = &items[i];
        if text::same_text(m.member.as_str(), runtime_user) && text::same_text(m.parent.as_str(), role) && !m.admin
            && !m.inherit && m.set {
            assert(runtime_edge(items@[i as int], runtime_user@, role@));
            return true;
        }
        i += 1;
    }
    false
}

fn has_migrator_edge(items: &Vec<Membership>, migrator_user: &str, role: &str) -> (r: bool)
    ensures
        r == exists|i: int| 0 <= i < items@.len() && migrator_edge(#[trigger] items@[i], migrator_user@, role@),
{
    let mut i: usize = 0;
    while i < items.len()
        invariant
            i <= items@.len(),
            forall|j: int| 0 <= j < i ==> !migrator_edge(#[trigger] items@[j], migrator_user@, role@),
        decreases items@.len() - i,
    {
        let m = &items[i];
        if text::same_text(m.member.as_str(), migrator_user) && text::same_text(m.parent.as_str(), role) && m.admin
            && !m.inherit && !m.set {
            assert(migrator_edge(items@[i as int], migrator_user@, role@));
            return true;
        }
        i += 1;
    }
    false
}

fn all_siblings_harmless(items: &Vec<SiblingMembership>) -> (r: bool)
    ensures
        r == forall|i: int| 0 <= i < items@.len() ==> sibling_harmless(#[trigger] items@[i]),
{
    let mut i: usize = 0;
    while i < items.len()
        invariant
            i <= items@.len(),
            forall|j: int| 0 <= j < i ==> sibling_harmless(#[trigger] items@[j]),
        decreases items@.len() - i,
    {
        let m = &items[i];
        if !text::ends_with_bytes(m.role.as_str().as_bytes(), "_runtime".as_bytes()) || m.admin || m.inherit || !m.set
            || !is_restricted(&m.attributes, false) || !m.schema_exists || !m.owner_administers {
            assert(!sibling_harmless(items@[i as int]));
            return false;
        }
        i += 1;
    }
    true
}

fn all_reached_harmless(items: &Vec<ReachedRole>, runtime_user: &str) -> (r: bool)
    ensures
        r == forall|i: int| 0 <= i < items@.len() ==> reached_harmless(#[trigger] items@[i], runtime_user@),
{
    let mut i: usize = 0;
    while i < items.len()
        invariant
            i <= items@.len(),
            forall|j: int| 0 <= j < i ==> reached_harmless(#[trigger] items@[j], runtime_user@),
        decreases items@.len() - i,
    {
        let m = &items[i];
        let a = &m.attributes;
        let login_elsewhere = a.can_login && !text::same_text(m.role.as_str(), runtime_user);
        if m.cycle || m.depth > 0 || a.superuser || a.create_role || a.create_db || a.replication || a.bypass_rls
            || login_elsewhere || a.inherit {
            assert(!reached_harmless(items@[i as int], runtime_user@));
            return false;
        }
        i += 1;
    }
    true
}

/// Validates the login that the authority runs under: it can do nothing by itself
/// and enters the runtime role of its schemas only.
pub fn validate_runtime_login(image: &LoginImage, schema: &str, runtime_user: &str) -> (r: Result<
    (),
    PostgresStoreError,
>)
    ensures
        match r {
            Ok(_) => login_fault(*image, schema@, runtime_user@) is None,
            Err(e) => login_fault(*image, schema@, runtime_user@) == Some(e),
        },
{
    let usable = match &image.login {
        Some(login) => is_restricted(login, true),
        None => false,
    };
    if !usable {
        return Err(PostgresStoreError::Initialization);
    }
    if !image.runtime_role_exists {
        if image.memberships.len() == 0 {
            return Ok(());
        }
        return Err(PostgresStoreError::InvalidSchema);
    }
    let role = catalog::runtime_role(schema);
    if image.memberships.len() != 2 || !has_runtime_edge(&image.memberships, runtime_user, role.as_str())
        || !has_migrator_edge(&image.memberships, image.migrator_user.as_str(), role.as_str())
        || !all_siblings_harmless(&image.siblings) || !all_reached_harmless(&image.reached, runtime_user) {
        return Err(PostgresStoreError::InvalidSchema);
    }
    Ok(())
}

/// A membership that a migration tolerates around the runtime role.
pub open spec fn membership_tolerated(
    m: Membership,
    role: Seq<char>,
    runtime_user: Seq<char>,
    migrator_user: Seq<char>,
) -> bool {
    m.parent@ == role && ((m.member@ == runtime_user && !m.admin) || (m.member@ == migrator_user && m.admin))
}

/// What the database reports of the roles before a migration.
pub struct MigrationRoles {
    pub migrator_user: String,
    pub runtime_is_migrator: bool,
    pub runtime_role: Option<RoleAttributes>,
    pub memberships: Vec<Membership>,
}

/// Whether a migration may run under these roles.
pub open spec fn roles_migratable(roles: MigrationRoles, schema: Seq<char>, runtime_user: Seq<char>) -> bool {
    &&& runtime_user != roles.migrator_user@
    &&& !roles.runtime_is_migrator
    &&& roles.runtime_role is Some ==> role_restricted(roles.runtime_role->0, false) && forall|i: int|
        0 <= i < roles.memberships@.len() ==> membership_tolerated(
            #[trigger] roles.memberships@[i],
            catalog::runtime_role_of(schema),
            runtime_user,
            roles.migrator_user@,
        )
}

/// A migration runs only where the runtime login is not the migrator, and where a runtime role
/// that exists is restricted and has no members but the login, without power over it, and the
/// migrator, with power over it.
pub proof fn law_migrations_keep_roles_apart(roles: MigrationRoles, schema: Seq<char>, runtime_user: Seq<char>)
    ensures
        runtime_user == roles.migrator_user@ || roles.runtime_is_migrator ==> !roles_migratable(
            roles,
            schema,
            runtime_user,
        ),
        runtime_user != roles.migrator_user@ && !roles.runtime_is_migrator && roles.runtime_role is None
            ==> roles_migratable(roles, schema, runtime_user),
        roles_migratable(roles, schema, runtime_user) && roles.runtime_role is Some ==> {
            &&& !roles.runtime_role->0.can_login
            &&& !roles.runtime_role->0.superuser
            &&& !roles.runtime_role->0.bypass_rls
            &&& !roles.runtime_role->0.inherit
            &&& forall|i: int|
                0 <= i < roles.memberships@.len() ==> (#[trigger] roles.memberships@[i]).parent@
                    == catalog::runtime_role_of(schema) && (roles.memberships@[i].member@ == runtime_user
                    && !roles.memberships@[i].admin || roles.memberships@[i].member@ == roles.migrator_user@
                    && roles.memberships@[i].admin)
        },
{
}

fn all_tolerated(items: &Vec<Membership>, role: &str, runtime_user: &str, migrator_user: &str) -> (r: bool)
    ensures
        r == forall|i: int|
            0 <= i < items@.len() ==> membership_tolerated(
                #[trigger] items@[i],
                role@,
                runtime_user@,
                migrator_user@,
            ),
{
    let mut i: usize = 0;
    while i < items.len()
        invariant
            i <= items@.len(),
            forall|j: int|
                0 <= j < i ==> membership_tolerated(#[trigger] items@[j], role@, runtime_user@, migrator_user@),
        decreases items@.len() - i,
    {
        let m = &items[i];
        let known = (text::same_text(m.member.as_str(), runtime_user) && !m.admin) || (text::same_text(
            m.member.as_str(),
            migrator_user,
        ) && m.admin);
        if !text::same_text(m.parent.as_str(), role) || !known {
            assert(!membership_tolerated(items@[i as int], role@, runtime_user@, migrator_user@));
            return false;
        }
        i += 1;
    }
    true
}

/// Refuses to migrate under roles that are not kept apart.
pub fn check_migration_roles(roles: &MigrationRoles, schema: &str, runtime_user: &str) -> (r: Result<
    (),
    PostgresStoreError,
>)
    ensures
        r == (if roles_migratable(*roles, schema@, runtime_user@) {
            Ok::<(), PostgresStoreError>(())
        } else {
            Err(PostgresStoreError::InvalidSchema)
        }),
{
    if text::same_text(runtime_user, roles.migrator_user.as_str()) || roles.runtime_is_migrator {
        return Err(PostgresStoreError::InvalidSchema);
    }
    match &roles.runtime_role {
        None => Ok(()),
        Some(attributes) => {
            let role = catalog::runtime_role(schema);
            if !is_restricted(attributes, false) || !all_tolerated(
                &roles.memberships,
                role.as_str(),
                runtime_user,
                roles.migrator_user.as_str(),
            ) {
                return Err(PostgresStoreError::InvalidSchema);
            }
            Ok(())
        },
    }
}

/// A migration on record.
pub struct AppliedMigration {
    pub schema_version: i64,
    pub checksum: String,
}

/// What a schema's metadata says before a migration, and the digest of its actual
/// catalog.
pub struct SealedMetadata {
    pub schema_version: i64,
    pub catalog_hash: String,
    pub actual_catalog: String,
}

/// What a migration on record says.
pub struct RecordedMigration {
    pub schema_version: i64,
    pub checksum: Seq<char>,
}

/// What metadata says before a migration, beside the actual catalog.
pub struct SealView {
    pub schema_version: i64,
    pub catalog_hash: Seq<char>,
    pub actual_catalog: Seq<char>,
}

impl View for AppliedMigration {
    type V = RecordedMigration;

    open spec fn view(&self) -> RecordedMigration {
        RecordedMigration { schema_version: self.schema_version, checksum: self.checksum@ }
    }
}

impl View for SealedMetadata {
    type V = SealView;

    open spec fn view(&self) -> SealView {
        SealView {
            schema_version: self.schema_version,
            catalog_hash: self.catalog_hash@,
            actual_catalog: self.actual_catalog@,
        }
    }
}

/// A migration that may be on record.
pub open spec fn recorded(applied: Option<AppliedMigration>) -> Option<RecordedMigration> {
    match applied {
        Some(row) => Some(row@),
        None => None,
    }
}

/// Metadata that may be there.
pub open spec fn seal_view(metadata: Option<SealedMetadata>) -> Option<SealView> {
    match metadata {
        Some(m) => Some(m@),
        None => None,
    }
}

/// What is done about one migration.
#[derive(Clone, Copy, Debug, PartialEq, Eq, Structural)]
pub enum MigrationStep {
    /// It is on record and unchanged.
    Applied,
    /// It is run and recorded with this schema version. The first one also installs the
    /// store's keys and identity; the later ones also count what callbacks retain.
    Run { schema_version: i64, installs_identity: bool, counts_retained: bool },
}

/// What the record of a migration says once it was run.
pub open spec fn migration_record(revision: int, script: Seq<char>) -> RecordedMigration {
    RecordedMigration {
        schema_version: catalog::migration_version_of(revision) as i64,
        checksum: crypto::content_digest_of(text::utf8(script)),
    }
}

/// What is done about a migration, or why the schema is refused.
pub open spec fn migration_outcome(
    revision: int,
    schema_exists: bool,
    applied: Option<RecordedMigration>,
    script: Seq<char>,
    metadata: Option<SealView>,
) -> Result<MigrationStep, PostgresStoreError> {
    match applied {
        Some(row) => if row == migration_record(revision, script) {
            Ok(MigrationStep::Applied)
        } else {
            Err(PostgresStoreError::InvalidSchema)
        },
        None => if revision == 1 && schema_exists {
            Err(PostgresStoreError::InvalidSchema)
        } else if revision >= 8 && !(metadata is Some && metadata->0.schema_version == revision - 1
            && metadata->0.catalog_hash == metadata->0.actual_catalog) {
            Err(PostgresStoreError::InvalidSchema)
        } else {
            Ok(
                MigrationStep::Run {
                    schema_version: migration_record(revision, script).schema_version,
                    installs_identity: revision == 1,
                    counts_retained: revision >= 8,
                },
            )
        },
    }
}

/// A migration is run exactly where it is not on record: the first one only on a schema that is
/// not there, and the eighth and ninth only on one that is sealed at the version before, with the
/// catalog that it was sealed with. One on record stays exactly where its record is its own.
pub proof fn law_migrations_run_once(
    revision: int,
    schema_exists: bool,
    applied: Option<RecordedMigration>,
    script: Seq<char>,
    metadata: Option<SealView>,
)
    requires
        1 <= revision <= 9,
    ensures
        ({
            let r = migration_outcome(revision, schema_exists, applied, script, metadata);
            &&& applied is Some ==> r == (if applied->0.schema_version == migration_record(revision, script).schema_version
                && applied->0.checksum == crypto::content_digest_of(text::utf8(script)) {
                Ok::<MigrationStep, PostgresStoreError>(MigrationStep::Applied)
            } else {
                Err(PostgresStoreError::InvalidSchema)
            })
            &&& applied is None && revision == 1 ==> (r is Ok <==> !schema_exists)
            &&& applied is None && 2 <= revision <= 7 ==> r is Ok
            &&& applied is None && revision >= 8 ==> (r is Ok <==> metadata is Some && metadata->0.schema_version + 1
                == revision && metadata->0.catalog_hash == metadata->0.actual_catalog)
            &&& r is Err ==> r->Err_0 == PostgresStoreError::InvalidSchema
            &&& applied is None && r is Ok ==> r->Ok_0 is Run && (r->Ok_0->installs_identity <==> revision == 1) && (
            r->Ok_0->counts_retained <==> revision == 8 || revision == 9)
        }),
{
}

/// Decides what is done about one migration. A migration is run once, and the later
/// ones only on a schema whose catalog is as it was sealed.
pub fn migrate(
    revision: i64,
    schema_exists: bool,
    applied: &Option<AppliedMigration>,
    script: &str,
    metadata: &Option<SealedMetadata>,
) -> (r: Result<MigrationStep, PostgresStoreError>)
    requires
        1 <= revision <= 9,
    ensures
        r == migration_outcome(revision as int, schema_exists, recorded(*applied), script@, seal_view(*metadata)),
{
    match applied {
        Some(row) => {
            let checksum = crypto::text_digest(script);
            if row.schema_version == catalog::migration_version(revision) && row.checksum == checksum {
                Ok(MigrationStep::Applied)
            } else {
                Err(PostgresStoreError::InvalidSchema)
            }
        },
        None => {
            if revision == 1 && schema_exists {
                return Err(PostgresStoreError::InvalidSchema);
            }
            if revision >= 8 {
                let sealed = match metadata {
                    Some(m) => m.schema_version == revision - 1 && m.catalog_hash == m.actual_catalog,
                    None => false,
                };
                if !sealed {
                    return Err(PostgresStoreError::InvalidSchema);
                }
            }
            Ok(
                MigrationStep::Run {
                    schema_version: catalog::migration_version(revision),
                    installs_identity: revision == 1,
                    counts_retained: revision >= 8,
                },
            )
        },
    }
}

/// The metadata of a schema.
pub struct MetadataView {
    pub schema_version: i64,
    pub catalog_hash: Seq<char>,
    pub cursor_key: Seq<u8>,
    pub receipt_key: Seq<u8>,
}

/// A schema as its migrations find and leave it.
pub struct SchemaView {
    pub exists: bool,
    pub migrations: Seq<Option<RecordedMigration>>,
    pub metadata: Option<MetadataView>,
    pub store_id: Option<Seq<u8>>,
}

/// What a run of the migrations is given: their scripts, the catalog before and after
/// each of them, and the keys and the identity that were drawn for a new store.
pub struct MigrationRun {
    pub scripts: Seq<Seq<char>>,
    pub catalogs_before: Seq<Seq<char>>,
    pub catalogs_after: Seq<Seq<char>>,
    pub cursor_key: Seq<u8>,
    pub receipt_key: Seq<u8>,
    pub store_id: Seq<u8>,
}

/// What a schema's metadata says beside its actual catalog.
pub open spec fn found_seal(s: SchemaView, actual_catalog: Seq<char>) -> Option<SealView> {
    match s.metadata {
        Some(m) => Some(
            SealView { schema_version: m.schema_version, catalog_hash: m.catalog_hash, actual_catalog },
        ),
        None => None,
    }
}

/// A schema after a step at a position: one that runs records the migration and seals
/// the catalog, the first one with the drawn keys and identity.
pub open spec fn after_step(s: SchemaView, position: int, step: MigrationStep, run: MigrationRun) -> SchemaView {
    match step {
        MigrationStep::Applied => s,
        MigrationStep::Run { schema_version, installs_identity, .. } => SchemaView {
            exists: true,
            migrations: s.migrations.update(
                position,
                Some(migration_record(position + 1, run.scripts[position])),
            ),
            metadata: if installs_identity {
                Some(
                    MetadataView {
                        schema_version,
                        catalog_hash: run.catalogs_after[position],
                        cursor_key: run.cursor_key,
                        receipt_key: run.receipt_key,
                    },
                )
            } else {
                match s.metadata {
                    Some(m) => Some(
                        MetadataView { schema_version, catalog_hash: run.catalogs_after[position], ..m },
                    ),
                    None => None,
                }
            },
            store_id: if installs_identity {
                Some(run.store_id)
            } else {
                s.store_id
            },
        },
    }
}

/// A schema after the first migrations, in their order, or why it is refused.
pub open spec fn migrated(s: SchemaView, run: MigrationRun, n: int) -> Result<SchemaView, PostgresStoreError>
    decreases n,
{
    if n <= 0 {
        Ok(s)
    } else {
        match migrated(s, run, n - 1) {
            Err(e) => Err(e),
            Ok(t) => match migration_outcome(
                n,
                t.exists,
                t.migrations[n - 1],
                run.scripts[n - 1],
                found_seal(t, run.catalogs_before[n - 1]),
            ) {
                Err(e) => Err(e),
                Ok(step) => Ok(after_step(t, n - 1, step, run)),
            },
        }
    }
}

proof fn lemma_migrated_rows(s: SchemaView, run: MigrationRun, n: int)
    requires
        0 <= n <= s.migrations.len(),
        migrated(s, run, n) is Ok,
    ensures
        ({
            let t = migrated(s, run, n)->Ok_0;
            &&& t.migrations.len() == s.migrations.len()
            &&& forall|i: int|
                0 <= i < n ==> #[trigger] t.migrations[i] == Some(migration_record(i + 1, run.scripts[i]))
            &&& forall|i: int| n <= i < s.migrations.len() ==> #[trigger] t.migrations[i] == s.migrations[i]
        }),
    decreases n,
{
    if n > 0 {
        lemma_migrated_rows(s, run, n - 1);
    }
}

proof fn lemma_recorded_migrations_stay(s: SchemaView, run: MigrationRun, n: int)
    requires
        0 <= n <= s.migrations.len(),
        forall|i: int| 0 <= i < n ==> #[trigger] s.migrations[i] == Some(migration_record(i + 1, run.scripts[i])),
    ensures
        migrated(s, run, n) == Ok::<SchemaView, PostgresStoreError>(s),
    decreases n,
{
    if n > 0 {
        lemma_recorded_migrations_stay(s, run, n - 1);
        assert(s.migrations[n - 1] == Some(migration_record(n, run.scripts[n - 1])));
    }
}

/// A schema that was migrated can be migrated again with the same scripts. That runs
/// nothing: every record, the metadata with its keys, and the identity stay as they are.
pub proof fn law_migrating_again_changes_nothing(s: SchemaView, run: MigrationRun, again: MigrationRun)
    requires
        s.migrations.len() == schema_names::MIGRATION_COUNT,
        migrated(s, run, schema_names::MIGRATION_COUNT as int) is Ok,
        again.scripts == run.scripts,
    ensures
        ({
            let done = migrated(s, run, schema_names::MIGRATION_COUNT as int)->Ok_0;
            &&& done.migrations.len() == schema_names::MIGRATION_COUNT
            &&& forall|i: int| 0 <= i < done.migrations.len() ==> (#[trigger] done.migrations[i]) is Some
            &&& migrated(done, again, schema_names::MIGRATION_COUNT as int) == Ok::<SchemaView, PostgresStoreError>(done)
        }),
{
    let n = schema_names::MIGRATION_COUNT as int;
    lemma_migrated_rows(s, run, n);
    let done = migrated(s, run, n)->Ok_0;
    assert forall|i: int| 0 <= i < n implies #[trigger] done.migrations[i] == Some(
        migration_record(i + 1, again.scripts[i]),
    ) by {}
    lemma_recorded_migrations_stay(done, again, n);
}

/// A step that runs records its migration and nothing else among the migrations, and seals the
/// catalog that it leaves; the first one installs the keys and the identity that were drawn, and
/// no later one changes them.
pub proof fn law_steps_keep_keys_and_identity(
    s: SchemaView,
    position: int,
    schema_version: i64,
    installs_identity: bool,
    counts_retained: bool,
    run: MigrationRun,
)
    requires
        0 <= position < s.migrations.len(),
    ensures
        ({
            let t = after_step(
                s,
                position,
                MigrationStep::Run { schema_version, installs_identity, counts_retained },
                run,
            );
            &&& t.exists
            &&& t.migrations.len() == s.migrations.len()
            &&& t.migrations[position] == Some(migration_record(position + 1, run.scripts[position]))
            &&& forall|i: int| 0 <= i < s.migrations.len() && i != position ==> #[trigger] t.migrations[i]
                == s.migrations[i]
            &&& installs_identity ==> t.store_id == Some(run.store_id) && t.metadata is Some && t.metadata->0.cursor_key
                == run.cursor_key && t.metadata->0.receipt_key == run.receipt_key
            &&& !installs_identity ==> t.store_id == s.store_id && (t.metadata is Some <==> s.metadata is Some)
            &&& !installs_identity && s.metadata is Some ==> t.metadata->0.cursor_key == s.metadata->0.cursor_key
                && t.metadata->0.receipt_key == s.metadata->0.receipt_key
            &&& t.metadata is Some ==> t.metadata->0.schema_version == schema_version && t.metadata->0.catalog_hash
                == run.catalogs_after[position]
        }),
        after_step(s, position, MigrationStep::Applied, run) == s,
{
}

proof fn lemma_migrated_identity(s: SchemaView, run: MigrationRun, n: int)
    requires
        0 <= n <= s.migrations.len(),
        s.migrations.len() > 0,
        s.migrations[0] is None,
        migrated(s, run, n) is Ok,
    ensures
        n > 0 ==> {
            let t = migrated(s, run, n)->Ok_0;
            &&& t.exists
            &&& t.store_id == Some(run.store_id)
            &&& t.metadata is Some
            &&& t.metadata->0.cursor_key == run.cursor_key
            &&& t.metadata->0.receipt_key == run.receipt_key
        },
    decreases n,
{
    if n > 1 {
        lemma_migrated_identity(s, run, n - 1);
        lemma_migrated_rows(s, run, n - 1);
    } else if n == 1 {
        assert(migrated(s, run, 0) == Ok::<SchemaView, PostgresStoreError>(s));
    }
}

/// A new schema that all migrations accept is there afterwards, under the keys and the identity
/// that were drawn for it, with every migration on record.
pub proof fn law_new_schemas_get_their_identity(s: SchemaView, run: MigrationRun)
    requires
        s.migrations.len() == schema_names::MIGRATION_COUNT,
        s.migrations[0] is None,
        migrated(s, run, schema_names::MIGRATION_COUNT as int) is Ok,
    ensures
        ({
            let t = migrated(s, run, schema_names::MIGRATION_COUNT as int)->Ok_0;
            &&& t.exists
            &&& t.store_id == Some(run.store_id)
            &&& t.metadata is Some
            &&& t.metadata->0.cursor_key == run.cursor_key
            &&& t.metadata->0.receipt_key == run.receipt_key
            &&& forall|i: int| 0 <= i < 9 ==> (#[trigger] t.migrations[i]) is Some
        }),
{
    lemma_migrated_identity(s, run, schema_names::MIGRATION_COUNT as int);
    lemma_migrated_rows(s, run, schema_names::MIGRATION_COUNT as int);
}

/// A schema with every migration on record is refused where one record does not say what
/// its script says.
pub proof fn law_altered_migrations_are_refused(s: SchemaView, run: MigrationRun, altered: int)
    requires
        s.migrations.len() == schema_names::MIGRATION_COUNT,
        forall|i: int| 0 <= i < s.migrations.len() ==> (#[trigger] s.migrations[i]) is Some,
        0 <= altered < s.migrations.len(),
        s.migrations[altered] != Some(migration_record(altered + 1, run.scripts[altered])),
    ensures
        migrated(s, run, schema_names::MIGRATION_COUNT as int) == Err::<SchemaView, PostgresStoreError>(
            PostgresStoreError::InvalidSchema,
        ),
{
    lemma_altered_record_refuses(s, run, altered, schema_names::MIGRATION_COUNT as int);
}

proof fn lemma_altered_record_refuses(s: SchemaView, run: MigrationRun, altered: int, n: int)
    requires
        0 <= n <= s.migrations.len(),
        forall|i: int| 0 <= i < s.migrations.len() ==> (#[trigger] s.migrations[i]) is Some,
        0 <= altered < s.migrations.len(),
        s.migrations[altered] != Some(migration_record(altered + 1, run.scripts[altered])),
    ensures
        match migrated(s, run, n) {
            Ok(t) => t == s && n <= altered,
            Err(e) => e == PostgresStoreError::InvalidSchema,
        },
    decreases n,
{
    if n > 0 {
        lemma_altered_record_refuses(s, run, altered, n - 1);
        assert(s.migrations[n - 1] is Some);
    }
}

/// Records that every migration step left are those that the catalog is validated
/// against.
pub proof fn law_migrated_schemas_validate(rows: Seq<catalog::MigrationRow>, scripts: Seq<String>)
    requires
        rows.len() == schema_names::MIGRATION_COUNT,
        forall|i: int|
            0 <= i < rows.len() ==> {
                let row = #[trigger] rows[i];
                row.revision == i + 1 && row.name@ == schema_names::migration_name_at(i) && (RecordedMigration {
                    schema_version: row.schema_version,
                    checksum: row.checksum@,
                }) == migration_record(i + 1, scripts[i]@)
            },
    ensures
        catalog::migrations_valid(rows, scripts),
{
    assert forall|i: int| 0 <= i < rows.len() implies catalog::migration_valid(#[trigger] rows[i], i, scripts[i]@) by {}
}

/// Which placeholders a migration's script has.
pub open spec fn uses_role(revision: int) -> bool {
    revision != 3
}

/// Which placeholders a migration's script has.
pub open spec fn uses_migrator(revision: int) -> bool {
    revision != 2 && revision != 8
}

/// The script of a migration with the schema, its runtime role and the migrator put
/// in. The migrator stands in a quoted text.
pub open spec fn migration_statement(
    revision: int,
    script: Seq<char>,
    schema: Seq<char>,
    migrator_user: Seq<char>,
) -> Seq<char> {
    let a = text::replaced(script, "__SCHEMA__"@, schema);
    let b = if uses_role(revision) {
        text::replaced(a, "__ROLE__"@, catalog::runtime_role_of(schema))
    } else {
        a
    };
    if uses_migrator(revision) {
        text::replaced(b, "__MIGRATOR__"@, text::replaced(migrator_user, "'"@, "''"@))
    } else {
        b
    }
}

/// Renders the script of a migration.
pub fn render_migration(revision: i64, script: &str, schema: &str, migrator_user: &str) -> (r: String)
    ensures
        r@ == migration_statement(revision as int, script@, schema@, migrator_user@),
{
    proof {
        reveal_strlit("__SCHEMA__");
        reveal_strlit("__ROLE__");
        reveal_strlit("__MIGRATOR__");
        reveal_strlit("'");
    }
    let mut sql = text::replace_text(script, "__SCHEMA__", schema);
    if revision != 3 {
        let role = catalog::runtime_role(schema);
        sql = text::replace_text(sql.as_str(), "__ROLE__", role.as_str());
    }
    if revision != 2 && revision != 8 {
        let quoted = text::replace_text(migrator_user, "'", "''");
        sql = text::replace_text(sql.as_str(), "__MIGRATOR__", quoted.as_str());
    }
    sql
}

/// What a callback policy says of itself.
pub struct CallbackPolicyFacts {
    pub policy_id: String,
    pub policy_revision: u64,
    pub policy_digest: String,
    pub max_configs_per_task: u16,
    pub max_configs_per_tenant: u32,
    pub max_pending: u32,
    pub max_attempts: u16,
    pub max_delivery_age_ms: u64,
    pub enrollments: usize,
}

/// The latest callback policy on record.
pub struct StoredCallbackPolicy {
    pub policy_id: String,
    pub policy_revision: i64,
    pub policy_digest: String,
    pub max_configs_per_task: i32,
    pub max_configs_per_tenant: i64,
    pub max_pending: i64,
    pub max_payload_bytes: i32,
    pub max_attempts: i32,
    pub max_delivery_age_ms: i64,
}

/// Whether a policy on record is word for word the configured one.
pub open spec fn same_callback_policy(row: StoredCallbackPolicy, p: CallbackPolicyFacts) -> bool {
    &&& row.policy_digest@ == p.policy_digest@
    &&& row.max_configs_per_task == p.max_configs_per_task
    &&& row.max_configs_per_tenant == p.max_configs_per_tenant
    &&& row.max_pending == p.max_pending
    &&& row.max_payload_bytes == CALLBACK_PAYLOAD_BYTES
    &&& row.max_attempts == p.max_attempts
    &&& row.max_delivery_age_ms == p.max_delivery_age_ms || (p.max_delivery_age_ms > i64::MAX
        && row.max_delivery_age_ms == -1)
}

/// Whether a configured policy may follow the latest one on record: under the same
/// name, not an earlier revision, and unchanged where it is the same revision.
pub open spec fn callback_policy_follows(latest: Option<StoredCallbackPolicy>, p: CallbackPolicyFacts) -> bool {
    latest matches Some(row) ==> {
        &&& row.policy_id@ == p.policy_id@
        &&& row.policy_revision <= p.policy_revision
        &&& row.policy_revision == p.policy_revision ==> same_callback_policy(row, p)
    }
}

/// A configured callback policy follows the latest one exactly where that has the same name and
/// no later revision, and where it has the same revision says the same in every part.
pub proof fn law_callback_policies_follow_in_order(latest: StoredCallbackPolicy, p: CallbackPolicyFacts)
    ensures
        callback_policy_follows(None, p),
        callback_policy_follows(Some(latest), p) ==> latest.policy_id@ == p.policy_id@ && latest.policy_revision
            <= p.policy_revision,
        latest.policy_id@ == p.policy_id@ && latest.policy_revision < p.policy_revision ==> callback_policy_follows(
            Some(latest),
            p,
        ),
        latest.policy_revision == p.policy_revision && callback_policy_follows(Some(latest), p)
            ==> latest.policy_digest@ == p.policy_digest@ && latest.max_configs_per_task == p.max_configs_per_task
            && latest.max_configs_per_tenant == p.max_configs_per_tenant && latest.max_pending == p.max_pending
            && latest.max_payload_bytes == 262_144 && latest.max_attempts == p.max_attempts && (p.max_delivery_age_ms
            <= i64::MAX ==> latest.max_delivery_age_ms == p.max_delivery_age_ms) && (p.max_delivery_age_ms > i64::MAX
            ==> latest.max_delivery_age_ms == -1),
        latest.policy_id@ == p.policy_id@ && latest.policy_revision == p.policy_revision && latest.policy_digest@
            == p.policy_digest@ && latest.max_configs_per_task == p.max_configs_per_task
            && latest.max_configs_per_tenant == p.max_configs_per_tenant && latest.max_pending == p.max_pending
            && latest.max_payload_bytes == 262_144 && latest.max_attempts == p.max_attempts
            && latest.max_delivery_age_ms == p.max_delivery_age_ms ==> callback_policy_follows(Some(latest), p),
{
}

fn is_same_callback_policy(row: &StoredCallbackPolicy, p: &CallbackPolicyFacts) -> (r: bool)
    ensures
        r == same_callback_policy(*row, *p),
{
    let age: i64 = if p.max_delivery_age_ms <= 0x7fff_ffff_ffff_ffff {
        p.max_delivery_age_ms as i64
    } else {
        -1
    };
    row.policy_digest == p.policy_digest && row.max_configs_per_task == p.max_configs_per_task as i32
        && row.max_configs_per_tenant == p.max_configs_per_tenant as i64 && row.max_pending == p.max_pending as i64
        && row.max_payload_bytes == CALLBACK_PAYLOAD_BYTES && row.max_attempts == p.max_attempts as i32
        && row.max_delivery_age_ms == age
}

fn follows(latest: &Option<StoredCallbackPolicy>, p: &CallbackPolicyFacts) -> (r: bool)
    requires
        p.policy_revision <= i64::MAX,
    ensures
        r == callback_policy_follows(*latest, *p),
{
    match latest {
        None => true,
        Some(row) => {
            let revision: i64 = p.policy_revision as i64;
            row.policy_id == p.policy_id && row.policy_revision <= revision && (row.policy_revision != revision
                || is_same_callback_policy(row, p))
        },
    }
}

/// What is done about the callback policy at startup.
#[derive(Clone, Copy, Debug, PartialEq, Eq, Structural)]
pub enum CallbackReconciliation {
    /// Callbacks are off and always were.
    Off,
    /// The configured policy is looked for at this revision, and installed where it
    /// is not on record.
    Ensure { revision: i64 },
}

/// Decides what is done about the callback policy at startup. `configured` is the
/// policy where callbacks are on; callbacks cannot be turned off again while
/// policies are on record.
pub fn reconcile_callback_policy(
    configured: &Option<CallbackPolicyFacts>,
    stored_policies: i64,
    latest: &Option<StoredCallbackPolicy>,
) -> (r: Result<CallbackReconciliation, PostgresStoreError>)
    ensures
        r == (match *configured {
            None => if stored_policies == 0 {
                Ok::<CallbackReconciliation, PostgresStoreError>(CallbackReconciliation::Off)
            } else {
                Err(PostgresStoreError::InvalidSchema)
            },
            Some(p) => if p.policy_revision > i64::MAX {
                Err(PostgresStoreError::InvalidConfig)
            } else if !callback_policy_follows(*latest, p) {
                Err(PostgresStoreError::InvalidSchema)
            } else {
                Ok(CallbackReconciliation::Ensure { revision: p.policy_revision as i64 })
            },
        }),
        r == Ok::<CallbackReconciliation, PostgresStoreError>(CallbackReconciliation::Off) <==> configured is None
            && stored_policies == 0,
        r is Ok && configured is Some ==> callback_policy_follows(*latest, configured->0) && r->Ok_0->revision
            == configured->0.policy_revision,
{
    match configured {
        None => if stored_policies == 0 {
            Ok(CallbackReconciliation::Off)
        } else {
            Err(PostgresStoreError::InvalidSchema)
        },
        Some(p) => {
            if p.policy_revision > 0x7fff_ffff_ffff_ffff {
                return Err(PostgresStoreError::InvalidConfig);
            }
            if !follows(latest, p) {
                return Err(PostgresStoreError::InvalidSchema);
            }
            Ok(CallbackReconciliation::Ensure { revision: p.policy_revision as i64 })
        },
    }
}

/// Decides under the policy lock whether the configured policy is installed. It is
/// not where another process installed it first.
pub fn install_callback_policy(
    p: &CallbackPolicyFacts,
    latest: &Option<StoredCallbackPolicy>,
) -> (r: Result<bool, PostgresStoreError>)
    requires
        p.policy_revision <= i64::MAX,
    ensures
        r == (if !callback_policy_follows(*latest, *p) {
            Err::<bool, PostgresStoreError>(PostgresStoreError::InvalidSchema)
        } else if latest is Some && latest->0.policy_revision == p.policy_revision {
            Ok(false)
        } else if p.max_delivery_age_ms > i64::MAX {
            Err(PostgresStoreError::InvalidConfig)
        } else {
            Ok(true)
        }),
        r is Ok ==> callback_policy_follows(*latest, *p),
        r == Ok::<bool, PostgresStoreError>(false) ==> latest is Some && latest->0.policy_revision == p.policy_revision,
        latest is None && r is Ok ==> r->Ok_0,
{
    if !follows(latest, p) {
        return Err(PostgresStoreError::InvalidSchema);
    }
    match latest {
        Some(row) => {
            if row.policy_revision == p.policy_revision as i64 {
                return Ok(false);
            }
        },
        None => {},
    }
    if p.max_delivery_age_ms > 0x7fff_ffff_ffff_ffff {
        return Err(PostgresStoreError::InvalidConfig);
    }
    Ok(true)
}

/// Whether startup may go on after a policy was installed: a live lease on an
/// enrollment that was removed holds it up.
pub fn removed_enrollments_drained(live_removed_lease: bool) -> (r: Result<(), PostgresStoreError>)
    ensures
        r == (if live_removed_lease {
            Err::<(), PostgresStoreError>(PostgresStoreError::Initialization)
        } else {
            Ok(())
        }),
{
    if live_removed_lease {
        Err(PostgresStoreError::Initialization)
    } else {
        Ok(())
    }
}

/// Whether the enrollments on record are as many as the policy has.
pub fn enrollments_complete(p: &CallbackPolicyFacts, stored: i64, accepted: bool) -> (r: Result<
    (),
    PostgresStoreError,
>)
    ensures
        r == (if p.enrollments > i64::MAX {
            Err::<(), PostgresStoreError>(PostgresStoreError::InvalidConfig)
        } else if stored != p.enrollments || !accepted {
            Err(PostgresStoreError::InvalidSchema)
        } else {
            Ok(())
        }),
        r is Ok ==> stored == p.enrollments && accepted,
{
    if p.enrollments as u64 > 0x7fff_ffff_ffff_ffff {
        return Err(PostgresStoreError::InvalidConfig);
    }
    if stored != p.enrollments as i64 || !accepted {
        return Err(PostgresStoreError::InvalidSchema);
    }
    Ok(())
}

/// The latest quota policy of a tenant on record; `readable` tells whether its
/// canonical text can be read.
pub struct StoredQuotaPolicy {
    pub policy_id: String,
    pub revision: i64,
    pub digest: String,
    pub readable: bool,
}

/// A plan that drains usage above lowered limits: when it takes effect, and whether
/// it authorizes every limit that is lowered.
#[derive(Clone, Copy, Debug, PartialEq, Eq, Structural)]
pub struct ReconciliationPlan {
    pub effective_at: i64,
    pub authorizes_all: bool,
}

/// What is done about a tenant's quota policy.
#[derive(Clone, Copy, Debug, PartialEq, Eq, Structural)]
pub enum QuotaReconciliation {
    /// The configured policy is on record.
    Current,
    /// The configured policy replaces the one on record; the change is audited where
    /// it lowers limits.
    Replace { audited: bool },
}

/// Decides what is done about a tenant's quota policy. A policy that lowers limits
/// needs a plan that is in effect and names each of them.
pub fn reconcile_quota_policy(
    stored: &StoredQuotaPolicy,
    configured: &PolicyIdentity,
    lowers_limits: bool,
    plan: &Option<ReconciliationPlan>,
    now: i64,
) -> (r: Result<QuotaReconciliation, PostgresStoreError>)
    ensures
        r == (if configured.revision > i64::MAX || stored.policy_id@ != configured.policy_id@ || configured.revision
            < stored.revision {
            Err::<QuotaReconciliation, PostgresStoreError>(PostgresStoreError::InvalidSchema)
        } else if configured.revision == stored.revision {
            if stored.digest@ == configured.digest@ {
                Ok(QuotaReconciliation::Current)
            } else {
                Err(PostgresStoreError::InvalidSchema)
            }
        } else if !stored.readable {
            Err(PostgresStoreError::InvalidSchema)
        } else if lowers_limits && !(plan is Some && plan->0.effective_at <= now && plan->0.authorizes_all) {
            Err(PostgresStoreError::ReconciliationRequired)
        } else {
            Ok(QuotaReconciliation::Replace { audited: lowers_limits })
        }),
        r == Ok::<QuotaReconciliation, PostgresStoreError>(QuotaReconciliation::Current) ==> configured.revision
            == stored.revision && configured.digest@ == stored.digest@ && configured.policy_id@ == stored.policy_id@,
        r matches Ok(QuotaReconciliation::Replace { audited }) ==> configured.revision > stored.revision
            && configured.policy_id@ == stored.policy_id@ && stored.readable && audited == lowers_limits && (
        lowers_limits ==> *plan is Some && plan->0.authorizes_all && plan->0.effective_at <= now),
        r == Err::<QuotaReconciliation, PostgresStoreError>(PostgresStoreError::ReconciliationRequired) ==> lowers_limits
            && configured.revision > stored.revision,
        configured.revision > stored.revision && configured.revision <= i64::MAX && configured.policy_id@ == stored.policy_id@
            && stored.readable && !lowers_limits ==> r is Ok,
{
    if configured.revision > 0x7fff_ffff_ffff_ffff {
        return Err(PostgresStoreError::InvalidSchema);
    }
    let revision: i64 = configured.revision as i64;
    if stored.policy_id != configured.policy_id || revision < stored.revision {
        return Err(PostgresStoreError::InvalidSchema);
    }
    if revision == stored.revision {
        if stored.digest == configured.digest {
            return Ok(QuotaReconciliation::Current);
        }
        return Err(PostgresStoreError::InvalidSchema);
    }
    if !stored.readable {
        return Err(PostgresStoreError::InvalidSchema);
    }
    if lowers_limits {
        let planned = match plan {
            Some(p) => p.effective_at <= now && p.authorizes_all,
            None => false,
        };
        if !planned {
            return Err(PostgresStoreError::ReconciliationRequired);
        }
    }
    Ok(QuotaReconciliation::Replace { audited: lowers_limits })
}

/// The stored name of a dimension.
pub open spec fn dimension_text(d: QuotaDimension) -> Seq<char> {
    match d {
        QuotaDimension::RequestCount => "requestCount"@,
        QuotaDimension::ConcurrentActiveWork => "concurrentActiveWork"@,
        QuotaDimension::InputBytes => "inputBytes"@,
        QuotaDimension::OutputBytes => "outputBytes"@,
        QuotaDimension::EventCount => "eventCount"@,
        QuotaDimension::ConcurrentStreams => "concurrentStreams"@,
        QuotaDimension::ConcurrentSubscriptions => "concurrentSubscriptions"@,
        QuotaDimension::ReconnectCount => "reconnectCount"@,
        QuotaDimension::RetainedAuthorityBytes => "retainedAuthorityBytes"@,
    }
}

/// The stored name of a dimension.
pub fn quota_dimension_name(d: QuotaDimension) -> (r: &'static str)
    ensures
        r@ == dimension_text(d),
{
    match d {
        QuotaDimension::RequestCount => "requestCount",
        QuotaDimension::ConcurrentActiveWork => "concurrentActiveWork",
        QuotaDimension::InputBytes => "inputBytes",
        QuotaDimension::OutputBytes => "outputBytes",
        QuotaDimension::EventCount => "eventCount",
        QuotaDimension::ConcurrentStreams => "concurrentStreams",
        QuotaDimension::ConcurrentSubscriptions => "concurrentSubscriptions",
        QuotaDimension::ReconnectCount => "reconnectCount",
        QuotaDimension::RetainedAuthorityBytes => "retainedAuthorityBytes",
    }
}

/// Reads the stored name of a dimension.
pub fn quota_dimension_from_str(value: &str) -> (r: Option<QuotaDimension>)
    ensures
        match r {
            Some(d) => value@ == dimension_text(d),
            None => forall|d: QuotaDimension| value@ != #[trigger] dimension_text(d),
        },
{
    if text::same_text(value, "requestCount") {
        Some(QuotaDimension::RequestCount)
    } else if text::same_text(value, "concurrentActiveWork") {
        Some(QuotaDimension::ConcurrentActiveWork)
    } else if text::same_text(value, "inputBytes") {
        Some(QuotaDimension::InputBytes)
    } else if text::same_text(value, "outputBytes") {
        Some(QuotaDimension::OutputBytes)
    } else if text::same_text(value, "eventCount") {
        Some(QuotaDimension::EventCount)
    } else if text::same_text(value, "concurrentStreams") {
        Some(QuotaDimension::ConcurrentStreams)
    } else if text::same_text(value, "concurrentSubscriptions") {
        Some(QuotaDimension::ConcurrentSubscriptions)
    } else if text::same_text(value, "reconnectCount") {
        Some(QuotaDimension::ReconnectCount)
    } else if text::same_text(value, "retainedAuthorityBytes") {
        Some(QuotaDimension::RetainedAuthorityBytes)
    } else {
        None
    }
}

/// Dimensions have distinct names, so a name reads back as the dimension it was
/// written for.
pub proof fn law_dimension_names_are_distinct(a: QuotaDimension, b: QuotaDimension)
    requires
        dimension_text(a) == dimension_text(b),
    ensures
        a == b,
{
    reveal_strlit("requestCount");
    reveal_strlit("concurrentActiveWork");
    reveal_strlit("inputBytes");
    reveal_strlit("outputBytes");
    reveal_strlit("eventCount");
    reveal_strlit("concurrentStreams");
    reveal_strlit("concurrentSubscriptions");
    reveal_strlit("reconnectCount");
    reveal_strlit("retainedAuthorityBytes");
    assert("requestCount"@.len() == 12);
    assert("concurrentActiveWork"@.len() == 20);
    assert("inputBytes"@.len() == 10);
    assert("eventCount"@.len() == 10);
    assert("outputBytes"@.len() == 11);
    assert("concurrentStreams"@.len() == 17);
    assert("concurrentSubscriptions"@.len() == 23);
    assert("reconnectCount"@.len() == 14);
    assert("retainedAuthorityBytes"@.len() == 22);
    assert("inputBytes"@[0] == 'i');
    assert("eventCount"@[0] == 'e');
}

/// The stored name of a scope.
pub open spec fn scope_text(s: QuotaScopeKind) -> Seq<char> {
    match s {
        QuotaScopeKind::Tenant => "tenant"@,
        QuotaScopeKind::Account => "account"@,
        QuotaScopeKind::Principal => "principal"@,
    }
}

/// The three scopes are stored under names of their own.
pub proof fn law_scope_names_are_distinct(a: QuotaScopeKind, b: QuotaScopeKind)
    ensures
        scope_text(a) == scope_text(b) <==> a == b,
        scope_text(QuotaScopeKind::Tenant).len() == 6,
        scope_text(QuotaScopeKind::Account).len() == 7,
        scope_text(QuotaScopeKind::Principal).len() == 9,
{
    reveal_strlit("tenant");
    reveal_strlit("account");
    reveal_strlit("principal");
    assert("tenant"@.len() == 6);
    assert("account"@.len() == 7);
    assert("principal"@.len() == 9);
}

/// The stored name of a scope.
pub fn quota_scope_name(s: QuotaScopeKind) -> (r: &'static str)
    ensures
        r@ == scope_text(s),
{
    match s {
        QuotaScopeKind::Tenant => "tenant",
        QuotaScopeKind::Account => "account",
        QuotaScopeKind::Principal => "principal",
    }
}

/// Reads the stored name of a scope.
pub fn quota_scope_from_str(value: &str) -> (r: Option<QuotaScopeKind>)
    ensures
        match r {
            Some(s) => value@ == scope_text(s),
            None => forall|s: QuotaScopeKind| value@ != #[trigger] scope_text(s),
        },
{
    if text::same_text(value, "tenant") {
        Some(QuotaScopeKind::Tenant)
    } else if text::same_text(value, "account") {
        Some(QuotaScopeKind::Account)
    } else if text::same_text(value, "principal") {
        Some(QuotaScopeKind::Principal)
    } else {
        None
    }
}

/// Whether pairs of names are those of lowered limits.
pub open spec fn names_limits(
    names: Seq<(String, String)>,
    lowered: Seq<(QuotaScopeKind, QuotaDimension)>,
) -> bool {
    &&& names.len() == lowered.len()
    &&& forall|i: int|
        0 <= i < lowered.len() ==> (#[trigger] names[i]).0@ == scope_text(lowered[i].0) && names[i].1@
            == dimension_text(lowered[i].1)
}

fn limit_names(lowered: &Vec<(QuotaScopeKind, QuotaDimension)>) -> (r: Vec<(String, String)>)
    ensures
        names_limits(r@, lowered@),
{
    let mut out: Vec<(String, String)> = Vec::new();
    let mut i: usize = 0;
    while i < lowered.len()
        invariant
            i <= lowered@.len(),
            out@.len() == i,
            forall|j: int|
                0 <= j < i ==> (#[trigger] out@[j]).0@ == scope_text(lowered@[j].0) && out@[j].1@ == dimension_text(
                    lowered@[j].1,
                ),
        decreases lowered@.len() - i,
    {
        let ghost before = out@;
        out.push((quota_scope_name(lowered[i].0).to_owned(), quota_dimension_name(lowered[i].1).to_owned()));
        assert forall|j: int| 0 <= j < i + 1 implies (#[trigger] out@[j]).0@ == scope_text(lowered@[j].0) && out@[j].1@
            == dimension_text(lowered@[j].1) by {
            if j < i {
                assert(out@[j] == before[j]);
            }
        }
        i += 1;
    }
    out
}

/// Who lowers limits, why, and from when on.
pub struct PlanOrigin {
    pub actor: String,
    pub reason: String,
    pub effective_at: i64,
}

/// Records that a policy which lowers limits replaces another. What is recorded is a
/// valid record: its identity seals everything it says.
pub fn audit_reconciliation(
    tenant: &str,
    old_digest: &str,
    new_digest: &str,
    lowered: &Vec<(QuotaScopeKind, QuotaDimension)>,
    origin: &PlanOrigin,
) -> (r: Result<ReconciliationRecord, PostgresStoreError>)
    ensures
        r matches Ok(record) && {
            &&& record.tenant_scope@ == tenant@
            &&& record.old_policy_digest@ == old_digest@
            &&& record.new_policy_digest@ == new_digest@
            &&& record.actor_digest@ == crypto::content_digest_of(text::utf8(origin.actor@))
            &&& record.reason_digest@ == crypto::content_digest_of(text::utf8(origin.reason@))
            &&& record.effective_at == origin.effective_at
            &&& exists|names: Seq<(String, String)>|
                #[trigger] names_limits(names, lowered@) && record.targets@ == json::json_pairs(names)
            &&& semantics::reconciliation_valid(record)
        },
{
    let names = limit_names(lowered);
    let targets = match json::json_pairs_text(&names) {
        Some(targets) => targets,
        None => {
            return Err(PostgresStoreError::InvalidSchema);
        },
    };
    let mut record = ReconciliationRecord {
        tenant_scope: tenant.to_owned(),
        reconciliation_id: String::new(),
        old_policy_digest: old_digest.to_owned(),
        new_policy_digest: new_digest.to_owned(),
        actor_digest: crypto::text_digest(origin.actor.as_str()),
        reason_digest: crypto::text_digest(origin.reason.as_str()),
        targets,
        effective_at: origin.effective_at,
    };
    record.reconciliation_id = semantics::reconciliation_id(&record);
    assert(names_limits(names@, lowered@));
    Ok(record)
}

/// A bucket of a replaced policy.
pub struct OldBucket {
    pub dimension: QuotaDimension,
    pub operation: String,
    pub token_bucket: bool,
    pub used: i64,
    pub available: Option<i64>,
}

/// What a bucket carries over to the policy that replaces its own.
#[derive(Clone, Copy, Debug, PartialEq, Eq, Structural)]
pub struct CarriedBucket {
    pub capacity: i64,
    pub used: i64,
    pub available: Option<i64>,
}

/// Whether a bucket counts live work, which is counted anew.
pub open spec fn counts_live_work(b: OldBucket) -> bool {
    ||| b.dimension == QuotaDimension::ConcurrentActiveWork
    ||| b.dimension == QuotaDimension::ConcurrentStreams
    ||| b.dimension == QuotaDimension::ConcurrentSubscriptions
    ||| (b.dimension == QuotaDimension::OutputBytes || b.dimension == QuotaDimension::EventCount) && (b.operation@
        == "taskCreate"@ || b.operation@ == "taskContinue"@)
}

/// The tokens that are left under a limit.
pub open spec fn kept_tokens(available: Option<i64>, capacity: int) -> Option<i64> {
    match available {
        None => None,
        Some(v) => if v <= capacity {
            Some(v)
        } else {
            Some(capacity as i64)
        },
    }
}

/// What a bucket carries over under a limit, or why the policy cannot be replaced.
pub open spec fn carried_bucket(b: OldBucket, limit: u64) -> Result<Option<CarriedBucket>, PostgresStoreError> {
    if counts_live_work(b) {
        Ok(None)
    } else if limit > i64::MAX || (b.token_bucket && b.available is None) {
        Err(PostgresStoreError::InvalidSchema)
    } else {
        let available = kept_tokens(b.available, limit as int);
        let used: int = if b.token_bucket {
            limit - available->0
        } else {
            b.used as int
        };
        if used > limit {
            Err(PostgresStoreError::ReconciliationRequired)
        } else {
            Ok(Some(CarriedBucket { capacity: limit as i64, used: used as i64, available }))
        }
    }
}

/// Carries a bucket over to the policy that replaces its own. Usage is never
/// forgotten: one that is over the new limit stops the change.
pub fn carry_bucket(b: &OldBucket, limit: u64) -> (r: Result<Option<CarriedBucket>, PostgresStoreError>)
    ensures
        r == carried_bucket(*b, limit),
{
    let live = b.dimension == QuotaDimension::ConcurrentActiveWork || b.dimension
        == QuotaDimension::ConcurrentStreams || b.dimension == QuotaDimension::ConcurrentSubscriptions;
    let execution = (b.dimension == QuotaDimension::OutputBytes || b.dimension == QuotaDimension::EventCount) && (
    text::same_text(b.operation.as_str(), "taskCreate") || text::same_text(b.operation.as_str(), "taskContinue"));
    if live || execution {
        return Ok(None);
    }
    if limit > 0x7fff_ffff_ffff_ffff {
        return Err(PostgresStoreError::InvalidSchema);
    }
    let capacity: i64 = limit as i64;
    let available: Option<i64> = match b.available {
        None => None,
        Some(v) => if v <= capacity {
            Some(v)
        } else {
            Some(capacity)
        },
    };
    let used: i64 = if b.token_bucket {
        match available {
            Some(v) => {
                if v < 0 {
                    return Err(PostgresStoreError::ReconciliationRequired);
                }
                capacity - v
            },
            None => {
                return Err(PostgresStoreError::InvalidSchema);
            },
        }
    } else {
        b.used
    };
    if used > capacity {
        return Err(PostgresStoreError::ReconciliationRequired);
    }
    Ok(Some(CarriedBucket { capacity, used, available }))
}

/// A carried token bucket has exactly what it had, up to its new capacity.
pub proof fn law_carried_tokens_balance(b: OldBucket, limit: u64)
    requires
        b.token_bucket,
        carried_bucket(b, limit) matches Ok(Some(_)),
    ensures
        carried_bucket(b, limit)->Ok_0->0.used + carried_bucket(b, limit)->Ok_0->0.available->0 == limit,
        0 <= carried_bucket(b, limit)->Ok_0->0.available->0 <= b.available->0,
{
}

/// What counts live work is counted anew: active work, streams and subscriptions, and the output
/// and events of tasks that are created or continued. Nothing of it is carried over.
pub proof fn law_live_work_is_counted_anew(b: OldBucket, limit: u64)
    ensures
        b.dimension == QuotaDimension::ConcurrentActiveWork || b.dimension == QuotaDimension::ConcurrentStreams
            || b.dimension == QuotaDimension::ConcurrentSubscriptions ==> carried_bucket(b, limit) == Ok::<
            Option<CarriedBucket>,
            PostgresStoreError,
        >(None),
        (b.dimension == QuotaDimension::OutputBytes || b.dimension == QuotaDimension::EventCount) && (b.operation@
            == "taskCreate"@ || b.operation@ == "taskContinue"@) ==> carried_bucket(b, limit) == Ok::<
            Option<CarriedBucket>,
            PostgresStoreError,
        >(None),
        b.dimension == QuotaDimension::RequestCount || b.dimension == QuotaDimension::InputBytes || b.dimension
            == QuotaDimension::ReconnectCount || b.dimension == QuotaDimension::RetainedAuthorityBytes
            ==> !(carried_bucket(b, limit) matches Ok(None)),
{
}

/// A bucket that counts usage is carried over with all of it, exactly where it is within the new
/// limit, which becomes its capacity. A token bucket keeps its tokens up to the new limit.
pub proof fn law_usage_is_carried_over(b: OldBucket, limit: u64)
    requires
        b.dimension == QuotaDimension::RequestCount || b.dimension == QuotaDimension::InputBytes,
        limit <= i64::MAX,
    ensures
        !b.token_bucket && b.used <= limit ==> (carried_bucket(b, limit) matches Ok(Some(c)) && c.used == b.used
            && c.capacity == limit),
        !b.token_bucket && b.used > limit ==> carried_bucket(b, limit) == Err::<
            Option<CarriedBucket>,
            PostgresStoreError,
        >(PostgresStoreError::ReconciliationRequired),
        b.token_bucket && b.available is None ==> carried_bucket(b, limit) == Err::<
            Option<CarriedBucket>,
            PostgresStoreError,
        >(PostgresStoreError::InvalidSchema),
        b.token_bucket && b.available is Some && 0 <= b.available->0 <= limit ==> (carried_bucket(b, limit) matches Ok(
            Some(c),
        ) && c.available == b.available && c.used == limit - b.available->0 && c.capacity == limit),
        b.token_bucket && b.available is Some && b.available->0 > limit ==> (carried_bucket(b, limit) matches Ok(
            Some(c),
        ) && c.available is Some && c.available->0 == limit && c.used == 0 && c.capacity == limit),
{
}

/// Whether a lowered limit on retained bytes may take effect.
pub fn retained_within_limit(any_over: bool) -> (r: Result<(), PostgresStoreError>)
    ensures
        r == (if any_over {
            Err::<(), PostgresStoreError>(PostgresStoreError::ReconciliationRequired)
        } else {
            Ok(())
        }),
{
    if any_over {
        Err(PostgresStoreError::ReconciliationRequired)
    } else {
        Ok(())
    }
}

/// What a scope retains: its records, its artifacts and its callbacks.
pub fn callback_retained_oracle_total(base: i64, artifact: i64, callback: i64) -> (r: Result<i64, PostgresStoreError>)
    ensures
        match r {
            Ok(n) => n == base + artifact + callback,
            Err(e) => e == PostgresStoreError::InvalidSchema && !(i64::MIN <= base + artifact <= i64::MAX && i64::MIN
                <= base + artifact + callback <= i64::MAX),
        },
        i64::MIN <= base + artifact <= i64::MAX && i64::MIN <= base + artifact + callback <= i64::MAX ==> r is Ok,
{
    match base.checked_add(artifact) {
        None => Err(PostgresStoreError::InvalidSchema),
        Some(sum) => match sum.checked_add(callback) {
            None => Err(PostgresStoreError::InvalidSchema),
            Some(total) => Ok(total),
        },
    }
}

/// Whether a text is among texts.
pub open spec fn among(items: Seq<String>, value: Seq<char>) -> bool {
    exists|i: int| 0 <= i < items.len() && (#[trigger] items[i])@ == value
}

fn is_among(items: &Vec<String>, value: &str) -> (r: bool)
    ensures
        r == among(items@, value@),
{
    let mut i: usize = 0;
    while i < items.len()
        invariant
            i <= items@.len(),
            forall|j: int| 0 <= j < i ==> (#[trigger] items@[j])@ != value@,
        decreases items@.len() - i,
    {
        if text::same_text(items[i].as_str(), value) {
            return true;
        }
        i += 1;
    }
    false
}

/// Whether texts are pairwise different.
pub open spec fn pairwise_distinct(items: Seq<String>) -> bool {
    forall|i: int, j: int| 0 <= i < j < items.len() ==> (#[trigger] items[i])@ != (#[trigger] items[j])@
}

/// The scopes whose retained bytes are counted anew: each that is named anywhere,
/// once.
pub fn retained_scopes(named: &Vec<String>) -> (r: Vec<String>)
    ensures
        pairwise_distinct(r@),
        forall|value: Seq<char>| #[trigger] among(r@, value) <==> among(named@, value),
{
    let mut out: Vec<String> = Vec::new();
    let mut i: usize = 0;
    while i < named.len()
        invariant
            i <= named@.len(),
            pairwise_distinct(out@),
            forall|j: int| 0 <= j < out@.len() ==> among(named@, (#[trigger] out@[j])@),
            forall|j: int| 0 <= j < i ==> among(out@, (#[trigger] named@[j])@),
        decreases named@.len() - i,
    {
        if !is_among(&out, named[i].as_str()) {
            let ghost before = out@;
            out.push(named[i].clone());
            proof {
                assert forall|j: int| 0 <= j < i implies among(out@, (#[trigger] named@[j])@) by {
                    assert(among(before, named@[j]@));
                    let k = choose|k: int| 0 <= k < before.len() && (#[trigger] before[k])@ == named@[j]@;
                    assert(out@[k]@ == named@[j]@);
                }
                assert(out@[before.len() as int]@ == named@[i as int]@);
                assert(among(out@, named@[i as int]@));
                assert forall|j: int| 0 <= j < out@.len() implies among(named@, (#[trigger] out@[j])@) by {
                    if j == before.len() {
                        assert(named@[i as int]@ == out@[j]@);
                    } else {
                        assert(out@[j] == before[j]);
                    }
                }
            }
        }
        i += 1;
    }
    proof {
        assert forall|value: Seq<char>| #[trigger] among(out@, value) <==> among(named@, value) by {
            if among(out@, value) {
                let k = choose|k: int| 0 <= k < out@.len() && (#[trigger] out@[k])@ == value;
                assert(among(named@, out@[k]@));
            }
            if among(named@, value) {
                let k = choose|k: int| 0 <= k < named@.len() && (#[trigger] named@[k])@ == value;
                assert(among(out@, named@[k]@));
            }
        }
    }
    out
}

/// Whether a keyring may be used: it must hold every generation that an object or
/// a sealed backup still needs. `held` tells for each needed one whether it does.
pub fn keyring_complete(held: &Vec<bool>, missing: PostgresStoreError) -> (r: Result<(), PostgresStoreError>)
    ensures
        r == (if forall|i: int| 0 <= i < held@.len() ==> #[trigger] held@[i] {
            Ok::<(), PostgresStoreError>(())
        } else {
            Err(missing)
        }),
{
    let mut i: usize = 0;
    while i < held.len()
        invariant
            i <= held@.len(),
            forall|j: int| 0 <= j < i ==> #[trigger] held@[j],
        decreases held@.len() - i,
    {
        if !held[i] {
            assert(!held@[i as int]);
            return Err(missing);
        }
        i += 1;
    }
    Ok(())
}

/// A keyring holds every key generation that is needed.
pub open spec fn covers(keyring: Seq<String>, needed: Seq<String>) -> bool {
    forall|i: int| 0 <= i < needed.len() ==> among(keyring, (#[trigger] needed[i])@)
}

fn holds_all(keyring: &Vec<String>, needed: &Vec<String>) -> (r: bool)
    ensures
        r == covers(keyring@, needed@),
{
    let mut i: usize = 0;
    while i < needed.len()
        invariant
            i <= needed@.len(),
            forall|j: int| 0 <= j < i ==> among(keyring@, (#[trigger] needed@[j])@),
        decreases needed@.len() - i,
    {
        if !is_among(keyring, needed[i].as_str()) {
            assert(!among(keyring@, needed@[i as int]@));
            return false;
        }
        i += 1;
    }
    true
}

/// Replaces the keyring of a running store, told by the generations that it holds,
/// with the one that was read from its file. A store without a keyring has none to
/// replace. The file must be readable and hold every generation that an object or
/// a sealed backup still needs; otherwise the keyring in use stays.
pub fn reload_artifact_keyring(
    keyring: &mut Option<Vec<String>>,
    candidate: Option<Vec<String>>,
    needed: &Vec<String>,
) -> (r: Result<(), PostgresStoreError>)
    ensures
        r is Ok <==> *old(keyring) is Some && candidate is Some && covers(candidate->0@, needed@),
        r matches Err(e) ==> e == PostgresStoreError::InvalidConfig && *final(keyring) == *old(keyring),
        r is Ok ==> *final(keyring) == candidate,
{
    if keyring.is_none() {
        return Err(PostgresStoreError::InvalidConfig);
    }
    match candidate {
        Some(held) => {
            if !holds_all(&held, needed) {
                return Err(PostgresStoreError::InvalidConfig);
            }
            *keyring = Some(held);
            Ok(())
        },
        None => Err(PostgresStoreError::InvalidConfig),
    }
}

/// How the authority is reached, once its configuration has been accepted.
pub struct OpenPlan {
    pub plaintext: bool,
    pub runtime_user: String,
    pub runtime_options: String,
}

/// What was read of a configuration's two URLs: their parts, and whether the driver can
/// be configured by both.
pub struct UrlFindings {
    pub migrator: Option<UrlParts>,
    pub runtime: Option<UrlParts>,
    pub connectable: bool,
}

/// Why a configuration cannot be opened, given the parts of its two URLs and whether the
/// driver can be configured by both.
pub open spec fn open_fault(
    config: PostgresStoreConfig,
    migrator: Option<weburl::UrlView>,
    runtime: Option<weburl::UrlView>,
    connectable: bool,
) -> Option<PostgresStoreError> {
    if config.trust_injected_time && !config.test_only_insecure_loopback {
        Some(PostgresStoreError::InvalidConfig)
    } else {
        match store_config::transport_policy(migrator, runtime, config.test_only_insecure_loopback) {
            Err(e) => Some(e),
            Ok(_) => if connectable && store_config::identifier_valid(runtime->0.username) {
                None
            } else {
                Some(PostgresStoreError::InvalidConfig)
            },
        }
    }
}

/// Whether a plan is the one that a configuration which can be opened is opened by.
pub open spec fn plan_of(
    plan: OpenPlan,
    config: PostgresStoreConfig,
    migrator: Option<weburl::UrlView>,
    runtime: Option<weburl::UrlView>,
) -> bool {
    &&& store_config::transport_policy(migrator, runtime, config.test_only_insecure_loopback) == Ok::<
        bool,
        PostgresStoreError,
    >(plan.plaintext)
    &&& plan.runtime_user@ == runtime->0.username
    &&& plan.runtime_options@ == "-c role="@ + catalog::runtime_role_of(config.schema@)
}

/// Decides how the authority is reached, from what was read of its two URLs. Every
/// connection enters the runtime role of the schema.
pub fn open_with_findings(config: &PostgresStoreConfig, found: &UrlFindings) -> (r: Result<OpenPlan, PostgresStoreError>)
    ensures
        ({
            let migrator = store_config::parts_view(found.migrator);
            let runtime = store_config::parts_view(found.runtime);
            match r {
                Err(e) => open_fault(*config, migrator, runtime, found.connectable) == Some(e),
                Ok(plan) => open_fault(*config, migrator, runtime, found.connectable) is None && plan_of(
                    plan,
                    *config,
                    migrator,
                    runtime,
                ),
            }
        }),
{
    if config.trust_injected_time && !config.test_only_insecure_loopback {
        return Err(PostgresStoreError::InvalidConfig);
    }
    let plaintext = match store_config::validate_tls(
        &found.migrator,
        &found.runtime,
        config.test_only_insecure_loopback,
    ) {
        Ok(plaintext) => plaintext,
        Err(e) => {
            return Err(e);
        },
    };
    if !found.connectable {
        return Err(PostgresStoreError::InvalidConfig);
    }
    match &found.runtime {
        None => Err(PostgresStoreError::InvalidConfig),
        Some(parts) => {
            if !store_config::valid_identifier(parts.username.as_str()) {
                return Err(PostgresStoreError::InvalidConfig);
            }
            let mut runtime_options = "-c role=".to_owned();
            runtime_options.append(catalog::runtime_role(config.schema.as_str()).as_str());
            Ok(OpenPlan { plaintext, runtime_user: parts.username.clone(), runtime_options })
        },
    }
}

/// Whether the driver can be configured by both URLs of a configuration.
pub open spec fn connectable(config: PostgresStoreConfig) -> bool {
    weburl::connection_readable_of(config.migrator_url@) && weburl::connection_readable_of(config.runtime_url@)
}

/// Decides how the authority is reached. A configuration that the driver does not read
/// is refused before anything is connected to.
pub fn open(config: &PostgresStoreConfig) -> (r: Result<OpenPlan, PostgresStoreError>)
    ensures
        ({
            let migrator = weburl::url_parsed(config.migrator_url@);
            let runtime = weburl::url_parsed(config.runtime_url@);
            match r {
                Err(e) => open_fault(*config, migrator, runtime, connectable(*config)) == Some(e),
                Ok(plan) => open_fault(*config, migrator, runtime, connectable(*config)) is None && plan_of(
                    plan,
                    *config,
                    migrator,
                    runtime,
                ),
            }
        }),
{
    let found = UrlFindings {
        migrator: weburl::parse_url(config.migrator_url.as_str()),
        runtime: weburl::parse_url(config.runtime_url.as_str()),
        connectable: weburl::connection_readable(config.migrator_url.as_str()) && weburl::connection_readable(
            config.runtime_url.as_str(),
        ),
    };
    open_with_findings(config, &found)
}

/// A configuration is opened only where injected time stays behind the loopback escape hatch,
/// its two URLs pass the transport policy, the driver reads both and the runtime user has a name
/// that can stand in a statement.
pub proof fn law_opened_configurations_are_connectable(
    config: PostgresStoreConfig,
    migrator: Option<weburl::UrlView>,
    runtime: Option<weburl::UrlView>,
    connectable: bool,
)
    ensures
        open_fault(config, migrator, runtime, connectable) is None <==> (config.trust_injected_time
            ==> config.test_only_insecure_loopback) && store_config::transport_policy(
            migrator,
            runtime,
            config.test_only_insecure_loopback,
        ) is Ok && connectable && store_config::identifier_valid(runtime->0.username),
        config.trust_injected_time && !config.test_only_insecure_loopback ==> open_fault(
            config,
            migrator,
            runtime,
            connectable,
        ) == Some(PostgresStoreError::InvalidConfig),
        (config.trust_injected_time ==> config.test_only_insecure_loopback) && store_config::transport_policy(
            migrator,
            runtime,
            config.test_only_insecure_loopback,
        ) is Err ==> open_fault(config, migrator, runtime, connectable) == Some(
            store_config::transport_policy(migrator, runtime, config.test_only_insecure_loopback)->Err_0,
        ),
        (config.trust_injected_time ==> config.test_only_insecure_loopback) && store_config::transport_policy(
            migrator,
            runtime,
            config.test_only_insecure_loopback,
        ) is Ok && (!connectable || !store_config::identifier_valid(runtime->0.username)) ==> open_fault(
            config,
            migrator,
            runtime,
            connectable,
        ) == Some(PostgresStoreError::InvalidConfig),
{
}

/// Every connection of the runtime user enters the runtime role of the schema.
pub proof fn law_runtime_connections_enter_their_role(
    plan: OpenPlan,
    config: PostgresStoreConfig,
    migrator: Option<weburl::UrlView>,
    runtime: Option<weburl::UrlView>,
)
    requires
        plan_of(plan, config, migrator, runtime),
    ensures
        plan.runtime_user@ == runtime->0.username,
        ({
            let role = catalog::runtime_role_of(config.schema@);
            let options = plan.runtime_options@;
            &&& options.len() == role.len() + 8
            &&& options.subrange(8, options.len() as int) == role
        }),
{
    reveal_strlit("-c role=");
    let role = catalog::runtime_role_of(config.schema@);
    assert(plan.runtime_options@.subrange(8, plan.runtime_options@.len() as int) =~= role);
}

/// Injected time is trusted only behind the loopback escape hatch.
pub proof fn law_injected_time_needs_loopback(
    config: PostgresStoreConfig,
    migrator: Option<weburl::UrlView>,
    runtime: Option<weburl::UrlView>,
    connectable: bool,
)
    requires
        open_fault(config, migrator, runtime, connectable) is None,
        config.trust_injected_time,
    ensures
        config.test_only_insecure_loopback,
{
}

/// How many bytes a scope retains: as it is materialized and as it is counted.
#[derive(Clone, Copy, Debug, PartialEq, Eq, Structural)]
pub struct RetainedCount {
    pub materialized: i64,
    pub counted: i64,
}

/// Whether a materialized count is right.
pub open spec fn retained_right(c: RetainedCount) -> bool {
    c.materialized >= 0 && c.materialized == c.counted
}

/// An active quota policy of a tenant on record.
pub struct ActivePolicy {
    pub policy_id: String,
    pub revision: i64,
    pub digest: String,
}

/// What is on record for one tenant when the authority is opened.
pub struct TenantImage {
    pub restore_incomplete: bool,
    pub retained: RetainedCount,
    pub accounts: Vec<RetainedCount>,
    pub principals: Vec<RetainedCount>,
    pub active_policies: Vec<ActivePolicy>,
    pub records: AuthorityImage,
}

/// Whether the active policies of a tenant are none or the configured one alone.
pub open spec fn policies_agree(active: Seq<ActivePolicy>, configured: Option<PolicyIdentity>) -> bool {
    configured matches Some(p) ==> (active.len() == 0 || (active.len() == 1 && active[0].policy_id@ == p.policy_id@
        && active[0].revision == p.revision && active[0].digest@ == p.digest@))
}

/// Why the authority cannot serve a tenant.
pub open spec fn tenant_fault(t: TenantImage, configured: Option<PolicyIdentity>, key: Seq<u8>) -> Option<
    PostgresStoreError,
> {
    if t.restore_incomplete {
        Some(PostgresStoreError::ArtifactRestoreIncomplete)
    } else if !retained_right(t.retained) || t.retained.counted > MAX_TENANT_RETAINED_BYTES || (exists|i: int|
        0 <= i < t.accounts@.len() && !retained_right(#[trigger] t.accounts@[i])) || (exists|i: int|
        0 <= i < t.principals@.len() && !retained_right(#[trigger] t.principals@[i])) || !policies_agree(
        t.active_policies@,
        configured,
    ) || !semantics::authority_valid(t.records, key) {
        Some(PostgresStoreError::InvalidSchema)
    } else {
        None
    }
}

/// The fault of the first tenant that cannot be served.
pub open spec fn tenants_fault(
    tenants: Seq<TenantImage>,
    configured: Option<PolicyIdentity>,
    key: Seq<u8>,
) -> Option<PostgresStoreError>
    decreases tenants.len(),
{
    if tenants.len() == 0 {
        None
    } else {
        match tenants_fault(tenants.drop_last(), configured, key) {
            Some(e) => Some(e),
            None => tenant_fault(tenants.last(), configured, key),
        }
    }
}

/// A tenant is served exactly where it is not being restored, each of its counts is what is
/// counted, it retains no more than 64 mebibytes, its active policy is none or the configured one
/// and its records are valid.
pub proof fn law_served_tenants_are_counted_right(
    t: TenantImage,
    configured: Option<PolicyIdentity>,
    key: Seq<u8>,
)
    ensures
        t.restore_incomplete ==> tenant_fault(t, configured, key) == Some(PostgresStoreError::ArtifactRestoreIncomplete),
        !t.restore_incomplete && tenant_fault(t, configured, key) is Some ==> tenant_fault(t, configured, key) == Some(
            PostgresStoreError::InvalidSchema,
        ),
        tenant_fault(t, configured, key) is None <==> {
            &&& !t.restore_incomplete
            &&& t.retained.materialized == t.retained.counted
            &&& 0 <= t.retained.counted <= 64 * 1024 * 1024
            &&& forall|i: int|
                0 <= i < t.accounts@.len() ==> (#[trigger] t.accounts@[i]).materialized == t.accounts@[i].counted
                    && t.accounts@[i].counted >= 0
            &&& forall|i: int|
                0 <= i < t.principals@.len() ==> (#[trigger] t.principals@[i]).materialized == t.principals@[i].counted
                    && t.principals@[i].counted >= 0
            &&& configured is Some && t.active_policies@.len() > 0 ==> t.active_policies@.len() == 1
                && t.active_policies@[0].policy_id@ == configured->0.policy_id@ && t.active_policies@[0].revision
                == configured->0.revision && t.active_policies@[0].digest@ == configured->0.digest@
            &&& semantics::authority_valid(t.records, key)
        },
{
    if tenant_fault(t, configured, key) is None {
        assert forall|i: int| 0 <= i < t.accounts@.len() implies (#[trigger] t.accounts@[i]).materialized
            == t.accounts@[i].counted && t.accounts@[i].counted >= 0 by {
            assert(retained_right(t.accounts@[i]));
        }
        assert forall|i: int| 0 <= i < t.principals@.len() implies (#[trigger] t.principals@[i]).materialized
            == t.principals@[i].counted && t.principals@[i].counted >= 0 by {
            assert(retained_right(t.principals@[i]));
        }
    }
}

/// Tenants are served all together: none is refused exactly where each could be served.
pub proof fn law_every_tenant_must_be_servable(
    tenants: Seq<TenantImage>,
    configured: Option<PolicyIdentity>,
    key: Seq<u8>,
)
    ensures
        tenants_fault(tenants, configured, key) is None <==> forall|i: int|
            0 <= i < tenants.len() ==> tenant_fault(#[trigger] tenants[i], configured, key) is None,
    decreases tenants.len(),
{
    if tenants.len() > 0 {
        let shorter = tenants.drop_last();
        law_every_tenant_must_be_servable(shorter, configured, key);
        assert(tenants.last() == tenants[tenants.len() - 1]);
        if tenants_fault(tenants, configured, key) is None {
            assert forall|i: int| 0 <= i < tenants.len() implies tenant_fault(#[trigger] tenants[i], configured, key)
                is None by {
                if i < shorter.len() {
                    assert(shorter[i] == tenants[i]);
                }
            }
        } else if tenants_fault(shorter, configured, key) is Some {
            let i = choose|i: int|
                0 <= i < shorter.len() && tenant_fault(#[trigger] shorter[i], configured, key) is Some;
            assert(tenants[i] == shorter[i]);
        }
    }
}

fn all_right(counts: &Vec<RetainedCount>) -> (r: bool)
    ensures
        r == !exists|i: int| 0 <= i < counts@.len() && !retained_right(#[trigger] counts@[i]),
{
    let mut i: usize = 0;
    while i < counts.len()
        invariant
            i <= counts@.len(),
            forall|j: int| 0 <= j < i ==> retained_right(#[trigger] counts@[j]),
        decreases counts@.len() - i,
    {
        if counts[i].materialized < 0 || counts[i].materialized != counts[i].counted {
            assert(!retained_right(counts@[i as int]));
            return false;
        }
        i += 1;
    }
    true
}

fn check_policies(active: &Vec<ActivePolicy>, configured: &Option<PolicyIdentity>) -> (r: bool)
    ensures
        r == policies_agree(active@, *configured),
{
    match configured {
        None => true,
        Some(p) => {
            if active.len() == 0 {
                return true;
            }
            active.len() == 1 && active[0].policy_id == p.policy_id && active[0].revision >= 0 && active[0].revision
                as u64 == p.revision && active[0].digest == p.digest
        },
    }
}

fn check_tenant(t: &TenantImage, configured: &Option<PolicyIdentity>, key: &[u8; 32]) -> (r: Option<
    PostgresStoreError,
>)
    ensures
        r == tenant_fault(*t, *configured, key@),
{
    if t.restore_incomplete {
        return Some(PostgresStoreError::ArtifactRestoreIncomplete);
    }
    if t.retained.materialized < 0 || t.retained.materialized != t.retained.counted || t.retained.counted
        > MAX_TENANT_RETAINED_BYTES || !all_right(&t.accounts) || !all_right(&t.principals) || !check_policies(
        &t.active_policies,
        configured,
    ) {
        return Some(PostgresStoreError::InvalidSchema);
    }
    match semantics::validate_semantics(&t.records, key) {
        Ok(_) => None,
        Err(e) => Some(e),
    }
}

proof fn lemma_tenants_prefix(
    tenants: Seq<TenantImage>,
    configured: Option<PolicyIdentity>,
    key: Seq<u8>,
    i: int,
)
    requires
        0 <= i <= tenants.len(),
        tenants_fault(tenants.subrange(0, i), configured, key) is Some,
    ensures
        tenants_fault(tenants, configured, key) == tenants_fault(tenants.subrange(0, i), configured, key),
    decreases tenants.len() - i,
{
    if i == tenants.len() {
        assert(tenants.subrange(0, i) =~= tenants);
    } else {
        assert(tenants.subrange(0, i + 1).drop_last() =~= tenants.subrange(0, i));
        lemma_tenants_prefix(tenants, configured, key, i + 1);
    }
}

/// What is on record when the authority is opened.
pub struct StartupImage {
    pub restore_incomplete: bool,
    pub task_count: i64,
    pub tenants: Vec<TenantImage>,
}

/// Why the authority refuses to serve what is on record.
pub open spec fn startup_fault(
    image: StartupImage,
    max_tasks: usize,
    configured: Option<PolicyIdentity>,
    key: Seq<u8>,
) -> Option<PostgresStoreError> {
    if image.restore_incomplete {
        Some(PostgresStoreError::ArtifactRestoreIncomplete)
    } else if image.task_count < 0 || image.task_count > max_tasks {
        Some(PostgresStoreError::InvalidSchema)
    } else {
        tenants_fault(image.tenants@, configured, key)
    }
}

/// The authority serves a store exactly where it is not being restored, holds no more tasks than
/// it may, and every tenant can be served.
pub proof fn law_served_stores_hold_no_more_than_they_may(
    image: StartupImage,
    max_tasks: usize,
    configured: Option<PolicyIdentity>,
    key: Seq<u8>,
)
    ensures
        image.restore_incomplete ==> startup_fault(image, max_tasks, configured, key) == Some(
            PostgresStoreError::ArtifactRestoreIncomplete,
        ),
        !image.restore_incomplete && !(0 <= image.task_count <= max_tasks) ==> startup_fault(
            image,
            max_tasks,
            configured,
            key,
        ) == Some(PostgresStoreError::InvalidSchema),
        startup_fault(image, max_tasks, configured, key) is None <==> !image.restore_incomplete && 0
            <= image.task_count <= max_tasks && forall|i: int|
            0 <= i < image.tenants@.len() ==> tenant_fault(#[trigger] image.tenants@[i], configured, key) is None,
{
    law_every_tenant_must_be_servable(image.tenants@, configured, key);
}

/// Refuses to serve a store that is being restored, holds too many tasks, or holds
/// anything invalid for any tenant.
pub fn check_startup(
    image: &StartupImage,
    max_tasks: usize,
    configured: &Option<PolicyIdentity>,
    cursor_key: &[u8; 32],
) -> (r: Result<(), PostgresStoreError>)
    ensures
        match r {
            Ok(_) => startup_fault(*image, max_tasks, *configured, cursor_key@) is None,
            Err(e) => startup_fault(*image, max_tasks, *configured, cursor_key@) == Some(e),
        },
{
    if image.restore_incomplete {
        return Err(PostgresStoreError::ArtifactRestoreIncomplete);
    }
    if image.task_count < 0 || image.task_count as u64 > max_tasks as u64 {
        return Err(PostgresStoreError::InvalidSchema);
    }
    let tenants = &image.tenants;
    let mut i: usize = 0;
    assert(tenants@.subrange(0, 0) =~= Seq::<TenantImage>::empty());
    while i < tenants.len()
        invariant
            i <= tenants@.len(),
            *tenants == image.tenants,
            !image.restore_incomplete,
            0 <= image.task_count <= max_tasks,
            tenants_fault(tenants@.subrange(0, i as int), *configured, cursor_key@) is None,
        decreases tenants@.len() - i,
    {
        proof {
            assert(tenants@.subrange(0, i + 1).drop_last() =~= tenants@.subrange(0, i as int));
            assert(tenants@.subrange(0, i + 1).last() == tenants@[i as int]);
        }
        if let Some(e) = check_tenant(&tenants[i], configured, cursor_key) {
            proof {
                lemma_tenants_prefix(tenants@, *configured, cursor_key@, i + 1);
            }
            return Err(e);
        }
        i += 1;
    }
    assert(tenants@.subrange(0, i as int) =~= tenants@);
    Ok(())
}

/// What is on record of the inline artifact migration when a store with artifacts is
/// opened. The file's parts are absent where no plan file is configured.
pub struct ArtifactMigrationImage {
    pub required: bool,
    pub store_id: Vec<u8>,
    pub plan_fault: Option<PostgresStoreError>,
    pub file_source_schema: Option<String>,
    pub file_store_identity: Option<String>,
    pub file_plan_fault: Option<PostgresStoreError>,
}

/// The text that names a store.
pub open spec fn store_identity_of(store_id: Seq<u8>) -> Seq<char> {
    "sha256:"@ + text::hex(store_id)
}

/// The text that names a store.
pub fn store_identity(store_id: &[u8]) -> (r: String)
    ensures
        r@ == store_identity_of(store_id@),
{
    let mut out = "sha256:".to_owned();
    out.append(text::hex_text(store_id).as_str());
    out
}

/// Why a store with artifacts cannot be opened.
pub open spec fn artifact_migration_fault(image: ArtifactMigrationImage, schema: Seq<char>) -> Option<
    PostgresStoreError,
> {
    if image.required {
        Some(PostgresStoreError::ArtifactMigrationRequired)
    } else if image.plan_fault is Some {
        image.plan_fault
    } else if image.file_source_schema is Some {
        if image.file_source_schema->0@ != schema || text::opt_text(image.file_store_identity) != Some(
            store_identity_of(image.store_id@),
        ) {
            Some(PostgresStoreError::ArtifactMigrationRequired)
        } else {
            image.file_plan_fault
        }
    } else {
        None
    }
}

/// A store with artifacts is opened exactly where no migration of them is due, the plan on record
/// holds, and a configured plan is of this schema and this store and holds too.
pub proof fn law_artifact_plans_are_of_their_store(image: ArtifactMigrationImage, schema: Seq<char>)
    ensures
        image.required ==> artifact_migration_fault(image, schema) == Some(
            PostgresStoreError::ArtifactMigrationRequired,
        ),
        !image.required && image.plan_fault is Some ==> artifact_migration_fault(image, schema) == image.plan_fault,
        artifact_migration_fault(image, schema) is None <==> !image.required && image.plan_fault is None && (
        image.file_source_schema is None || image.file_source_schema->0@ == schema && image.file_store_identity is Some
            && image.file_store_identity->0@ == store_identity_of(image.store_id@) && image.file_plan_fault is None),
        !image.required && image.plan_fault is None && image.file_source_schema is Some && (
        image.file_source_schema->0@ != schema || image.file_store_identity is None
            || image.file_store_identity->0@ != store_identity_of(image.store_id@)) ==> artifact_migration_fault(
            image,
            schema,
        ) == Some(PostgresStoreError::ArtifactMigrationRequired),
{
}

/// Stores with different identities have different names.
pub proof fn law_stores_have_their_own_names(a: Seq<u8>, b: Seq<u8>)
    ensures
        store_identity_of(a) == store_identity_of(b) ==> a == b,
        store_identity_of(a).len() == 7 + text::hex(a).len(),
{
    reveal_strlit("sha256:");
    if store_identity_of(a) == store_identity_of(b) {
        assert(store_identity_of(a).skip(7) =~= text::hex(a));
        assert(store_identity_of(b).skip(7) =~= text::hex(b));
        text::lemma_hex_injective(a, b);
    }
}

/// Refuses a store whose inline artifacts were not migrated by the approved plan.
pub fn check_artifact_migration(image: &ArtifactMigrationImage, schema: &str) -> (r: Result<(), PostgresStoreError>)
    ensures
        match r {
            Ok(_) => artifact_migration_fault(*image, schema@) is None,
            Err(e) => artifact_migration_fault(*image, schema@) == Some(e),
        },
{
    if image.required {
        return Err(PostgresStoreError::ArtifactMigrationRequired);
    }
    if let Some(e) = image.plan_fault {
        return Err(e);
    }
    match &image.file_source_schema {
        None => Ok(()),
        Some(source) => {
            let identity = store_identity(image.store_id.as_slice());
            if !text::same_text(source.as_str(), schema) || !text::opt_text_is(
                &image.file_store_identity,
                identity.as_str(),
            ) {
                return Err(PostgresStoreError::ArtifactMigrationRequired);
            }
            match image.file_plan_fault {
                Some(e) => Err(e),
                None => Ok(()),
            }
        },
    }
}

/// What turning audit projection on reports: a restore in progress keeps it off.
pub fn projection_enabled(rows_written: u64) -> (r: Result<(), PostgresStoreError>)
    ensures
        r == (if rows_written == 1 {
            Ok::<(), PostgresStoreError>(())
        } else {
            Err(PostgresStoreError::ArtifactMigrationBusy)
        }),
{
    if rows_written == 1 {
        Ok(())
    } else {
        Err(PostgresStoreError::ArtifactMigrationBusy)
    }
}

/// How far the opening of the authority has come.
#[derive(Clone, Copy, Debug, PartialEq, Eq, Structural)]
pub enum OpenStage {
    /// The runtime login is judged before anything is changed.
    LoginBeforeMigration,
    /// The schema is migrated.
    Migration,
    /// Audit projection is turned on.
    ProjectionSwitch,
    /// The runtime login is judged again.
    LoginAfterMigration,
    /// The catalog is compared with what it must be.
    Catalog,
    /// The keyring must hold every key that is still needed.
    Keyring,
    /// Inline artifacts must have been migrated.
    ArtifactMigration,
    /// The quota policy is reconciled.
    QuotaPolicy,
    /// The callback policy is reconciled.
    CallbackPolicy,
    /// The runtime connections are made.
    Pool,
    /// The records of every tenant are judged.
    Records,
    /// The authority serves.
    Serving,
    /// The authority was refused.
    Refused(PostgresStoreError),
}

/// The stage after one that succeeded. What is not configured is left out.
pub open spec fn stage_after(stage: OpenStage, audit_projection: bool, artifacts: bool) -> OpenStage {
    match stage {
        OpenStage::LoginBeforeMigration => OpenStage::Migration,
        OpenStage::Migration => if audit_projection {
            OpenStage::ProjectionSwitch
        } else {
            OpenStage::LoginAfterMigration
        },
        OpenStage::ProjectionSwitch => OpenStage::LoginAfterMigration,
        OpenStage::LoginAfterMigration => OpenStage::Catalog,
        OpenStage::Catalog => if artifacts {
            OpenStage::Keyring
        } else {
            OpenStage::QuotaPolicy
        },
        OpenStage::Keyring => OpenStage::ArtifactMigration,
        OpenStage::ArtifactMigration => OpenStage::QuotaPolicy,
        OpenStage::QuotaPolicy => OpenStage::CallbackPolicy,
        OpenStage::CallbackPolicy => OpenStage::Pool,
        OpenStage::Pool => OpenStage::Records,
        OpenStage::Records => OpenStage::Serving,
        OpenStage::Serving => OpenStage::Serving,
        OpenStage::Refused(e) => OpenStage::Refused(e),
    }
}

/// The stage that the outcome of a stage leads to. A refusal is final, and so is an
/// authority that serves.
pub open spec fn stage_outcome(
    stage: OpenStage,
    outcome: Result<(), PostgresStoreError>,
    audit_projection: bool,
    artifacts: bool,
) -> OpenStage {
    match stage {
        OpenStage::Serving => stage,
        OpenStage::Refused(_) => stage,
        _ => match outcome {
            Ok(_) => stage_after(stage, audit_projection, artifacts),
            Err(e) => OpenStage::Refused(e),
        },
    }
}

/// Takes one step of the opening.
pub fn advance_opening(
    stage: OpenStage,
    outcome: Result<(), PostgresStoreError>,
    audit_projection: bool,
    artifacts: bool,
) -> (r: OpenStage)
    ensures
        r == stage_outcome(stage, outcome, audit_projection, artifacts),
{
    match stage {
        OpenStage::Serving => {
            return OpenStage::Serving;
        },
        OpenStage::Refused(e) => {
            return OpenStage::Refused(e);
        },
        _ => {},
    }
    if let Err(e) = outcome {
        return OpenStage::Refused(e);
    }
    match stage {
        OpenStage::LoginBeforeMigration => OpenStage::Migration,
        OpenStage::Migration => if audit_projection {
            OpenStage::ProjectionSwitch
        } else {
            OpenStage::LoginAfterMigration
        },
        OpenStage::ProjectionSwitch => OpenStage::LoginAfterMigration,
        OpenStage::LoginAfterMigration => OpenStage::Catalog,
        OpenStage::Catalog => if artifacts {
            OpenStage::Keyring
        } else {
            OpenStage::QuotaPolicy
        },
        OpenStage::Keyring => OpenStage::ArtifactMigration,
        OpenStage::ArtifactMigration => OpenStage::QuotaPolicy,
        OpenStage::QuotaPolicy => OpenStage::CallbackPolicy,
        OpenStage::CallbackPolicy => OpenStage::Pool,
        OpenStage::Pool => OpenStage::Records,
        OpenStage::Records => OpenStage::Serving,
        OpenStage::Serving => OpenStage::Serving,
        OpenStage::Refused(e) => OpenStage::Refused(e),
    }
}

/// The stage after some outcomes.
pub open spec fn opening(
    outcomes: Seq<Result<(), PostgresStoreError>>,
    audit_projection: bool,
    artifacts: bool,
) -> OpenStage
    decreases outcomes.len(),
{
    if outcomes.len() == 0 {
        OpenStage::LoginBeforeMigration
    } else {
        stage_outcome(
            opening(outcomes.drop_last(), audit_projection, artifacts),
            outcomes.last(),
            audit_projection,
            artifacts,
        )
    }
}

/// How many stages come before one.
pub open spec fn stages_before(stage: OpenStage, audit_projection: bool, artifacts: bool) -> int {
    let p: int = if audit_projection {
        1
    } else {
        0
    };
    let a: int = if artifacts {
        2
    } else {
        0
    };
    match stage {
        OpenStage::LoginBeforeMigration => 0,
        OpenStage::Migration => 1,
        OpenStage::ProjectionSwitch => 2,
        OpenStage::LoginAfterMigration => 2 + p,
        OpenStage::Catalog => 3 + p,
        OpenStage::Keyring => 4 + p,
        OpenStage::ArtifactMigration => 5 + p,
        OpenStage::QuotaPolicy => 4 + p + a,
        OpenStage::CallbackPolicy => 5 + p + a,
        OpenStage::Pool => 6 + p + a,
        OpenStage::Records => 7 + p + a,
        OpenStage::Serving => 8 + p + a,
        OpenStage::Refused(_) => 0,
    }
}

proof fn lemma_opening(outcomes: Seq<Result<(), PostgresStoreError>>, audit_projection: bool, artifacts: bool)
    ensures
        ({
            let stage = opening(outcomes, audit_projection, artifacts);
            let done = stages_before(stage, audit_projection, artifacts);
            &&& stage == OpenStage::ProjectionSwitch ==> audit_projection
            &&& stage == OpenStage::Keyring || stage == OpenStage::ArtifactMigration ==> artifacts
            &&& !(stage is Refused) && stage != OpenStage::Serving ==> done == outcomes.len()
            &&& stage == OpenStage::Serving ==> done <= outcomes.len()
            &&& !(stage is Refused) ==> forall|i: int| 0 <= i < done ==> (#[trigger] outcomes[i]) is Ok
            &&& stage is Refused ==> exists|i: int|
                0 <= i < outcomes.len() && (#[trigger] outcomes[i]) == Err::<(), PostgresStoreError>(stage->Refused_0)
        }),
    decreases outcomes.len(),
{
    if outcomes.len() > 0 {
        let before = outcomes.drop_last();
        lemma_opening(before, audit_projection, artifacts);
        let stage = opening(before, audit_projection, artifacts);
        let now = opening(outcomes, audit_projection, artifacts);
        let done = stages_before(now, audit_projection, artifacts);
        if !(now is Refused) {
            assert forall|i: int| 0 <= i < done implies (#[trigger] outcomes[i]) is Ok by {
                if i < before.len() {
                    assert(outcomes[i] == before[i]);
                }
            }
        } else if stage is Refused {
            let k = choose|i: int|
                0 <= i < before.len() && (#[trigger] before[i]) == Err::<(), PostgresStoreError>(stage->Refused_0);
            assert(outcomes[k] == before[k]);
        } else {
            assert(outcomes[outcomes.len() - 1] == outcomes.last());
        }
    }
}

/// The authority serves only after every stage that is configured succeeded, the
/// judgement of all records last; and a refusal names the error of a stage that
/// failed.
pub proof fn law_authority_serves_after_every_stage(
    outcomes: Seq<Result<(), PostgresStoreError>>,
    audit_projection: bool,
    artifacts: bool,
)
    ensures
        ({
            let stage = opening(outcomes, audit_projection, artifacts);
            let needed = stages_before(OpenStage::Serving, audit_projection, artifacts);
            &&& stage == OpenStage::Serving ==> outcomes.len() >= needed && forall|i: int|
                0 <= i < needed ==> (#[trigger] outcomes[i]) is Ok
            &&& stage is Refused ==> exists|i: int|
                0 <= i < outcomes.len() && (#[trigger] outcomes[i]) == Err::<(), PostgresStoreError>(stage->Refused_0)
        }),
{
    lemma_opening(outcomes, audit_projection, artifacts);
}

/// The statement that confines a transaction to the runtime role and bounds its time.
pub open spec fn confine_statement_of(schema: Seq<char>) -> Seq<char> {
    "SET LOCAL ROLE "@ + schema + "_runtime; SET LOCAL statement_timeout='5s'; SET LOCAL lock_timeout='5s'"@
}

/// The statement that confines a transaction to the runtime role and bounds its time.
pub fn set_tenant(schema: &str) -> (r: String)
    ensures
        r@ == confine_statement_of(schema@),
{
    let mut sql = "SET LOCAL ROLE ".to_owned();
    sql.append(schema);
    sql.append("_runtime; SET LOCAL statement_timeout='5s'; SET LOCAL lock_timeout='5s'");
    sql
}

/// A stage that succeeds leads to the next one in order, a stage that fails refuses the authority
/// by its own error, and neither a refusal nor a serving authority is left again.
pub proof fn law_stages_follow_each_other(audit_projection: bool, artifacts: bool, e: PostgresStoreError)
    ensures
        ({
            let next = |stage: OpenStage| stage_outcome(stage, Ok::<(), PostgresStoreError>(()), audit_projection, artifacts);
            let first = OpenStage::LoginBeforeMigration;
            let judged = if audit_projection { next(next(next(first))) } else { next(next(first)) };
            let policies = if artifacts { next(next(next(next(judged)))) } else { next(next(judged)) };
            &&& next(first) == OpenStage::Migration
            &&& audit_projection ==> next(next(first)) == OpenStage::ProjectionSwitch
            &&& judged == OpenStage::LoginAfterMigration
            &&& next(judged) == OpenStage::Catalog
            &&& artifacts ==> next(next(judged)) == OpenStage::Keyring
            &&& artifacts ==> next(next(next(judged))) == OpenStage::ArtifactMigration
            &&& policies == OpenStage::QuotaPolicy
            &&& next(policies) == OpenStage::CallbackPolicy
            &&& next(next(policies)) == OpenStage::Pool
            &&& next(next(next(policies))) == OpenStage::Records
            &&& next(next(next(next(policies)))) == OpenStage::Serving
            &&& next(OpenStage::Serving) == OpenStage::Serving
            &&& next(OpenStage::Refused(e)) == OpenStage::Refused(e)
        }),
        forall|stage: OpenStage|
            stage != OpenStage::Serving && !(stage is Refused) ==> #[trigger] stage_outcome(
                stage,
                Err::<(), PostgresStoreError>(e),
                audit_projection,
                artifacts,
            ) == OpenStage::Refused(e),
        stage_outcome(OpenStage::Serving, Err::<(), PostgresStoreError>(e), audit_projection, artifacts)
            == OpenStage::Serving,
{
}

/// A transaction is confined to the runtime role of its schema and to no other: the statement
/// names the schema once, behind the order to take a role.
pub proof fn law_transactions_take_the_role_of_their_schema(schema: Seq<char>)
    ensures
        ({
            let statement = confine_statement_of(schema);
            let role = "SET LOCAL ROLE "@.len() as int;
            &&& role == 15
            &&& statement.subrange(role, role + schema.len()) == schema
            &&& statement.subrange(role + schema.len(), role + schema.len() + 8) == "_runtime"@
        }),
{
    reveal_strlit("SET LOCAL ROLE ");
    reveal_strlit("_runtime");
    reveal_strlit("_runtime; SET LOCAL statement_timeout='5s'; SET LOCAL lock_timeout='5s'");
    let statement = confine_statement_of(schema);
    let end = 15 + schema.len() as int;
    assert(statement.subrange(15, end) =~= schema);
    assert(statement.subrange(end, end + 8) =~= "_runtime"@);
}

/// Every migration but the third is told the role, and every one but the second and the eighth the
/// migrator; each is told the schema first.
pub proof fn law_migrations_are_told_their_schema(
    revision: int,
    script: Seq<char>,
    schema: Seq<char>,
    migrator_user: Seq<char>,
)
    ensures
        revision == 3 ==> migration_statement(revision, script, schema, migrator_user) == text::replaced(
            text::replaced(script, "__SCHEMA__"@, schema),
            "__MIGRATOR__"@,
            text::replaced(migrator_user, "'"@, "''"@),
        ),
        revision == 2 || revision == 8 ==> migration_statement(revision, script, schema, migrator_user)
            == text::replaced(
            text::replaced(script, "__SCHEMA__"@, schema),
            "__ROLE__"@,
            catalog::runtime_role_of(schema),
        ),
        revision == 1 || 4 <= revision <= 7 || revision == 9 ==> migration_statement(
            revision,
            script,
            schema,
            migrator_user,
        ) == text::replaced(
            text::replaced(
                text::replaced(script, "__SCHEMA__"@, schema),
                "__ROLE__"@,
                catalog::runtime_role_of(schema),
            ),
            "__MIGRATOR__"@,
            text::replaced(migrator_user, "'"@, "''"@),
        ),
{
}

/// A keyring covers what is needed exactly where every key that is needed is in it.
pub proof fn law_keyrings_hold_every_needed_key(keyring: Seq<String>, needed: Seq<String>, i: int)
    ensures
        covers(keyring, needed) && 0 <= i < needed.len() ==> exists|k: int|
            0 <= k < keyring.len() && (#[trigger] keyring[k])@ == needed[i]@,
        needed.len() == 0 ==> covers(keyring, needed),
        keyring.len() == 0 && needed.len() > 0 ==> !covers(keyring, needed),
        covers(needed, needed),
{
    if covers(keyring, needed) && 0 <= i < needed.len() {
        assert(among(keyring, needed[i]@));
    }
    if keyring.len() == 0 && needed.len() > 0 && covers(keyring, needed) {
        assert(among(keyring, needed[0]@));
    }
    assert forall|k: int| 0 <= k < needed.len() implies among(needed, (#[trigger] needed[k])@) by {}
}

/// Limits that were lowered are named one for one, each by its scope and its dimension.
pub proof fn law_lowered_limits_are_named(
    names: Seq<(String, String)>,
    lowered: Seq<(QuotaScopeKind, QuotaDimension)>,
    i: int,
)
    requires
        names_limits(names, lowered),
        0 <= i < lowered.len(),
    ensures
        names.len() == lowered.len(),
        names[i].0@ == scope_text(lowered[i].0),
        names[i].1@ == dimension_text(lowered[i].1),
{
}

/// A store is connected to as its configuration says: over TLS or in plaintext as both URLs allow,
/// as the user of the runtime URL, in the role of the schema.
pub proof fn law_opened_stores_enter_their_role(
    plan: OpenPlan,
    config: PostgresStoreConfig,
    migrator: Option<weburl::UrlView>,
    runtime: Option<weburl::UrlView>,
)
    requires
        plan_of(plan, config, migrator, runtime),
    ensures
        store_config::plaintext_url(migrator, config.test_only_insecure_loopback) == Ok::<bool, PostgresStoreError>(
            plan.plaintext,
        ),
        store_config::plaintext_url(runtime, config.test_only_insecure_loopback) == Ok::<bool, PostgresStoreError>(
            plan.plaintext,
        ),
        plan.plaintext ==> config.test_only_insecure_loopback,
        plan.runtime_user@ == runtime->0.username,
        plan.runtime_options@.len() == 8 + config.schema@.len() + 8,
        plan.runtime_options@.subrange(8, 8int + config.schema@.len()) == config.schema@,
{
    store_config::law_both_urls_are_reached_alike(migrator, runtime, config.test_only_insecure_loopback);
    if migrator is Some {
        store_config::law_plaintext_stays_home(migrator->0, config.test_only_insecure_loopback, 0);
    }
    reveal_strlit("-c role=");
    reveal_strlit("_runtime");
    assert(plan.runtime_options@.subrange(8, 8int + config.schema@.len()) =~= config.schema@);
}

/// A configuration can be connected with exactly where the driver reads both of its URLs.
pub proof fn law_connectable_configurations_are_readable(config: PostgresStoreConfig)
    ensures
        connectable(config) ==> weburl::connection_readable_of(config.migrator_url@) && weburl::connection_readable_of(
            config.runtime_url@,
        ),
        !weburl::connection_readable_of(config.migrator_url@) || !weburl::connection_readable_of(config.runtime_url@)
            ==> !connectable(config),
        weburl::connection_readable_of(config.migrator_url@) && weburl::connection_readable_of(config.runtime_url@)
            ==> connectable(config),
{
}

/// A login whose memberships are not the two that belong there does not fit the schema.
pub proof fn law_stray_memberships_do_not_fit(image: LoginImage, schema: Seq<char>, runtime_user: Seq<char>)
    requires
        image.login is Some,
        role_restricted(image.login->0, true),
    ensures
        !image.runtime_role_exists && image.memberships@.len() > 0 ==> login_fault(image, schema, runtime_user) == Some(
            PostgresStoreError::InvalidSchema,
        ),
        image.runtime_role_exists && image.memberships@.len() != 2 ==> login_fault(image, schema, runtime_user) == Some(
            PostgresStoreError::InvalidSchema,
        ),
        !image.runtime_role_exists && image.memberships@.len() == 0 ==> login_fault(image, schema, runtime_user) is None,
{
}

} // verus!
