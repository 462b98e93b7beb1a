//! One attempt at a callback of an enrollment, stage by stage.
//!
//! Every credential is read and accepted before the destination's name is looked up.

use vstd::prelude::*;

use crate::policy;
use crate::policy::{EnrollmentView, PushEnrollment};
use crate::push_error::{CallbackTransportError, PushSecurityError};
use crate::signer;
use crate::text;
use crate::transport;

verus! {

/// What an attempt does next.
#[derive(Clone, Copy, Debug, PartialEq, Eq, Structural)]
pub enum AttemptStage {
    /// Read the secret that callbacks are signed with.
    ReadSecret,
    /// Read the certificates that alone are trusted.
    ReadRoots,
    /// Read the certificate and the key of the client.
    ReadIdentity,
    /// Look the destination's name up and choose an address.
    LookUp,
    /// Connect to the address and send the signed request.
    Send,
    /// Receive the response within its bound.
    Receive,
    /// The response is accepted.
    Answered,
    /// The attempt failed.
    Failed(CallbackTransportError),
}

/// What came of a stage. A file that was refused is absent.
pub enum AttemptEvent {
    Secret(Option<Vec<u8>>),
    Roots(Option<Vec<u8>>),
    Identity(Option<Vec<u8>>, Option<Vec<u8>>),
    LookedUp(Option<PushSecurityError>),
    Sent(Option<CallbackTransportError>),
    Received(Option<CallbackTransportError>),
}

/// Whether a callback may be attempted at all.
pub open spec fn attempt_allowed(body_len: usize, attempt: u32, max_response_bytes: usize) -> bool {
    0 < body_len <= transport::MAX_BODY_BYTES && attempt > 0 && max_response_bytes > 0
}

/// The first stage of an attempt.
pub open spec fn first_stage(body_len: usize, attempt: u32, max_response_bytes: usize) -> AttemptStage {
    if attempt_allowed(body_len, attempt, max_response_bytes) {
        AttemptStage::ReadSecret
    } else {
        AttemptStage::Failed(CallbackTransportError::Configuration)
    }
}

/// Begins an attempt.
pub fn begin_attempt(body_len: usize, attempt: u32, max_response_bytes: usize) -> (r: AttemptStage)
    ensures
        r == first_stage(body_len, attempt, max_response_bytes),
{
    match transport::check_send_enrollment(body_len, attempt, max_response_bytes) {
        Ok(_) => AttemptStage::ReadSecret,
        Err(e) => AttemptStage::Failed(e),
    }
}

/// A secret that callbacks can be signed with.
pub open spec fn secret_usable(bytes: Option<Vec<u8>>) -> bool {
    bytes is Some && signer::MIN_SECRET_BYTES <= bytes->0@.len() <= signer::MAX_SECRET_BYTES
}

/// A file that holds certificates and nothing that cannot be read.
pub open spec fn roots_usable(bytes: Option<Vec<u8>>) -> bool {
    bytes is Some && policy::certificates_of(bytes->0@) is Some && policy::certificates_of(bytes->0@)->0.len() > 0
}

/// A certificate file and a key file that make a client identity together.
pub open spec fn identity_usable(cert: Option<Vec<u8>>, key: Option<Vec<u8>>) -> bool {
    &&& cert is Some && key is Some
    &&& policy::identity_material(cert->0@, key->0@)
    &&& policy::identity_of(cert->0@ + key->0@)
}

/// The stage after the trusted certificates: an enrollment without an identity has none
/// to read.
pub open spec fn after_roots(e: EnrollmentView) -> AttemptStage {
    if e.mtls_cert_file is Some && e.mtls_key_file is Some {
        AttemptStage::ReadIdentity
    } else {
        AttemptStage::LookUp
    }
}

/// The stage after the secret: an enrollment without certificates of its own has none to
/// read.
pub open spec fn after_secret(e: EnrollmentView) -> AttemptStage {
    if e.ca_file is Some {
        AttemptStage::ReadRoots
    } else {
        after_roots(e)
    }
}

/// Whether an event shows a credential that was accepted at its stage.
pub open spec fn credential_accepted(stage: AttemptStage, event: AttemptEvent) -> bool {
    match (stage, event) {
        (AttemptStage::ReadSecret, AttemptEvent::Secret(bytes)) => secret_usable(bytes),
        (AttemptStage::ReadRoots, AttemptEvent::Roots(bytes)) => roots_usable(bytes),
        (AttemptStage::ReadIdentity, AttemptEvent::Identity(cert, key)) => identity_usable(cert, key),
        _ => false,
    }
}

/// The stages that read a credential.
pub open spec fn reads_credential(stage: AttemptStage) -> bool {
    stage == AttemptStage::ReadSecret || stage == AttemptStage::ReadRoots || stage == AttemptStage::ReadIdentity
}

/// The stage that follows an event. An event of another stage, as a credential that is
/// not accepted, fails the attempt.
pub open spec fn next_stage(stage: AttemptStage, e: EnrollmentView, event: AttemptEvent) -> AttemptStage {
    let misconfigured = AttemptStage::Failed(CallbackTransportError::Configuration);
    match stage {
        AttemptStage::ReadSecret => if credential_accepted(stage, event) {
            after_secret(e)
        } else {
            misconfigured
        },
        AttemptStage::ReadRoots => if credential_accepted(stage, event) {
            after_roots(e)
        } else {
            misconfigured
        },
        AttemptStage::ReadIdentity => if credential_accepted(stage, event) {
            AttemptStage::LookUp
        } else {
            misconfigured
        },
        AttemptStage::LookUp => match event {
            AttemptEvent::LookedUp(None) => AttemptStage::Send,
            AttemptEvent::LookedUp(Some(error)) => AttemptStage::Failed(transport::lookup_failure(error)),
            _ => misconfigured,
        },
        AttemptStage::Send => match event {
            AttemptEvent::Sent(None) => AttemptStage::Receive,
            AttemptEvent::Sent(Some(failure)) => AttemptStage::Failed(transport::send_failure(e, failure)),
            _ => misconfigured,
        },
        AttemptStage::Receive => match event {
            AttemptEvent::Received(None) => AttemptStage::Answered,
            AttemptEvent::Received(Some(failure)) => AttemptStage::Failed(failure),
            _ => misconfigured,
        },
        AttemptStage::Answered => AttemptStage::Answered,
        AttemptStage::Failed(failure) => AttemptStage::Failed(failure),
    }
}

fn is_secret_usable(bytes: &Option<Vec<u8>>) -> (r: bool)
    ensures
        r == secret_usable(*bytes),
{
    match bytes {
        Some(secret) => signer::MIN_SECRET_BYTES <= secret.len() && secret.len() <= signer::MAX_SECRET_BYTES,
        None => false,
    }
}

fn are_roots_usable(bytes: &Option<Vec<u8>>) -> (r: bool)
    ensures
        r == roots_usable(*bytes),
{
    match bytes {
        Some(pem) => match policy::parse_certificates(pem.as_slice()) {
            Ok(certificates) => {
                let mut i: usize = 0;
                while i < certificates.len()
                    invariant
                        i <= certificates@.len(),
                    decreases certificates@.len() - i,
                {
                    if !policy::der_certificate(certificates[i].as_slice()) {
                        return false;
                    }
                    i += 1;
                }
                true
            },
            Err(_) => false,
        },
        None => false,
    }
}

fn is_identity_usable(cert: &Option<Vec<u8>>, key: &Option<Vec<u8>>) -> (r: bool)
    ensures
        r == identity_usable(*cert, *key),
{
    match (cert, key) {
        (Some(cert), Some(key)) => {
            if policy::validate_identity_material(cert.as_slice(), key.as_slice()).is_err() {
                return false;
            }
            let mut combined = text::copy_bytes(cert.as_slice());
            text::push_bytes(&mut combined, key.as_slice());
            policy::pem_identity(combined.as_slice())
        },
        _ => false,
    }
}

fn take_secret(e: &PushEnrollment) -> (r: AttemptStage)
    ensures
        r == after_secret(e@),
{
    if e.ca_file().is_some() {
        AttemptStage::ReadRoots
    } else {
        take_roots(e)
    }
}

fn take_roots(e: &PushEnrollment) -> (r: AttemptStage)
    ensures
        r == after_roots(e@),
{
    if e.mtls_files().is_some() {
        AttemptStage::ReadIdentity
    } else {
        AttemptStage::LookUp
    }
}

/// Takes an attempt on by what came of its stage.
pub fn advance_attempt(stage: AttemptStage, enrollment: &PushEnrollment, event: &AttemptEvent) -> (r: AttemptStage)
    ensures
        r == next_stage(stage, enrollment@, *event),
{
    let misconfigured = AttemptStage::Failed(CallbackTransportError::Configuration);
    match stage {
        AttemptStage::ReadSecret => match event {
            AttemptEvent::Secret(bytes) => if is_secret_usable(bytes) {
                take_secret(enrollment)
            } else {
                misconfigured
            },
            _ => misconfigured,
        },
        AttemptStage::ReadRoots => match event {
            AttemptEvent::Roots(bytes) => if are_roots_usable(bytes) {
                take_roots(enrollment)
            } else {
                misconfigured
            },
            _ => misconfigured,
        },
        AttemptStage::ReadIdentity => match event {
            AttemptEvent::Identity(cert, key) => if is_identity_usable(cert, key) {
                AttemptStage::LookUp
            } else {
                misconfigured
            },
            _ => misconfigured,
        },
        AttemptStage::LookUp => match event {
            AttemptEvent::LookedUp(None) => AttemptStage::Send,
            AttemptEvent::LookedUp(Some(error)) => AttemptStage::Failed(transport::classify_lookup_failure(*error)),
            _ => misconfigured,
        },
        AttemptStage::Send => match event {
            AttemptEvent::Sent(None) => AttemptStage::Receive,
            AttemptEvent::Sent(Some(failure)) => AttemptStage::Failed(
                transport::classify_send_failure(enrollment, *failure),
            ),
            _ => misconfigured,
        },
        AttemptStage::Receive => match event {
            AttemptEvent::Received(None) => AttemptStage::Answered,
            AttemptEvent::Received(Some(failure)) => AttemptStage::Failed(*failure),
            _ => misconfigured,
        },
        AttemptStage::Answered => AttemptStage::Answered,
        AttemptStage::Failed(failure) => AttemptStage::Failed(failure),
    }
}

/// The stage that events lead to.
pub open spec fn stage_after(first: AttemptStage, e: EnrollmentView, events: Seq<AttemptEvent>) -> AttemptStage
    decreases events.len(),
{
    if events.len() == 0 {
        first
    } else {
        next_stage(stage_after(first, e, events.drop_last()), e, events.last())
    }
}

/// Whether events show an accepted credential for a stage.
pub open spec fn shows(events: Seq<AttemptEvent>, stage: AttemptStage) -> bool {
    exists|i: int| 0 <= i < events.len() && credential_accepted(stage, #[trigger] events[i])
}

/// Whether events show every credential that an enrollment names, accepted.
pub open spec fn credentials_shown(e: EnrollmentView, events: Seq<AttemptEvent>) -> bool {
    &&& shows(events, AttemptStage::ReadSecret)
    &&& e.ca_file is Some ==> shows(events, AttemptStage::ReadRoots)
    &&& e.mtls_cert_file is Some && e.mtls_key_file is Some ==> shows(events, AttemptStage::ReadIdentity)
}

/// The stages that look the name up, or come after that.
pub open spec fn past_credentials(stage: AttemptStage) -> bool {
    stage == AttemptStage::LookUp || stage == AttemptStage::Send || stage == AttemptStage::Receive || stage
        == AttemptStage::Answered
}

proof fn lemma_shown_stays(events: Seq<AttemptEvent>, stage: AttemptStage)
    requires
        events.len() > 0,
        shows(events.drop_last(), stage) || credential_accepted(stage, events.last()),
    ensures
        shows(events, stage),
{
    if shows(events.drop_last(), stage) {
        let i = choose|i: int|
            0 <= i < events.drop_last().len() && credential_accepted(stage, #[trigger] events.drop_last()[i]);
        assert(credential_accepted(stage, events[i]));
    } else {
        assert(credential_accepted(stage, events[events.len() - 1]));
    }
}

proof fn lemma_shown_so_far(first: AttemptStage, e: EnrollmentView, events: Seq<AttemptEvent>)
    requires
        first == AttemptStage::ReadSecret || first is Failed,
    ensures
        ({
            let stage = stage_after(first, e, events);
            &&& first is Failed ==> stage == first
            &&& stage == AttemptStage::ReadRoots ==> shows(events, AttemptStage::ReadSecret)
            &&& stage == AttemptStage::ReadIdentity ==> shows(events, AttemptStage::ReadSecret) && (e.ca_file is Some
                ==> shows(events, AttemptStage::ReadRoots))
            &&& past_credentials(stage) ==> credentials_shown(e, events)
        }),
    decreases events.len(),
{
    if events.len() > 0 {
        let before = events.drop_last();
        lemma_shown_so_far(first, e, before);
        let stages = seq![AttemptStage::ReadSecret, AttemptStage::ReadRoots, AttemptStage::ReadIdentity];
        assert forall|k: int| 0 <= k < 3 implies (shows(before, stages[k]) || credential_accepted(
            stages[k],
            events.last(),
        ) ==> shows(events, #[trigger] stages[k])) by {
            if shows(before, stages[k]) || credential_accepted(stages[k], events.last()) {
                lemma_shown_stays(events, stages[k]);
            }
        }
        assert(stages[0] == AttemptStage::ReadSecret && stages[1] == AttemptStage::ReadRoots && stages[2]
            == AttemptStage::ReadIdentity);
    }
}

/// A name is looked up, and anything is sent, only by an attempt whose arguments are
/// allowed and whose enrollment's every credential was accepted before.
pub proof fn law_credentials_come_before_lookups(
    body_len: usize,
    attempt: u32,
    max_response_bytes: usize,
    e: EnrollmentView,
    events: Seq<AttemptEvent>,
)
    requires
        past_credentials(stage_after(first_stage(body_len, attempt, max_response_bytes), e, events)),
    ensures
        attempt_allowed(body_len, attempt, max_response_bytes),
        credentials_shown(e, events),
{
    lemma_shown_so_far(first_stage(body_len, attempt, max_response_bytes), e, events);
}

/// Arguments that are not allowed, and a credential that is not accepted, fail the attempt
/// as misconfigured. Nothing that comes after changes that.
pub proof fn law_misconfigured_attempts_end(
    body_len: usize,
    attempt: u32,
    max_response_bytes: usize,
    e: EnrollmentView,
    events: Seq<AttemptEvent>,
    later: Seq<AttemptEvent>,
)
    requires
        !attempt_allowed(body_len, attempt, max_response_bytes) || (events.len() > 0 && ({
            let stage = stage_after(first_stage(body_len, attempt, max_response_bytes), e, events.drop_last());
            reads_credential(stage) && !credential_accepted(stage, events.last())
        })),
    ensures
        stage_after(first_stage(body_len, attempt, max_response_bytes), e, events + later) == AttemptStage::Failed(
            CallbackTransportError::Configuration,
        ),
    decreases later.len(),
{
    let first = first_stage(body_len, attempt, max_response_bytes);
    if later.len() == 0 {
        assert(events + later =~= events);
        lemma_shown_so_far(first, e, events);
    } else {
        law_misconfigured_attempts_end(body_len, attempt, max_response_bytes, e, events, later.drop_last());
        assert((events + later).drop_last() =~= events + later.drop_last());
    }
}

/// A callback is attempted exactly with a body of between one byte and a quarter of a mebibyte,
/// from the first attempt on, and with room for a response; it then begins with its secret.
pub proof fn law_attempts_begin_with_the_secret(body_len: usize, attempt: u32, max_response_bytes: usize)
    ensures
        body_len >= 1 && body_len <= 262_144 && attempt >= 1 && max_response_bytes >= 1
            ==> first_stage(body_len, attempt, max_response_bytes) == AttemptStage::ReadSecret,
        body_len == 0 || body_len > 262_144 || attempt == 0 || max_response_bytes == 0 ==> first_stage(
            body_len,
            attempt,
            max_response_bytes,
        ) == AttemptStage::Failed(CallbackTransportError::Configuration),
{
}

/// An attempt whose every credential is accepted goes on to the lookup, reading the
/// certificates exactly where its enrollment has a file of them and the identity exactly where
/// it has both files of one.
pub proof fn law_accepted_credentials_lead_on(
    e: EnrollmentView,
    secret: Vec<u8>,
    roots: Vec<u8>,
    cert: Vec<u8>,
    key: Vec<u8>,
)
    requires
        32 <= secret@.len() <= 4096,
        policy::certificates_of(roots@) is Some,
        policy::certificates_of(roots@)->0.len() > 0,
        policy::identity_material(cert@, key@),
        policy::identity_of(cert@ + key@),
    ensures
        ({
            let identity = e.mtls_cert_file is Some && e.mtls_key_file is Some;
            let next = next_stage(AttemptStage::ReadSecret, e, AttemptEvent::Secret(Some(secret)));
            &&& e.ca_file is Some ==> next == AttemptStage::ReadRoots
            &&& e.ca_file is None && identity ==> next == AttemptStage::ReadIdentity
            &&& e.ca_file is None && !identity ==> next == AttemptStage::LookUp
            &&& next_stage(AttemptStage::ReadRoots, e, AttemptEvent::Roots(Some(roots))) == (if identity {
                AttemptStage::ReadIdentity
            } else {
                AttemptStage::LookUp
            })
            &&& next_stage(AttemptStage::ReadIdentity, e, AttemptEvent::Identity(Some(cert), Some(key)))
                == AttemptStage::LookUp
        }),
{
}

/// A secret that is absent, too short or too long, certificates that cannot be read and an
/// identity that lacks a part fail the attempt.
pub proof fn law_bad_credentials_fail_the_attempt(e: EnrollmentView, secret: Vec<u8>, cert: Option<Vec<u8>>)
    ensures
        next_stage(AttemptStage::ReadSecret, e, AttemptEvent::Secret(None)) == AttemptStage::Failed(
            CallbackTransportError::Configuration,
        ),
        secret@.len() < 32 || secret@.len() > 4096 ==> next_stage(
            AttemptStage::ReadSecret,
            e,
            AttemptEvent::Secret(Some(secret)),
        ) == AttemptStage::Failed(CallbackTransportError::Configuration),
        next_stage(AttemptStage::ReadRoots, e, AttemptEvent::Roots(None)) == AttemptStage::Failed(
            CallbackTransportError::Configuration,
        ),
        next_stage(AttemptStage::ReadIdentity, e, AttemptEvent::Identity(cert, None)) == AttemptStage::Failed(
            CallbackTransportError::Configuration,
        ),
        next_stage(AttemptStage::ReadIdentity, e, AttemptEvent::Identity(None, cert)) == AttemptStage::Failed(
            CallbackTransportError::Configuration,
        ),
{
}

/// After its credentials an attempt looks up, sends and receives in that order, and ends with
/// an answer exactly where none of the three failed.
pub proof fn law_attempts_look_up_send_and_receive(
    e: EnrollmentView,
    error: PushSecurityError,
    failure: CallbackTransportError,
)
    ensures
        next_stage(AttemptStage::LookUp, e, AttemptEvent::LookedUp(None)) == AttemptStage::Send,
        next_stage(AttemptStage::Send, e, AttemptEvent::Sent(None)) == AttemptStage::Receive,
        next_stage(AttemptStage::Receive, e, AttemptEvent::Received(None)) == AttemptStage::Answered,
        next_stage(AttemptStage::LookUp, e, AttemptEvent::LookedUp(Some(error))) == AttemptStage::Failed(
            transport::lookup_failure(error),
        ),
        next_stage(AttemptStage::Send, e, AttemptEvent::Sent(Some(failure))) is Failed,
        next_stage(AttemptStage::Receive, e, AttemptEvent::Received(Some(failure))) == AttemptStage::Failed(failure),
{
}

/// An answer, a failure, and an event that belongs to another stage are never turned into
/// progress.
pub proof fn law_attempts_never_skip_a_stage(stage: AttemptStage, e: EnrollmentView, event: AttemptEvent)
    ensures
        stage == AttemptStage::Answered ==> next_stage(stage, e, event) == stage,
        stage is Failed ==> next_stage(stage, e, event) == stage,
        next_stage(stage, e, event) == AttemptStage::Send ==> stage == AttemptStage::LookUp && event is LookedUp,
        next_stage(stage, e, event) == AttemptStage::Receive ==> stage == AttemptStage::Send && event is Sent,
        next_stage(stage, e, event) == AttemptStage::Answered ==> stage == AttemptStage::Answered || stage
            == AttemptStage::Receive && event is Received,
        next_stage(stage, e, event) == AttemptStage::LookUp ==> stage == AttemptStage::ReadSecret && event is Secret
            || stage == AttemptStage::ReadRoots && event is Roots || stage == AttemptStage::ReadIdentity && event
            is Identity,
        next_stage(stage, e, event) == AttemptStage::ReadIdentity ==> stage == AttemptStage::ReadSecret || stage
            == AttemptStage::ReadRoots,
        next_stage(stage, e, event) == AttemptStage::ReadRoots ==> stage == AttemptStage::ReadSecret,
        next_stage(stage, e, event) != AttemptStage::ReadSecret,
{
}

} // verus!
