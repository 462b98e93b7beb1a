//! What a callback is signed with, and the identities that it carries.

use vstd::prelude::*;

use crate::crypto;
use crate::push_error::PushSecurityError;
use crate::text;

verus! {

/// The shortest signing secret, in bytes.
pub const MIN_SECRET_BYTES: usize = 32;

/// The longest signing secret, in bytes.
pub const MAX_SECRET_BYTES: usize = 4096;

/// What a signature covers.
pub struct SignedParts {
    pub target: Seq<char>,
    pub endpoint_id: Seq<char>,
    pub event_id: Seq<char>,
    pub timestamp: u64,
    pub attempt: u32,
    pub key_generation: Seq<char>,
    pub body_digest: Seq<u8>,
}

/// The bytes that a signature is made over: every part behind its length or of a
/// fixed width.
pub open spec fn signing_bytes(p: SignedParts) -> Seq<u8> {
    text::utf8("smesh-callback-signature/v1"@) + text::framed(text::utf8("POST"@)) + text::framed(
        text::utf8(p.target),
    ) + text::framed(text::utf8(p.endpoint_id)) + text::framed(text::utf8(p.event_id)) + text::be64(p.timestamp)
        + text::be32(p.attempt) + text::framed(text::utf8(p.key_generation)) + p.body_digest
}

/// The signature of some parts under a secret.
pub open spec fn signature_of(secret: Seq<u8>, p: SignedParts) -> Seq<char> {
    "v1,hmac-sha256="@ + crypto::base64url_of(crypto::hmac_sha256_of(secret, signing_bytes(p)))
}

/// The bytes that a signature is made over.
pub fn signing_input(
    target: &str,
    endpoint_id: &str,
    event_id: &str,
    timestamp: u64,
    attempt: u32,
    key_generation: &str,
    body: &[u8],
) -> (r: Vec<u8>)
    ensures
        r@ == signing_bytes(
            SignedParts {
                target: target@,
                endpoint_id: endpoint_id@,
                event_id: event_id@,
                timestamp,
                attempt,
                key_generation: key_generation@,
                body_digest: crypto::sha256_of(body@),
            },
        ),
{
    let mut input = text::copy_bytes("smesh-callback-signature/v1".as_bytes());
    text::push_len(&mut input, "POST".as_bytes());
    text::push_len(&mut input, target.as_bytes());
    text::push_len(&mut input, endpoint_id.as_bytes());
    text::push_len(&mut input, event_id.as_bytes());
    text::push_be64(&mut input, timestamp);
    text::push_be32(&mut input, attempt);
    text::push_len(&mut input, key_generation.as_bytes());
    let digest: [u8; 32] = crypto::sha256(body);
    text::push_bytes(&mut input, digest.as_slice());
    input
}

/// Signs callbacks with a secret of the operator. The secret is never shown.
pub struct CallbackSigner {
    secret: Vec<u8>,
}

impl CallbackSigner {
    /// The secret.
    pub closed spec fn secret(self) -> Seq<u8> {
        self.secret@
    }

    /// A signer with a secret of a reasonable length.
    pub fn new(secret: &[u8]) -> (r: Result<CallbackSigner, PushSecurityError>)
        ensures
            match r {
                Ok(s) => MIN_SECRET_BYTES <= secret@.len() <= MAX_SECRET_BYTES && s.secret() == secret@,
                Err(e) => e == PushSecurityError::InvalidSecret && !(MIN_SECRET_BYTES <= secret@.len()
                    <= MAX_SECRET_BYTES),
            },
            r is Ok <==> 32 <= secret@.len() && secret@.len() <= 4096,
    {
        if secret.len() < MIN_SECRET_BYTES || secret.len() > MAX_SECRET_BYTES {
            return Err(PushSecurityError::InvalidSecret);
        }
        Ok(CallbackSigner { secret: text::copy_bytes(secret) })
    }

    /// The signature of one attempt.
    pub fn sign(
        &self,
        target: &str,
        endpoint_id: &str,
        event_id: &str,
        timestamp: u64,
        attempt: u32,
        key_generation: &str,
        body: &[u8],
    ) -> (r: String)
        ensures
            r@ == signature_of(
                self.secret(),
                SignedParts {
                    target: target@,
                    endpoint_id: endpoint_id@,
                    event_id: event_id@,
                    timestamp,
                    attempt,
                    key_generation: key_generation@,
                    body_digest: crypto::sha256_of(body@),
                },
            ),
    {
        let input = signing_input(target, endpoint_id, event_id, timestamp, attempt, key_generation, body);
        let tag: [u8; 32] = crypto::hmac_sha256(self.secret.as_slice(), input.as_slice());
        let encoded = crypto::base64url(tag.as_slice());
        let mut out = "v1,hmac-sha256=".to_owned();
        out.append(encoded.as_str());
        out
    }

    /// Whether a candidate is the signature of one attempt: that one and no other is
    /// accepted.
    pub fn verify(
        &self,
        target: &str,
        endpoint_id: &str,
        event_id: &str,
        timestamp: u64,
        attempt: u32,
        key_generation: &str,
        body: &[u8],
        candidate: &str,
    ) -> (r: bool)
        ensures
            r == (candidate@ == signature_of(
                self.secret(),
                SignedParts {
                    target: target@,
                    endpoint_id: endpoint_id@,
                    event_id: event_id@,
                    timestamp,
                    attempt,
                    key_generation: key_generation@,
                    body_digest: crypto::sha256_of(body@),
                },
            )),
    {
        let expected = self.sign(target, endpoint_id, event_id, timestamp, attempt, key_generation, body);
        proof {
            text::lemma_utf8_injective(expected@, candidate@);
        }
        crypto::constant_time_same(expected.as_str().as_bytes(), candidate.as_bytes())
    }

    /// What the signer is shown as: its secret is not shown.
    pub fn redacted(&self) -> (r: &'static str)
        ensures
            r@ == "CallbackSigner([redacted])"@,
    {
        "CallbackSigner([redacted])"
    }
}

proof fn lemma_fixed_prefix(a: Seq<u8>, b: Seq<u8>, rest_a: Seq<u8>, rest_b: Seq<u8>)
    requires
        a.len() == b.len(),
        a + rest_a == b + rest_b,
    ensures
        a == b,
        rest_a == rest_b,
{
    let x = a + rest_a;
    let y = b + rest_b;
    assert(x.subrange(0, a.len() as int) =~= a);
    assert(y.subrange(0, a.len() as int) =~= b);
    assert(x.subrange(a.len() as int, x.len() as int) =~= rest_a);
    assert(y.subrange(a.len() as int, y.len() as int) =~= rest_b);
}

proof fn lemma_regroup(h: Seq<u8>, a: Seq<u8>, b: Seq<u8>, c: Seq<u8>, d: Seq<u8>, e: Seq<u8>, f: Seq<u8>)
    ensures
        h + a + b + c + d + e + f == h + (a + (b + (c + (d + (e + f))))),
{
    assert(d + e + f =~= d + (e + f));
    assert(c + d + e + f =~= c + (d + (e + f)));
    assert(b + c + d + e + f =~= b + (c + (d + (e + f))));
    assert(a + b + c + d + e + f =~= a + (b + (c + (d + (e + f)))));
    assert(h + a + b + c + d + e + f =~= h + (a + b + c + d + e + f));
}

/// Whether every text of some parts is short enough that its length fits its frame.
pub open spec fn frames_fit(p: SignedParts) -> bool {
    &&& text::utf8(p.target).len() <= u64::MAX
    &&& text::utf8(p.endpoint_id).len() <= u64::MAX
    &&& text::utf8(p.event_id).len() <= u64::MAX
    &&& text::utf8(p.key_generation).len() <= u64::MAX
}

proof fn lemma_signing_bytes(p: SignedParts)
    ensures
        signing_bytes(p) == (text::utf8("smesh-callback-signature/v1"@) + text::framed(text::utf8("POST"@))) + (
        text::framed(text::utf8(p.target)) + (text::framed(text::utf8(p.endpoint_id)) + (text::framed(
            text::utf8(p.event_id),
        ) + (text::be64(p.timestamp) + (text::be32(p.attempt) + (text::framed(text::utf8(p.key_generation))
            + p.body_digest)))))),
{
    let head = text::utf8("smesh-callback-signature/v1"@) + text::framed(text::utf8("POST"@));
    let front = head + text::framed(text::utf8(p.target)) + text::framed(text::utf8(p.endpoint_id)) + text::framed(
        text::utf8(p.event_id),
    ) + text::be64(p.timestamp) + text::be32(p.attempt);
    let last = text::framed(text::utf8(p.key_generation));
    assert(front + last + p.body_digest =~= front + (last + p.body_digest));
    lemma_regroup(
        head,
        text::framed(text::utf8(p.target)),
        text::framed(text::utf8(p.endpoint_id)),
        text::framed(text::utf8(p.event_id)),
        text::be64(p.timestamp),
        text::be32(p.attempt),
        last + p.body_digest,
    );
}

/// The bytes that a signature is made over determine everything it covers: no two
/// different attempts are signed over the same bytes.
pub proof fn law_signing_bytes_are_unambiguous(a: SignedParts, b: SignedParts)
    requires
        frames_fit(a),
        frames_fit(b),
        signing_bytes(a) == signing_bytes(b),
    ensures
        a == b,
{
    let head = text::utf8("smesh-callback-signature/v1"@) + text::framed(text::utf8("POST"@));
    let (ka, kb) = (
        text::framed(text::utf8(a.key_generation)) + a.body_digest,
        text::framed(text::utf8(b.key_generation)) + b.body_digest,
    );
    let (na, nb) = (text::be32(a.attempt) + ka, text::be32(b.attempt) + kb);
    let (ta, tb) = (text::be64(a.timestamp) + na, text::be64(b.timestamp) + nb);
    let (ea, eb) = (text::framed(text::utf8(a.event_id)) + ta, text::framed(text::utf8(b.event_id)) + tb);
    let (pa, pb) = (text::framed(text::utf8(a.endpoint_id)) + ea, text::framed(text::utf8(b.endpoint_id)) + eb);
    let (ga, gb) = (text::framed(text::utf8(a.target)) + pa, text::framed(text::utf8(b.target)) + pb);
    lemma_signing_bytes(a);
    lemma_signing_bytes(b);
    lemma_fixed_prefix(head, head, ga, gb);
    text::lemma_framed_prefix(text::utf8(a.target), text::utf8(b.target), pa, pb);
    text::lemma_framed_prefix(text::utf8(a.endpoint_id), text::utf8(b.endpoint_id), ea, eb);
    text::lemma_framed_prefix(text::utf8(a.event_id), text::utf8(b.event_id), ta, tb);
    text::lemma_be64_injective(a.timestamp, b.timestamp);
    text::lemma_be64_injective(b.timestamp, a.timestamp);
    lemma_fixed_prefix(text::be64(a.timestamp), text::be64(b.timestamp), na, nb);
    text::lemma_be32_injective(a.attempt, b.attempt);
    text::lemma_be32_injective(b.attempt, a.attempt);
    lemma_fixed_prefix(text::be32(a.attempt), text::be32(b.attempt), ka, kb);
    text::lemma_framed_prefix(
        text::utf8(a.key_generation),
        text::utf8(b.key_generation),
        a.body_digest,
        b.body_digest,
    );
    text::lemma_utf8_injective(a.target, b.target);
    text::lemma_utf8_injective(a.endpoint_id, b.endpoint_id);
    text::lemma_utf8_injective(a.event_id, b.event_id);
    text::lemma_utf8_injective(a.key_generation, b.key_generation);
}

/// The digest of a body as a header carries it.
pub open spec fn digest_header_of(body: Seq<u8>) -> Seq<char> {
    "sha-256=:"@ + crypto::base64_of(crypto::sha256_of(body)) + ":"@
}

/// The SHA-256 digest of a body in dictionary form.
pub fn content_digest_header(body: &[u8]) -> (r: String)
    ensures
        r@ == digest_header_of(body@),
{
    let digest: [u8; 32] = crypto::sha256(body);
    let encoded = crypto::base64(digest.as_slice());
    let mut out = "sha-256=:".to_owned();
    out.append(encoded.as_str());
    out.append(":");
    out
}

/// What identifies the delivery of a terminal task to a callback.
pub struct DeliveryKey {
    pub tenant: Seq<char>,
    pub task_id: Seq<char>,
    pub event_sequence: u64,
    pub task_revision: u64,
    pub config_id: Seq<char>,
    pub config_generation: u64,
}

/// The bytes that a delivery's identity is the digest of.
pub open spec fn delivery_bytes(k: DeliveryKey) -> Seq<u8> {
    text::utf8("smesh-callback/v1"@) + text::framed(text::utf8(k.tenant)) + text::framed(text::utf8(k.task_id))
        + text::framed(text::utf8(k.config_id)) + text::be64(k.event_sequence) + text::be64(k.task_revision)
        + text::be64(k.config_generation)
}

/// The stable identity of a delivery: sixty-four lower-case hexadecimal digits.
pub fn delivery_event_id(
    tenant: &str,
    task_id: &str,
    event_sequence: u64,
    task_revision: u64,
    config_id: &str,
    config_generation: u64,
) -> (r: String)
    ensures
        r@ == text::hex(
            crypto::sha256_of(
                delivery_bytes(
                    DeliveryKey {
                        tenant: tenant@,
                        task_id: task_id@,
                        event_sequence,
                        task_revision,
                        config_id: config_id@,
                        config_generation,
                    },
                ),
            ),
        ),
        r@.len() == 64,
{
    let mut input = text::copy_bytes("smesh-callback/v1".as_bytes());
    text::push_len(&mut input, tenant.as_bytes());
    text::push_len(&mut input, task_id.as_bytes());
    text::push_len(&mut input, config_id.as_bytes());
    text::push_be64(&mut input, event_sequence);
    text::push_be64(&mut input, task_revision);
    text::push_be64(&mut input, config_generation);
    let digest: [u8; 32] = crypto::sha256(input.as_slice());
    text::hex_text(digest.as_slice())
}

/// The bytes that a delivery's identity is the digest of determine the delivery: two
/// identities are the same only where the delivery is or where the digest collides.
pub proof fn law_delivery_bytes_are_unambiguous(a: DeliveryKey, b: DeliveryKey)
    requires
        text::utf8(a.tenant).len() <= u64::MAX,
        text::utf8(a.task_id).len() <= u64::MAX,
        text::utf8(a.config_id).len() <= u64::MAX,
        text::utf8(b.tenant).len() <= u64::MAX,
        text::utf8(b.task_id).len() <= u64::MAX,
        text::utf8(b.config_id).len() <= u64::MAX,
        delivery_bytes(a) == delivery_bytes(b),
    ensures
        a == b,
{
    let head = text::utf8("smesh-callback/v1"@);
    let (ga, gb) = (text::be64(a.config_generation), text::be64(b.config_generation));
    let (ra, rb) = (text::be64(a.task_revision) + ga, text::be64(b.task_revision) + gb);
    let (sa, sb) = (text::be64(a.event_sequence) + ra, text::be64(b.event_sequence) + rb);
    let (ca, cb) = (text::framed(text::utf8(a.config_id)) + sa, text::framed(text::utf8(b.config_id)) + sb);
    let (ta, tb) = (text::framed(text::utf8(a.task_id)) + ca, text::framed(text::utf8(b.task_id)) + cb);
    let (na, nb) = (text::framed(text::utf8(a.tenant)) + ta, text::framed(text::utf8(b.tenant)) + tb);
    lemma_regroup(
        head,
        text::framed(text::utf8(a.tenant)),
        text::framed(text::utf8(a.task_id)),
        text::framed(text::utf8(a.config_id)),
        text::be64(a.event_sequence),
        text::be64(a.task_revision),
        ga,
    );
    lemma_regroup(
        head,
        text::framed(text::utf8(b.tenant)),
        text::framed(text::utf8(b.task_id)),
        text::framed(text::utf8(b.config_id)),
        text::be64(b.event_sequence),
        text::be64(b.task_revision),
        gb,
    );
    lemma_fixed_prefix(head, head, na, nb);
    text::lemma_framed_prefix(text::utf8(a.tenant), text::utf8(b.tenant), ta, tb);
    text::lemma_framed_prefix(text::utf8(a.task_id), text::utf8(b.task_id), ca, cb);
    text::lemma_framed_prefix(text::utf8(a.config_id), text::utf8(b.config_id), sa, sb);
    text::lemma_be64_injective(a.event_sequence, b.event_sequence);
    text::lemma_be64_injective(b.event_sequence, a.event_sequence);
    lemma_fixed_prefix(text::be64(a.event_sequence), text::be64(b.event_sequence), ra, rb);
    text::lemma_be64_injective(a.task_revision, b.task_revision);
    text::lemma_be64_injective(b.task_revision, a.task_revision);
    lemma_fixed_prefix(text::be64(a.task_revision), text::be64(b.task_revision), ga, gb);
    text::lemma_be64_injective(a.config_generation, b.config_generation);
    text::lemma_utf8_injective(a.tenant, b.tenant);
    text::lemma_utf8_injective(a.task_id, b.task_id);
    text::lemma_utf8_injective(a.config_id, b.config_id);
}

} // verus!
