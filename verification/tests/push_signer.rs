//! Signatures and identities of callbacks.

use smesh_authority::push_error::PushSecurityError;
use smesh_authority::signer::{content_digest_header, delivery_event_id, signing_input, CallbackSigner};

const TARGET: &str = "https://hooks.example.com:443/cb";
const SIGNATURE: &str = "v1,hmac-sha256=ZWQY8B2wjOgy3IMq9A9EO0m6rTqvH1UIEqvu64Pnd9c";

fn secret() -> Vec<u8> {
    (0u8..32).collect()
}

#[test]
fn secrets_have_a_reasonable_length() {
    assert_eq!(CallbackSigner::new(&[1; 31]).err(), Some(PushSecurityError::InvalidSecret));
    assert!(CallbackSigner::new(&[1; 32]).is_ok());
    assert!(CallbackSigner::new(&[1; 4096]).is_ok());
    assert_eq!(CallbackSigner::new(&[1; 4097]).err(), Some(PushSecurityError::InvalidSecret));
}

#[test]
fn signatures_have_the_documented_value() {
    let signer = CallbackSigner::new(&secret()).unwrap();
    let signature = signer.sign(TARGET, "endpoint-1", "event-1", 1_700_000_000, 3, "gen-2", br#"{"a":1}"#);
    assert_eq!(signature, SIGNATURE);
    assert_eq!(signer.redacted(), "CallbackSigner([redacted])");
}

#[test]
fn only_the_signature_itself_verifies() {
    let signer = CallbackSigner::new(&secret()).unwrap();
    let verify = |body: &[u8], attempt: u32, candidate: &str| {
        signer.verify(TARGET, "endpoint-1", "event-1", 1_700_000_000, attempt, "gen-2", body, candidate)
    };
    assert!(verify(br#"{"a":1}"#, 3, SIGNATURE));
    assert!(!verify(br#"{"a":2}"#, 3, SIGNATURE));
    assert!(!verify(br#"{"a":1}"#, 4, SIGNATURE));
    assert!(!verify(br#"{"a":1}"#, 3, &SIGNATURE[..SIGNATURE.len() - 1]));
    assert!(!verify(br#"{"a":1}"#, 3, ""));
    let mut other = secret();
    other[0] = 9;
    let stranger = CallbackSigner::new(&other).unwrap();
    assert!(!stranger.verify(TARGET, "endpoint-1", "event-1", 1_700_000_000, 3, "gen-2", br#"{"a":1}"#, SIGNATURE));
}

#[test]
fn parts_cannot_run_into_each_other() {
    let a = signing_input("t", "ab", "c", 1, 1, "g", b"");
    let b = signing_input("t", "a", "bc", 1, 1, "g", b"");
    assert_ne!(a, b);
    assert_eq!(&a[..27], b"smesh-callback-signature/v1");
    assert_eq!(&a[27..39], b"\0\0\0\0\0\0\0\x04POST");
    assert_eq!(a.len(), 27 + 12 + 9 + 10 + 9 + 8 + 4 + 9 + 32);
}

#[test]
fn body_digests_have_the_documented_form() {
    assert_eq!(content_digest_header(br#"{"a":1}"#), "sha-256=:AVq9f1zFei3ZS3WQ8ErYCEJzkF7jPsXOvq5iJ2qX+GI=:");
    assert_eq!(content_digest_header(b""), "sha-256=:47DEQpj8HBSa+/TImW+5JCeuQeRkm5NMpJWZG3hSuFU=:");
}

#[test]
fn delivery_identities_are_stable_and_distinct() {
    let id = delivery_event_id("tenant", "task", 7, 9, "config", 2);
    assert_eq!(id, "588110a67b3b5c64f34c87e1748541bfe01d9631d585c6c349c2a4aead0c606d");
    assert_eq!(id.len(), 64);
    assert_ne!(delivery_event_id("tenant", "task", 9, 7, "config", 2), id);
    assert_ne!(delivery_event_id("tenan", "ttask", 7, 9, "config", 2), id);
}
