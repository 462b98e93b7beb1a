//! Attempts on the wire, and the files that hold secrets.

use smesh_authority::address::IpAddr;
use smesh_authority::callback_url::CanonicalCallbackUrl;
use smesh_authority::policy::{validate_raw_policy, PushPolicy, RawEnrollment, RawPolicy};
use smesh_authority::private_file::{
    bounded_read_limit, check_callback_path, check_private_path, exact_read_limit, read_owner_private_exact,
    read_private_file, FileFacts, PrivateFileError,
};
use smesh_authority::push_error::{CallbackTransportError, PushSecurityError};
use smesh_authority::retry::DeliveryDisposition;
use smesh_authority::signer::CallbackSigner;
use smesh_authority::transport::{
    accept_response, accept_response_at, attempt_signer, callback_headers, check_send, check_send_enrollment, check_test_host,
    classify_lookup_failure, classify_reqwest_error, classify_send_failure, error_chain_contains_rustls, header_bytes,
    receive_more, ErrorLink, SecureCallbackTransport, SocketAddr, SystemCallbackResolver, TestHost,
};

const LOOPBACK: IpAddr = IpAddr::V4(0x7f00_0001);
const PUBLIC: IpAddr = IpAddr::V4(0x0808_0808);
const PRIVATE: IpAddr = IpAddr::V4(0x0a00_0001);

fn policy(mtls: bool) -> PushPolicy {
    validate_raw_policy(RawPolicy {
        schema: "smesh-push/1".to_string(),
        enabled: true,
        policy_id: "p".to_string(),
        policy_revision: 1,
        policy_digest: format!("sha256:{}", "0".repeat(64)),
        max_pending: 10,
        max_configs_per_task: 1,
        max_configs_per_tenant: 1,
        worker_count: 1,
        claim_batch: 1,
        claim_lease_ms: 1_000,
        dns_timeout_ms: 11,
        max_dns_answers: 4,
        connect_timeout_ms: 12,
        request_timeout_ms: 13,
        max_response_bytes: 1,
        max_attempts: 1,
        base_retry_ms: 1,
        max_retry_ms: 1,
        max_delivery_age_ms: 1,
        enrollments: vec![RawEnrollment {
            tenant: "t".to_string(),
            endpoint_id: "e".to_string(),
            url: "https://a.example:443/x".to_string(),
            event: "terminal".to_string(),
            auth: "hmac-sha256".to_string(),
            key_generation: "g".to_string(),
            secret_file: "/s".to_string(),
            ca_file: None,
            mtls_cert_file: if mtls { Some("/c".to_string()) } else { None },
            mtls_key_file: if mtls { Some("/k".to_string()) } else { None },
        }],
    })
    .unwrap()
}

fn target() -> CanonicalCallbackUrl {
    CanonicalCallbackUrl::parse("https://a.example:8443/x").unwrap()
}

#[test]
fn transports_bound_the_answers_of_a_lookup() {
    assert!(SecureCallbackTransport::new(0).is_err());
    assert_eq!(SecureCallbackTransport::new(33).err(), Some(PushSecurityError::InvalidPolicy));
    let transport = SecureCallbackTransport::new(32).unwrap();
    assert_eq!(transport.dns_timeout_ms(), 2_000);
    assert_eq!(transport.connect_timeout_ms(), 3_000);
    assert_eq!(transport.request_timeout_ms(), 10_000);
    assert_eq!(SystemCallbackResolver::new(), SystemCallbackResolver::default());
}

#[test]
fn a_policy_sets_the_timeouts() {
    let transport = SecureCallbackTransport::from_policy_system(&policy(false));
    assert_eq!(transport.dns_timeout_ms(), 11);
    assert_eq!(transport.connect_timeout_ms(), 12);
    assert_eq!(transport.request_timeout_ms(), 13);
}

#[test]
fn attempts_are_pinned_to_the_first_safe_answer() {
    let transport = SecureCallbackTransport::new(2).unwrap();
    let mapped = IpAddr::V6((0xffff << 32) | 0x0808_0808);
    let other = IpAddr::V4(0x0101_0101);
    assert_eq!(
        transport.resolve_attempt(&Ok(vec![PUBLIC, other]), &target()),
        Ok(SocketAddr { ip: PUBLIC, port: 8443 })
    );
    assert_eq!(
        transport.resolve_attempt(&Ok(vec![PUBLIC, mapped]), &target()),
        Err(PushSecurityError::UnsafeDns)
    );
    assert_eq!(
        transport.resolve_attempt(&Ok(vec![PUBLIC, PRIVATE]), &target()),
        Err(PushSecurityError::UnsafeDns)
    );
    assert_eq!(
        transport.resolve_attempt(&Ok(vec![PUBLIC, PUBLIC, PUBLIC]), &target()),
        Err(PushSecurityError::UnsafeDns)
    );
    assert_eq!(transport.resolve_attempt(&Ok(vec![LOOPBACK]), &target()), Err(PushSecurityError::UnsafeDns));
    assert_eq!(
        transport.resolve_attempt(&Err(PushSecurityError::DnsUnavailable), &target()),
        Err(PushSecurityError::DnsUnavailable)
    );
}

#[test]
fn test_answers_are_read_from_their_file() {
    let read = |text: &str| SecureCallbackTransport::read_test_answers(text.as_bytes());
    assert_eq!(
        read(r#"{"b.example":["127.0.0.1"],"a.example":["::1","x"]}"#),
        Ok(vec![
            ("a.example".to_string(), vec!["::1".to_string(), "x".to_string()]),
            ("b.example".to_string(), vec!["127.0.0.1".to_string()]),
        ])
    );
    let invalid = Err(PushSecurityError::InvalidPolicy);
    assert_eq!(read("{}"), invalid);
    assert_eq!(read("{\"a\":\"127.0.0.1\"}"), invalid);
    assert_eq!(read("["), invalid);
    let many: Vec<String> = (0..33).map(|i| format!("\"h{i}\":[]")).collect();
    assert_eq!(read(&format!("{{{}}}", many.join(","))), invalid);
    assert!(read(&format!("{{{}}}", many[..32].join(","))).is_ok());
}

fn test_host(host: &str, answers: Vec<Option<IpAddr>>) -> TestHost {
    TestHost { host: host.to_string(), answers }
}

#[test]
fn fixed_answers_are_loopback_only() {
    let p = policy(false);
    let build = |hosts: Vec<TestHost>, enabled: bool| {
        SecureCallbackTransport::from_policy_test_dns_map(&p, &Some(hosts), enabled).err()
    };
    let invalid = Some(PushSecurityError::InvalidPolicy);
    assert_eq!(build(vec![test_host("a.example", vec![Some(LOOPBACK)])], true), None);
    assert_eq!(build(vec![test_host("a.example", vec![Some(LOOPBACK)])], false), invalid);
    assert_eq!(build(Vec::new(), true), invalid);
    assert_eq!(build(vec![test_host("a.example", vec![])], true), invalid);
    assert_eq!(build(vec![test_host("a.example", vec![Some(PUBLIC)])], true), invalid);
    assert_eq!(build(vec![test_host("a.example", vec![None])], true), invalid);
    assert_eq!(build(vec![test_host("a.example", vec![Some(LOOPBACK); 9])], true), invalid);
    assert_eq!(
        build(vec![test_host("A.example", vec![Some(LOOPBACK)])], true),
        Some(PushSecurityError::InvalidDestination)
    );
    assert_eq!(SecureCallbackTransport::from_policy_test_dns_map(&p, &None, true).err(), invalid);
    assert_eq!(
        check_test_host(&test_host("a.example", vec![Some(LOOPBACK)]), &None),
        Err(PushSecurityError::InvalidDestination)
    );
}

#[test]
fn fixed_answers_are_taken_as_they_are() {
    let hosts = Some(vec![test_host("a.example", vec![Some(LOOPBACK)])]);
    let transport = SecureCallbackTransport::from_policy_test_dns_map(&policy(false), &hosts, true).unwrap();
    assert_eq!(
        transport.resolve_attempt(&Ok(vec![LOOPBACK]), &target()),
        Ok(SocketAddr { ip: LOOPBACK, port: 8443 })
    );
    assert_eq!(
        transport.resolve_attempt(&Ok(vec![LOOPBACK, PRIVATE]), &target()),
        Err(PushSecurityError::UnsafeDns)
    );
    assert!(transport.resolve_attempt(&Ok(vec![LOOPBACK; 5]), &target()).is_err());
    assert_eq!(
        transport.resolve_attempt(&Ok(vec![PUBLIC]), &target()),
        Ok(SocketAddr { ip: PUBLIC, port: 8443 })
    );
}

#[test]
fn redirected_connections_are_recorded() {
    let invalid = Some(PushSecurityError::InvalidPolicy);
    assert_eq!(SecureCallbackTransport::new_test_mapped(4, vec![(PUBLIC, LOOPBACK)], false).err(), invalid);
    assert_eq!(SecureCallbackTransport::new_test_mapped(4, vec![], true).err(), invalid);
    assert_eq!(SecureCallbackTransport::new_test_mapped(4, vec![(PRIVATE, LOOPBACK)], true).err(), invalid);
    assert_eq!(SecureCallbackTransport::new_test_mapped(4, vec![(PUBLIC, PUBLIC)], true).err(), invalid);
    assert_eq!(SecureCallbackTransport::new_test_mapped(0, vec![(PUBLIC, LOOPBACK)], true).err(), invalid);
    let mut transport = SecureCallbackTransport::new_test_mapped(4, vec![(PUBLIC, LOOPBACK)], true).unwrap();
    let pin = SocketAddr { ip: PUBLIC, port: 9 };
    assert_eq!(transport.connector_socket(pin), SocketAddr { ip: LOOPBACK, port: 9 });
    let other = SocketAddr { ip: IpAddr::V4(0x0101_0101), port: 9 };
    assert_eq!(transport.connector_socket(other), other);
    assert_eq!(transport.test_requested_pins(), &[pin]);
    assert_eq!(
        transport.resolve_attempt(&Ok(vec![LOOPBACK]), &target()),
        Err(PushSecurityError::UnsafeDns)
    );
}

#[test]
fn callbacks_carry_their_headers() {
    let signer = CallbackSigner::new(&[5; 32]).unwrap();
    let url = target();
    let headers = callback_headers(&url, "endpoint", "event", 12, 3, "gen", &signer, b"body");
    let listed: Vec<(&str, &str)> = headers.iter().map(|h| (h.name.as_str(), h.value.as_str())).collect();
    let signature = signer.sign(url.as_str(), "endpoint", "event", 12, 3, "gen", b"body");
    assert_eq!(
        listed,
        vec![
            ("Content-Type", "application/a2a+json"),
            ("Content-Digest", "sha-256=:Iw2DWNyOiJC0xY3utikS7i8gNXrpKlzIYbmOaP4xrLU=:"),
            ("X-Smesh-Callback-Version", "1"),
            ("X-Smesh-Callback-Event-Id", "event"),
            ("X-Smesh-Callback-Endpoint-Id", "endpoint"),
            ("X-Smesh-Callback-Timestamp", "12"),
            ("X-Smesh-Callback-Attempt", "3"),
            ("X-Smesh-Callback-Key-Generation", "gen"),
            ("X-Smesh-Callback-Signature", signature.as_str()),
            ("Idempotency-Key", "event"),
        ]
    );
}

#[test]
fn what_may_be_sent_is_bounded() {
    assert_eq!(check_send(0, 1), Ok(()));
    assert_eq!(check_send(262_144, 1), Ok(()));
    assert_eq!(check_send(262_145, 1), Err(PushSecurityError::InvalidPolicy));
    assert_eq!(check_send(1, 0), Err(PushSecurityError::InvalidPolicy));
    assert_eq!(check_send_enrollment(1, 1, 1), Ok(()));
    for (body, attempt, response) in [(0, 1, 1), (262_145, 1, 1), (1, 0, 1), (1, 1, 0)] {
        assert_eq!(
            check_send_enrollment(body, attempt, response),
            Err(CallbackTransportError::Configuration)
        );
    }
}

#[test]
fn secrets_are_read_again_for_every_attempt() {
    let p = policy(false);
    let enrollment = &p.enrollments()[0];
    assert!(attempt_signer(enrollment, &Some(vec![1; 32])).is_ok());
    assert_eq!(attempt_signer(enrollment, &None).err(), Some(CallbackTransportError::Configuration));
}

#[test]
fn what_is_received_is_bounded() {
    assert_eq!(receive_more(3, 4, 7), Ok(7));
    assert_eq!(receive_more(3, 5, 7), Err(CallbackTransportError::ResponseTooLarge));
    assert_eq!(receive_more(usize::MAX, 1, usize::MAX), Err(CallbackTransportError::ResponseTooLarge));
    assert_eq!(header_bytes(&vec![(2, 3), (1, 1)], 7), Ok(7));
    assert_eq!(header_bytes(&vec![(2, 3), (1, 2)], 7), Err(CallbackTransportError::ResponseTooLarge));
    assert_eq!(header_bytes(&Vec::new(), 7), Ok(0));
}

fn values(list: &[&str]) -> Vec<Option<String>> {
    list.iter().map(|value| Some(value.to_string())).collect()
}

#[test]
fn responses_are_judged_by_their_status() {
    let response = accept_response(503, &values(&["4"]));
    assert_eq!(response.status(), 503);
    assert_eq!(response.disposition(), DeliveryDisposition::Retry);
    assert_eq!(response.retry_after_seconds(), Some(4));
    assert_eq!(accept_response(200, &values(&["4"])).retry_after_seconds(), None);
    assert_eq!(accept_response(200, &values(&["4"])).disposition(), DeliveryDisposition::Delivered);
}

#[test]
fn one_retry_after_value_is_kept() {
    let kept = |status: u16, given: &Vec<Option<String>>| accept_response_at(status, given, 784_111_770).retry_after_seconds();
    assert_eq!(kept(429, &values(&["120"])), Some(120));
    assert_eq!(kept(503, &values(&["Sun, 06 Nov 1994 08:49:37 GMT"])), Some(7));
    assert_eq!(kept(503, &values(&["4", "4"])), None);
    assert_eq!(kept(503, &values(&[])), None);
    assert_eq!(kept(503, &vec![None]), None);
    assert_eq!(kept(500, &values(&["4"])), None);
    assert_eq!(kept(503, &values(&["18446744073709551615"])), Some(18_446_744_073_709_551));
    assert_eq!(kept(503, &values(&["soon"])), None);
}

fn link(tls_error: bool, text: &str) -> ErrorLink {
    ErrorLink { tls_error, text: text.to_string() }
}

#[test]
fn tls_failures_are_recognized() {
    assert!(error_chain_contains_rustls(&vec![link(false, "x"), link(true, "y")]));
    assert!(error_chain_contains_rustls(&vec![link(false, "Invalid peer CERTIFICATE")]));
    assert!(error_chain_contains_rustls(&vec![link(false, "received TLS alert")]));
    assert!(error_chain_contains_rustls(&vec![link(false, "Unknown Issuer")]));
    assert!(error_chain_contains_rustls(&vec![link(false, "not valid for name x")]));
    assert!(!error_chain_contains_rustls(&vec![link(false, "connection refused")]));
    assert!(!error_chain_contains_rustls(&Vec::new()));
}

#[test]
fn failures_have_one_category() {
    let tls = vec![link(true, "")];
    let plain = vec![link(false, "refused")];
    assert_eq!(classify_reqwest_error(true, &tls, true), CallbackTransportError::Timeout);
    assert_eq!(classify_reqwest_error(false, &tls, true), CallbackTransportError::Tls);
    assert_eq!(classify_reqwest_error(false, &plain, true), CallbackTransportError::Connect);
    assert_eq!(classify_reqwest_error(false, &plain, false), CallbackTransportError::Reset);
    let with_identity = policy(true);
    let without = policy(false);
    assert_eq!(
        classify_send_failure(&with_identity.enrollments()[0], CallbackTransportError::Reset),
        CallbackTransportError::Tls
    );
    assert_eq!(
        classify_send_failure(&without.enrollments()[0], CallbackTransportError::Reset),
        CallbackTransportError::Reset
    );
    assert_eq!(
        classify_send_failure(&with_identity.enrollments()[0], CallbackTransportError::Connect),
        CallbackTransportError::Connect
    );
    assert_eq!(classify_lookup_failure(PushSecurityError::UnsafeDns), CallbackTransportError::DnsUnsafe);
    assert_eq!(classify_lookup_failure(PushSecurityError::DnsUnavailable), CallbackTransportError::DnsUnavailable);
    assert_eq!(classify_lookup_failure(PushSecurityError::InvalidPolicy), CallbackTransportError::Configuration);
}

#[test]
fn transport_errors_have_texts() {
    assert_eq!(CallbackTransportError::DnsUnsafe.message(), "callback DNS result is unsafe");
    assert_eq!(CallbackTransportError::DnsUnavailable.message(), "callback DNS lookup is unavailable");
    assert_eq!(CallbackTransportError::Tls.message(), "callback TLS validation failed");
    assert_eq!(CallbackTransportError::Configuration.message(), "callback transport configuration is invalid");
    assert_eq!(CallbackTransportError::Connect.message(), "callback connection failed");
    assert_eq!(CallbackTransportError::Timeout.message(), "callback attempt timed out");
    assert_eq!(CallbackTransportError::Reset.message(), "callback connection was reset");
    assert_eq!(CallbackTransportError::ResponseTooLarge.message(), "callback response exceeded its bound");
}

fn private() -> FileFacts {
    FileFacts { regular: true, owner: 1000, mode: 0o100_600, length: 32 }
}

#[test]
fn secret_files_belong_to_their_reader_alone() {
    assert_eq!(exact_read_limit(&private(), 1000, 32), Ok(33));
    for refused in [
        FileFacts { regular: false, ..private() },
        FileFacts { owner: 0, ..private() },
        FileFacts { mode: 0o100_640, ..private() },
        FileFacts { mode: 0o100_604, ..private() },
        FileFacts { mode: 0o100_601, ..private() },
    ] {
        assert_eq!(exact_read_limit(&refused, 1000, 32), Err(PrivateFileError));
        assert_eq!(bounded_read_limit(&refused, 1000, 4096), Err(PushSecurityError::InvalidSecret));
    }
    assert_eq!(exact_read_limit(&private(), 1000, usize::MAX), Err(PrivateFileError));
    assert_eq!(bounded_read_limit(&private(), 1000, 4096), Ok(4097));
    assert_eq!(bounded_read_limit(&private(), 1000, 31), Err(PushSecurityError::InvalidSecret));
}

#[test]
fn secret_paths_are_absolute() {
    assert_eq!(check_private_path(b"/run/key"), Ok(()));
    assert_eq!(check_private_path(b"relative-key"), Err(PrivateFileError));
    assert_eq!(check_private_path(b""), Err(PrivateFileError));
    assert_eq!(check_callback_path(b"/run/key"), Ok(()));
    assert_eq!(check_callback_path(b"key"), Err(PushSecurityError::InvalidSecret));
}

#[test]
fn secrets_have_exactly_their_length() {
    assert_eq!(read_owner_private_exact(vec![0xa5; 32], 32), Ok(vec![0xa5; 32]));
    assert_eq!(read_owner_private_exact(vec![1; 31], 32), Err(PrivateFileError));
    assert_eq!(read_owner_private_exact(vec![2; 33], 32), Err(PrivateFileError));
    assert_eq!(read_owner_private_exact(Vec::new(), 32), Err(PrivateFileError));
    assert_eq!(read_private_file(vec![3; 4], 4), Ok(vec![3; 4]));
    assert_eq!(read_private_file(vec![3; 5], 4), Err(PushSecurityError::InvalidSecret));
}

#[test]
fn refused_secret_files_tell_nothing() {
    assert_eq!(PrivateFileError.message(), "private file rejected");
    assert_eq!(format!("{:?}", PrivateFileError), "PrivateFileError");
}
