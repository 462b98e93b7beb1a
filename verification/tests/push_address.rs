//! Which addresses callbacks may be sent to.

use smesh_authority::address::{is_loopback, is_public_callback_ip, validate_dns_answers, IpAddr};
use smesh_authority::push_error::PushSecurityError;

fn v4(a: u32, b: u32, c: u32, d: u32) -> IpAddr {
    IpAddr::V4((a << 24) | (b << 16) | (c << 8) | d)
}

fn v6(high: u128) -> IpAddr {
    IpAddr::V6(high << 96)
}

#[test]
fn special_purpose_ipv4_blocks_are_refused_to_their_edges() {
    let refused = [
        (v4(0, 0, 0, 0), v4(0, 255, 255, 255)),
        (v4(10, 0, 0, 0), v4(10, 255, 255, 255)),
        (v4(100, 64, 0, 0), v4(100, 127, 255, 255)),
        (v4(127, 0, 0, 0), v4(127, 255, 255, 255)),
        (v4(169, 254, 0, 0), v4(169, 254, 255, 255)),
        (v4(172, 16, 0, 0), v4(172, 31, 255, 255)),
        (v4(192, 0, 0, 0), v4(192, 0, 0, 255)),
        (v4(192, 0, 2, 0), v4(192, 0, 2, 255)),
        (v4(192, 31, 196, 0), v4(192, 31, 196, 255)),
        (v4(192, 52, 193, 0), v4(192, 52, 193, 255)),
        (v4(192, 88, 99, 0), v4(192, 88, 99, 255)),
        (v4(192, 168, 0, 0), v4(192, 168, 255, 255)),
        (v4(192, 175, 48, 0), v4(192, 175, 48, 255)),
        (v4(198, 18, 0, 0), v4(198, 19, 255, 255)),
        (v4(198, 51, 100, 0), v4(198, 51, 100, 255)),
        (v4(203, 0, 113, 0), v4(203, 0, 113, 255)),
        (v4(224, 0, 0, 0), v4(239, 255, 255, 255)),
        (v4(240, 0, 0, 0), v4(255, 255, 255, 255)),
    ];
    for (first, last) in refused {
        assert!(!is_public_callback_ip(first));
        assert!(!is_public_callback_ip(last));
    }
}

#[test]
fn neighbours_of_special_purpose_blocks_are_public() {
    for ip in [
        v4(1, 0, 0, 0),
        v4(9, 255, 255, 255),
        v4(11, 0, 0, 0),
        v4(100, 63, 255, 255),
        v4(100, 128, 0, 0),
        v4(126, 255, 255, 255),
        v4(128, 0, 0, 0),
        v4(172, 15, 255, 255),
        v4(172, 32, 0, 0),
        v4(192, 0, 1, 0),
        v4(192, 0, 3, 0),
        v4(198, 17, 255, 255),
        v4(198, 20, 0, 0),
        v4(223, 255, 255, 255),
        v4(8, 8, 8, 8),
    ] {
        assert!(is_public_callback_ip(ip));
    }
}

#[test]
fn native_ipv6_global_unicast_is_public() {
    assert!(is_public_callback_ip(v6(0x2606_4700)));
    assert!(is_public_callback_ip(v6(0x2001_4860)));
    assert!(is_public_callback_ip(v6(0x2001_0200)));
    assert!(is_public_callback_ip(v6(0x3fff_1000)));
}

#[test]
fn special_purpose_ipv6_blocks_are_refused() {
    for high in [0x2001_0000, 0x2001_01ff, 0x2001_0002, 0x2001_0db8, 0x2002_0000, 0x3fff_0000, 0x3fff_0fff] {
        assert!(!is_public_callback_ip(v6(high)));
    }
    for high in [0x1fff_ffff, 0x4000_0000, 0xfe80_0000, 0xfc00_0000, 0xff00_0000] {
        assert!(!is_public_callback_ip(v6(high)));
    }
    assert!(!is_public_callback_ip(IpAddr::V6(1)));
}

#[test]
fn mapped_addresses_are_refused() {
    let mapped = |ip: u128| IpAddr::V6((0xffff << 32) | ip);
    assert!(!is_public_callback_ip(mapped(0x0808_0808)));
    assert!(!is_public_callback_ip(mapped(0x7f00_0001)));
    assert!(is_public_callback_ip(v4(8, 8, 8, 8)));
    assert_eq!(
        validate_dns_answers(&[v4(8, 8, 8, 8), mapped(0x0808_0808)], 4),
        Err(PushSecurityError::UnsafeDns)
    );
}

#[test]
fn one_unsafe_answer_rejects_all() {
    let safe = v4(8, 8, 8, 8);
    assert_eq!(validate_dns_answers(&[safe, v4(10, 0, 0, 1)], 8), Err(PushSecurityError::UnsafeDns));
    assert_eq!(validate_dns_answers(&[], 8), Err(PushSecurityError::UnsafeDns));
    assert_eq!(validate_dns_answers(&[safe, safe], 1), Err(PushSecurityError::UnsafeDns));
    assert_eq!(validate_dns_answers(&[safe], 0), Err(PushSecurityError::UnsafeDns));
}

#[test]
fn validated_answers_are_distinct_and_keep_their_order() {
    let a = v4(8, 8, 8, 8);
    let b = v4(1, 1, 1, 1);
    assert_eq!(validate_dns_answers(&[a, b, a, b], 4), Ok(vec![a, b]));
}

#[test]
fn loopback_addresses_are_recognized() {
    assert!(is_loopback(v4(127, 0, 0, 1)));
    assert!(is_loopback(v4(127, 255, 0, 1)));
    assert!(is_loopback(IpAddr::V6(1)));
    assert!(!is_loopback(v4(126, 0, 0, 1)));
    assert!(!is_loopback(IpAddr::V6((0xffff << 32) | 0x7f00_0001)));
}
