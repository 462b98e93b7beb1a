//! Texts, digests and the wording of refusals.

use smesh_authority::crypto::{content_digest, digest_part, text_digest};
use smesh_authority::fault::{Fault, FaultKind};
use smesh_authority::text::{
    byte_len, contains_bytes, decimal_text, ends_with_bytes, hex_text, join_texts, parse_signed, parse_unsigned,
    push_be32, push_be64, push_be_i64, push_len, signed_decimal_text, split_bytes, split_fields, split_first,
    starts_with_bytes,
};

#[test]
fn numbers_are_written_and_read() {
    assert_eq!(decimal_text(0), "0");
    assert_eq!(decimal_text(u64::MAX), "18446744073709551615");
    assert_eq!(signed_decimal_text(i64::MIN), "-9223372036854775808");
    assert_eq!(parse_signed(b"-9223372036854775808"), Some(i64::MIN));
    assert_eq!(parse_signed(b"+7"), Some(7));
    for bad in [&b""[..], b"-", b"1x", b"9223372036854775808"] {
        assert_eq!(parse_signed(bad), None);
    }
    assert_eq!(parse_unsigned(b"65535", 65_535), Some(65_535));
    assert_eq!(parse_unsigned(b"65536", 65_535), None);
}

#[test]
fn bytes_are_written_big_end_first() {
    let mut out = Vec::new();
    push_be32(&mut out, 0x0102_0304);
    push_be64(&mut out, 5);
    push_be_i64(&mut out, -1);
    push_len(&mut out, b"ab");
    assert_eq!(hex_text(&out), "010203040000000000000005ffffffffffffffff00000000000000026162");
}

#[test]
fn texts_are_split_and_joined() {
    assert_eq!(byte_len("a\u{20ac}"), 4);
    assert_eq!(join_texts(&vec!["a".to_string(), "b".to_string()], ", "), "a, b");
    assert_eq!(split_fields("a,,b", ','), vec!["a", "", "b"]);
    assert_eq!(split_fields("", ','), vec![""]);
    assert_eq!(split_bytes(b"a.b", b'.'), vec![b"a".to_vec(), b"b".to_vec()]);
    assert_eq!(split_first("a.b.c", '.'), Some(("a".to_string(), "b.c".to_string())));
    assert_eq!(split_first("abc", '.'), None);
    assert!(contains_bytes(b"abcd", b"bc"));
    assert!(!contains_bytes(b"abcd", b"cb"));
    assert!(starts_with_bytes(b"abcd", b"ab"));
    assert!(ends_with_bytes(b"abcd", b"cd"));
    assert!(!ends_with_bytes(b"d", b"cd"));
}

#[test]
fn content_is_named_by_its_digest() {
    let empty = "sha256:e3b0c44298fc1c149afbf4c8996fb92427ae41e4649b934ca495991b7852b855";
    assert_eq!(content_digest(b""), empty);
    assert_eq!(text_digest("abc"), "sha256:ba7816bf8f01cfea414140de5dae2223b00361a396177a9cb410ff61f20015ad");
    assert_eq!(digest_part(b"", 7, 15), "e3b0c442");
}

#[test]
fn refusals_have_a_kind_and_a_text() {
    assert_eq!(Fault::TaskNotFound.kind(), FaultKind::TaskNotFound);
    assert_eq!(Fault::TaskNotFound.kind().code(), Some(-32001));
    assert_eq!(Fault::PageSizeOutOfRange.kind().code(), Some(-32602));
    assert_eq!(Fault::StoredTaskCorrupt.kind().code(), Some(-32603));
    assert!(Fault::StoredTaskCorrupt.internal());
    assert!(!Fault::TaskNotFound.internal());
    assert_eq!(Fault::QuotaExceeded.kind(), FaultKind::QuotaExceeded);
    assert_eq!(FaultKind::QuotaExceeded.code(), None);
    assert_eq!(Fault::InvalidPageToken.message(), "invalid pageToken");
}
