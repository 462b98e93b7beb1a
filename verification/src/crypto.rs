//! Digests, message authentication and text encodings of byte strings.
//!
//! The functions marked `external_body` here are the only places where bytes
//! reach the `sha2`, `hmac`, `subtle` and `base64` crates; their contracts are
//! not proved but stated from those crates' documentation and source.

use base64::engine::general_purpose::{STANDARD, URL_SAFE_NO_PAD};
use base64::Engine;
use hmac::{Hmac, Mac};
use sha2::{Digest, Sha256};
use subtle::ConstantTimeEq;
use vstd::prelude::*;
use vstd::utf8::*;

use crate::text;

verus! {

/// The SHA-256 digest of a byte string.
pub uninterp spec fn sha256_of(data: Seq<u8>) -> Seq<u8>;

/// The HMAC-SHA256 tag of a byte string under a key.
pub uninterp spec fn hmac_sha256_of(key: Seq<u8>, data: Seq<u8>) -> Seq<u8>;

/// The unpadded URL-safe base64 text of a byte string.
pub uninterp spec fn base64url_of(data: Seq<u8>) -> Seq<char>;

/// The padded standard base64 text of a byte string.
pub uninterp spec fn base64_of(data: Seq<u8>) -> Seq<char>;

/// The bytes that unpadded URL-safe base64 text stands for, where it is such text.
pub uninterp spec fn base64url_decoded(text: Seq<char>) -> Option<Seq<u8>>;

/// The bytes that padded standard base64 text stands for, where it is such text.
pub uninterp spec fn base64_decoded(text: Seq<char>) -> Option<Seq<u8>>;

/// A character of the URL-safe base64 alphabet.
pub open spec fn is_base64url_char(c: char) -> bool {
    ('A' <= c && c <= 'Z') || ('a' <= c && c <= 'z') || ('0' <= c && c <= '9') || c == '-' || c == '_'
}

/// `<sha2::Sha256 as Digest>::digest`: the digest is a function of the input
/// alone, named [`sha256_of`], and has thirty-two bytes.
#[verifier::external_body]
pub(crate) fn sha256(data: &[u8]) -> (digest: [u8; 32])
    ensures
        digest@ == sha256_of(data@),
{
    Sha256::digest(data).into()
}

/// `hmac::Hmac::<Sha256>` keyed by `new_from_slice`, which takes a key of any
/// length, fed once by `update` and closed by `finalize`: the tag is a function
/// of key and input alone, named [`hmac_sha256_of`], and has thirty-two bytes.
#[verifier::external_body]
pub(crate) fn hmac_sha256(key: &[u8], data: &[u8]) -> (tag: [u8; 32])
    ensures
        tag@ == hmac_sha256_of(key@, data@),
{
    let mut mac = Hmac::<Sha256>::new_from_slice(key).expect("any key length");
    mac.update(data);
    mac.finalize().into_bytes().into()
}

/// `hmac::Mac::verify_slice` over the same key and input: it accepts exactly the
/// tag that `finalize` gives, and refuses every other byte string.
#[verifier::external_body]
pub(crate) fn hmac_sha256_accepts(key: &[u8], data: &[u8], tag: &[u8]) -> (accepted: bool)
    ensures
        accepted == (tag@ == hmac_sha256_of(key@, data@)),
{
    let mut mac = Hmac::<Sha256>::new_from_slice(key).expect("any key length");
    mac.update(data);
    mac.verify_slice(tag).is_ok()
}

/// `<[u8] as subtle::ConstantTimeEq>::ct_eq`: true exactly where the two byte
/// strings have the same length and the same bytes.
#[verifier::external_body]
pub(crate) fn constant_time_same(a: &[u8], b: &[u8]) -> (same: bool)
    ensures
        same == (a@ == b@),
{
    a.ct_eq(b).into()
}

/// `base64::Engine::encode` of the `URL_SAFE_NO_PAD` engine: the text is a
/// function of the bytes alone, named [`base64url_of`]; it is written in the
/// URL-safe alphabet without padding, four characters to three bytes rounded up,
/// and decoding it gives the bytes back.
#[verifier::external_body]
pub(crate) fn base64url(data: &[u8]) -> (text: String)
    ensures
        text@ == base64url_of(data@),
        forall|i: int| 0 <= i < text@.len() ==> is_base64url_char(#[trigger] text@[i]),
        text@.len() == (4 * data@.len() + 2) / 3,
        base64url_decoded(text@) == Some(data@),
{
    URL_SAFE_NO_PAD.encode(data)
}

/// `base64::Engine::encode` of the `STANDARD` engine: the text is a function of
/// the bytes alone, named [`base64_of`], and decoding it gives the bytes back.
#[verifier::external_body]
pub(crate) fn base64(data: &[u8]) -> (text: String)
    ensures
        text@ == base64_of(data@),
        base64_decoded(text@) == Some(data@),
{
    STANDARD.encode(data)
}

/// `base64::Engine::decode` of the `URL_SAFE_NO_PAD` engine: success and the
/// bytes are a function of the text alone, named [`base64url_decoded`].
#[verifier::external_body]
pub(crate) fn base64url_decode(text: &str) -> (bytes: Option<Vec<u8>>)
    ensures
        match bytes {
            Some(b) => base64url_decoded(text@) == Some(b@),
            None => base64url_decoded(text@) is None,
        },
{
    URL_SAFE_NO_PAD.decode(text).ok()
}

/// `base64::Engine::decode` of the `STANDARD` engine: success and the bytes are
/// a function of the text alone, named [`base64_decoded`].
#[verifier::external_body]
pub(crate) fn base64_decode(text: &str) -> (bytes: Option<Vec<u8>>)
    ensures
        match bytes {
            Some(b) => base64_decoded(text@) == Some(b@),
            None => base64_decoded(text@) is None,
        },
{
    STANDARD.decode(text).ok()
}

/// `String::from_utf8`: succeeds exactly on well-formed UTF-8, with the text
/// that the bytes encode.
#[verifier::external_body]
pub(crate) fn text_of_bytes(bytes: Vec<u8>) -> (text: Option<String>)
    ensures
        match text {
            Some(t) => valid_utf8(bytes@) && t@ == decode_utf8(bytes@),
            None => !valid_utf8(bytes@),
        },
{
    String::from_utf8(bytes).ok()
}

/// The content digest of a byte string: `sha256:` and the digest in lower-case
/// hexadecimal.
pub open spec fn content_digest_of(data: Seq<u8>) -> Seq<char> {
    "sha256:"@ + text::hex(sha256_of(data))
}

/// The content digest of a byte string.
pub fn content_digest(data: &[u8]) -> (encoded: String)
    ensures
        encoded@ == content_digest_of(data@),
{
    let digest: [u8; 32] = sha256(data);
    let digits = text::hex_text(digest.as_slice());
    let mut out = "sha256:".to_owned();
    out.append(digits.as_str());
    out
}

/// A part of the content digest of a byte string.
pub fn digest_part(data: &[u8], from: usize, to: usize) -> (part: String)
    requires
        from <= to <= 71,
    ensures
        part@ == content_digest_of(data@).subrange(from as int, to as int),
{
    let digest: [u8; 32] = sha256(data);
    let digits = text::hex_text(digest.as_slice());
    let mut out = "sha256:".to_owned();
    out.append(digits.as_str());
    proof {
        reveal_strlit("sha256:");
        assert("sha256:"@.len() == 7);
        assert(digest@.len() == 32);
        assert(out@.len() == 71);
        assert forall|i: int| 0 <= i < out@.len() implies '\0' <= #[trigger] out@[i] <= '\u{7f}' by {
            if i >= 7 {
                assert(out@[i] == text::hex(digest@)[i - 7]);
            }
        }
    }
    out.as_str().substring_ascii(from, to).to_owned()
}

/// The content digest of a string's bytes.
pub fn text_digest(value: &str) -> (digest: String)
    ensures
        digest@ == content_digest_of(text::utf8(value@)),
{
    content_digest(value.as_bytes())
}

} // verus!
