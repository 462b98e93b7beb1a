//! Callback destinations: canonical HTTPS URLs with a DNS name and an explicit port.

use vstd::prelude::*;
use vstd::slice::slice_subrange;

use crate::push_error::PushSecurityError;
use crate::text;
use crate::weburl;
use crate::weburl::{UrlParts, UrlView};

verus! {

/// The longest URL, in bytes.
pub const MAX_URL_BYTES: usize = 2048;

/// The longest path, in bytes.
pub const MAX_PATH_BYTES: usize = 1024;

/// Whether a byte may stand in a URL: visible ASCII or a space, but neither a
/// backslash nor a percent sign.
pub open spec fn url_byte(b: u8) -> bool {
    32 <= b < 127 && b != 92 && b != 37
}

/// Whether a text can be a URL at all, before it is read as one.
pub open spec fn plain_url(input: Seq<char>) -> bool {
    let bytes = text::utf8(input);
    &&& 0 < bytes.len() <= MAX_URL_BYTES
    &&& forall|i: int| 0 <= i < bytes.len() ==> url_byte(#[trigger] bytes[i])
}

fn is_plain_url(input: &str) -> (r: bool)
    ensures
        r == plain_url(input@),
{
    let bytes = input.as_bytes();
    if bytes.len() == 0 || bytes.len() > MAX_URL_BYTES {
        return false;
    }
    let mut i: usize = 0;
    while i < bytes.len()
        invariant
            i <= bytes@.len(),
            bytes@ == text::utf8(input@),
            forall|j: int| 0 <= j < i ==> url_byte(#[trigger] bytes@[j]),
        decreases bytes@.len() - i,
    {
        let b: u8 = bytes[i];
        if b < 32 || b >= 127 || b == 92 || b == 37 {
            assert(!url_byte(bytes@[i as int]));
            return false;
        }
        i += 1;
    }
    true
}

/// Whether a byte may stand in a label of a DNS name.
pub open spec fn label_byte(b: u8) -> bool {
    (97 <= b <= 122) || (48 <= b <= 57) || b == 45
}

/// Whether a byte string is a label of a DNS name: lower-case letters, digits and
/// hyphens, with no hyphen at either end.
pub open spec fn dns_label(label: Seq<u8>) -> bool {
    &&& 0 < label.len() <= 63
    &&& label.first() != 45 && label.last() != 45
    &&& forall|i: int| 0 <= i < label.len() ==> label_byte(#[trigger] label[i])
}

fn is_dns_label(label: &Vec<u8>) -> (r: bool)
    ensures
        r == dns_label(label@),
{
    if label.len() == 0 || label.len() > 63 || label[0] == 45 || label[label.len() - 1] == 45 {
        return false;
    }
    let mut i: usize = 0;
    while i < label.len()
        invariant
            i <= label@.len(),
            forall|j: int| 0 <= j < i ==> label_byte(#[trigger] label@[j]),
        decreases label@.len() - i,
    {
        let b: u8 = label[i];
        if !((b >= 97 && b <= 122) || (b >= 48 && b <= 57) || b == 45) {
            assert(!label_byte(label@[i as int]));
            return false;
        }
        i += 1;
    }
    true
}

/// Whether a byte string is one number of a dotted IPv4 address: up to three digits,
/// without a leading zero, at most 255.
pub open spec fn octet_text(piece: Seq<u8>) -> bool {
    &&& 0 < piece.len() <= 3
    &&& text::all_digits(piece)
    &&& piece.len() > 1 ==> piece[0] != 48
    &&& text::digits_value(piece) <= 255
}

fn is_octet_text(piece: &Vec<u8>) -> (r: bool)
    ensures
        r == octet_text(piece@),
{
    if piece.len() == 0 || piece.len() > 3 || piece[0] == 43 || (piece.len() > 1 && piece[0] == 48) {
        return false;
    }
    text::parse_unsigned(piece.as_slice(), 255).is_some()
}

/// Whether a host is an IPv4 address in dotted decimal.
pub open spec fn ipv4_literal(host: Seq<u8>) -> bool {
    let parts = text::pieces(host, 46);
    parts.len() == 4 && octet_text(parts[0]) && octet_text(parts[1]) && octet_text(parts[2]) && octet_text(parts[3])
}

/// Whether a host is a DNS name in canonical form, and no address.
pub open spec fn dns_host(host: Seq<u8>) -> bool {
    let labels = text::pieces(host, 46);
    &&& 0 < host.len() <= 253
    &&& forall|i: int| 0 <= i < labels.len() ==> dns_label(#[trigger] labels[i])
    &&& !ipv4_literal(host)
}

fn is_dns_host(host: &str) -> (r: bool)
    ensures
        r == dns_host(text::utf8(host@)),
{
    let bytes = host.as_bytes();
    if bytes.len() == 0 || bytes.len() > 253 {
        return false;
    }
    let labels = text::split_bytes(bytes, 46);
    let ghost views = text::pieces(bytes@, 46);
    assert(forall|j: int| 0 <= j < labels@.len() ==> views[j] == (#[trigger] labels@[j])@) by {
        assert forall|j: int| 0 <= j < labels@.len() implies views[j] == (#[trigger] labels@[j])@ by {
            assert(text::byte_views(labels@)[j] == labels@[j]@);
        }
    }
    assert(views.len() == labels@.len());
    let mut i: usize = 0;
    while i < labels.len()
        invariant
            i <= labels@.len(),
            views.len() == labels@.len(),
            bytes@ == text::utf8(host@),
            views == text::pieces(bytes@, 46),
            forall|j: int| 0 <= j < labels@.len() ==> views[j] == (#[trigger] labels@[j])@,
            forall|j: int| 0 <= j < i ==> dns_label(#[trigger] views[j]),
        decreases labels@.len() - i,
    {
        if !is_dns_label(&labels[i]) {
            assert(!dns_label(views[i as int]));
            return false;
        }
        i += 1;
    }
    proof {
        if labels@.len() == 4 {
            assert(views[0] == labels@[0]@ && views[1] == labels@[1]@ && views[2] == labels@[2]@ && views[3]
                == labels@[3]@);
        }
    }
    !(labels.len() == 4 && is_octet_text(&labels[0]) && is_octet_text(&labels[1]) && is_octet_text(&labels[2])
        && is_octet_text(&labels[3]))
}

/// Whether a segment of a path moves within the path.
pub open spec fn dot_segment(segment: Seq<u8>) -> bool {
    segment == seq![46u8] || segment == seq![46u8, 46u8]
}

/// Whether a path is absolute, short and in canonical form.
pub open spec fn canonical_path(path: Seq<u8>) -> bool {
    let segments = text::pieces(path, 47);
    &&& 0 < path.len() <= MAX_PATH_BYTES
    &&& path[0] == 47
    &&& !(path.len() > 1 && path[1] == 47)
    &&& forall|i: int| 0 <= i < segments.len() ==> !dot_segment(#[trigger] segments[i])
}

fn is_dot_segment(segment: &Vec<u8>) -> (r: bool)
    ensures
        r == dot_segment(segment@),
{
    proof {
        if segment@.len() == 1 && segment@[0] == 46 {
            assert(segment@ =~= seq![46u8]);
        }
        if segment@.len() == 2 && segment@[0] == 46 && segment@[1] == 46 {
            assert(segment@ =~= seq![46u8, 46u8]);
        }
    }
    (segment.len() == 1 && segment[0] == 46) || (segment.len() == 2 && segment[0] == 46 && segment[1] == 46)
}

fn is_canonical_path(path: &str) -> (r: bool)
    ensures
        r == canonical_path(text::utf8(path@)),
{
    let bytes = path.as_bytes();
    if bytes.len() == 0 || bytes.len() > MAX_PATH_BYTES || bytes[0] != 47 || (bytes.len() > 1 && bytes[1] == 47) {
        return false;
    }
    let segments = text::split_bytes(bytes, 47);
    let ghost views = text::pieces(bytes@, 47);
    assert forall|j: int| 0 <= j < segments@.len() implies views[j] == (#[trigger] segments@[j])@ by {
        assert(text::byte_views(segments@)[j] == segments@[j]@);
    }
    assert(views.len() == segments@.len());
    let mut i: usize = 0;
    while i < segments.len()
        invariant
            i <= segments@.len(),
            views.len() == segments@.len(),
            bytes@ == text::utf8(path@),
            views == text::pieces(bytes@, 47),
            forall|j: int| 0 <= j < segments@.len() ==> views[j] == (#[trigger] segments@[j])@,
            forall|j: int| 0 <= j < i ==> !dot_segment(#[trigger] views[j]),
        decreases segments@.len() - i,
    {
        if is_dot_segment(&segments[i]) {
            assert(dot_segment(views[i as int]));
            return false;
        }
        i += 1;
    }
    true
}

/// The one way in which a destination is written.
pub open spec fn canonical_of(host: Seq<char>, port: nat, path: Seq<char>) -> Seq<char> {
    "https://"@ + host + ":"@ + text::decimal(port) + path
}

/// Whether a text is the canonical URL of a host, a port and a path.
pub open spec fn written_with_port(input: Seq<char>, host: Seq<char>, port: nat, path: Seq<char>) -> bool {
    1 <= port <= 65535 && input == canonical_of(host, port, path)
}

/// Whether a URL is an accepted callback destination, given the parts that were
/// found in it.
pub open spec fn accepted_url(input: Seq<char>, parts: Option<UrlView>) -> bool {
    &&& plain_url(input)
    &&& parts is Some
    &&& parts->0.scheme == "https"@
    &&& parts->0.username.len() == 0
    &&& parts->0.password is None
    &&& parts->0.query is None
    &&& parts->0.fragment is None
    &&& parts->0.host is Some
    &&& dns_host(text::utf8(parts->0.host->0))
    &&& canonical_path(text::utf8(parts->0.path))
    &&& exists|port: nat| #[trigger] written_with_port(input, parts->0.host->0, port, parts->0.path)
}

/// A destination as text and numbers.
#[verifier::ext_equal]
pub struct CallbackUrlView {
    pub canonical: Seq<char>,
    pub host: Seq<char>,
    pub port: u16,
    pub path: Seq<char>,
}

/// Whether a destination is in canonical form.
pub open spec fn canonical_url(u: CallbackUrlView) -> bool {
    &&& plain_url(u.canonical)
    &&& dns_host(text::utf8(u.host))
    &&& canonical_path(text::utf8(u.path))
    &&& written_with_port(u.canonical, u.host, u.port as nat, u.path)
}

/// A canonical HTTPS callback URL.
pub struct CanonicalCallbackUrl {
    canonical: String,
    host: String,
    port: u16,
    path: String,
}

impl View for CanonicalCallbackUrl {
    type V = CallbackUrlView;

    closed spec fn view(&self) -> CallbackUrlView {
        CallbackUrlView { canonical: self.canonical@, host: self.host@, port: self.port, path: self.path@ }
    }
}

impl CanonicalCallbackUrl {
    #[verifier::type_invariant]
    spec fn in_canonical_form(self) -> bool {
        canonical_url(self@)
    }

    /// Reads an HTTPS URL that is already canonical: with a DNS name, an explicit
    /// port, no credentials, query or fragment, and written in the one way in which it
    /// can be.
    pub fn parse(input: &str) -> (r: Result<CanonicalCallbackUrl, PushSecurityError>)
        ensures
            match r {
                Ok(u) => {
                    &&& accepted_url(input@, weburl::url_parsed(input@))
                    &&& canonical_url(u@)
                    &&& u@.canonical == input@
                    &&& u@.host == weburl::url_parsed(input@)->0.host->0
                    &&& u@.path == weburl::url_parsed(input@)->0.path
                    &&& weburl::unmarked(u@.path)
                },
                Err(e) => e == PushSecurityError::InvalidDestination && !accepted_url(
                    input@,
                    weburl::url_parsed(input@),
                ),
            },
    {
        if !is_plain_url(input) {
            return Err(PushSecurityError::InvalidDestination);
        }
        let parts = weburl::parse_url(input);
        check_callback_url(input, &parts)
    }

    /// The whole URL.
    pub fn as_str(&self) -> (r: &str)
        ensures
            r@ == self@.canonical,
    {
        self.canonical.as_str()
    }

    /// The DNS name.
    pub fn host(&self) -> (r: &str)
        ensures
            r@ == self@.host,
    {
        self.host.as_str()
    }

    /// The port.
    pub fn port(&self) -> (r: u16)
        ensures
            r == self@.port,
    {
        self.port
    }

    /// The path.
    pub fn path(&self) -> (r: &str)
        ensures
            r@ == self@.path,
    {
        self.path.as_str()
    }

    /// Whether two destinations are the same.
    pub fn same(&self, other: &CanonicalCallbackUrl) -> (r: bool)
        ensures
            r == (self@ == other@),
    {
        self.canonical == other.canonical && self.host == other.host && self.port == other.port && self.path
            == other.path
    }

    /// The same destination again.
    pub fn copy(&self) -> (r: CanonicalCallbackUrl)
        ensures
            r@ == self@,
    {
        proof {
            use_type_invariant(self);
        }
        CanonicalCallbackUrl {
            canonical: self.canonical.clone(),
            host: self.host.clone(),
            port: self.port,
            path: self.path.clone(),
        }
    }

    /// What the destination is shown as: it is not shown.
    pub fn redacted(&self) -> (r: &'static str)
        ensures
            r@ == "CanonicalCallbackUrl([redacted])"@,
    {
        "CanonicalCallbackUrl([redacted])"
    }
}

/// The encoded form of a canonical URL, and where its port stands.
proof fn lemma_written(host: Seq<char>, port: nat, path: Seq<char>)
    ensures
        text::utf8(canonical_of(host, port, path)) == text::utf8("https://"@) + text::utf8(host) + text::utf8(":"@)
            + text::decimal_bytes(port) + text::utf8(path),
        text::utf8("https://"@).len() == 8,
        text::utf8(":"@).len() == 1,
        text::utf8(":"@)[0] == 58,
{
    text::lemma_unsigned_decimal(port, port);
    text::lemma_utf8_concat("https://"@, host);
    text::lemma_utf8_concat("https://"@ + host, ":"@);
    text::lemma_utf8_concat("https://"@ + host + ":"@, text::decimal(port));
    text::lemma_utf8_concat("https://"@ + host + ":"@ + text::decimal(port), path);
    reveal_strlit("https://");
    reveal_strlit(":");
    let b = seq![104u8, 116u8, 116u8, 112u8, 115u8, 58u8, 47u8, 47u8];
    assert("https://"@ =~= text::ascii_chars(b));
    text::lemma_ascii_round_trip(b);
    let c = seq![58u8];
    assert(":"@ =~= text::ascii_chars(c));
    text::lemma_ascii_round_trip(c);
}

fn canonical_text(host: &str, port: u16, path: &str) -> (r: String)
    ensures
        r@ == canonical_of(host@, port as nat, path@),
{
    let mut out = "https://".to_owned();
    out.append(host);
    out.append(":");
    let digits = text::decimal_text(port as u64);
    out.append(digits.as_str());
    out.append(path);
    out
}

/// The port with which a URL is written, where it is written with one.
fn written_port(input: &str, host: &str, path: &str) -> (r: Option<u16>)
    ensures
        match r {
            Some(port) => written_with_port(input@, host@, port as nat, path@),
            None => forall|port: nat| !#[trigger] written_with_port(input@, host@, port, path@),
        },
{
    let bytes = input.as_bytes();
    let host_len: usize = text::byte_len(host);
    let path_len: usize = text::byte_len(path);
    let ghost n = bytes@.len();
    proof {
        assert forall|port: nat| #[trigger] written_with_port(input@, host@, port, path@) implies n >= 9 + host_len
            + path_len && bytes@.subrange(9 + host_len, n - path_len) == text::decimal_bytes(port)
            && text::unsigned_value(text::decimal_bytes(port), 65535) == Some(port) by {
            lemma_written(host@, port, path@);
            text::lemma_unsigned_decimal(port, 65535);
            assert(bytes@.subrange(9 + host_len, n - path_len) =~= text::decimal_bytes(port));
        }
    }
    if bytes.len() < 9 || host_len > bytes.len() - 9 || path_len > bytes.len() - 9 - host_len {
        return None;
    }
    let digits = slice_subrange(bytes, 9 + host_len, bytes.len() - path_len);
    let port: u16 = match text::parse_unsigned(digits, 65535) {
        Some(v) => v as u16,
        None => {
            return None;
        },
    };
    if port == 0 {
        return None;
    }
    let canonical = canonical_text(host, port, path);
    if !text::same_text(canonical.as_str(), input) {
        return None;
    }
    Some(port)
}

/// Accepts a URL as a callback destination, given the parts that were found in it.
pub fn check_callback_url(input: &str, parts: &Option<UrlParts>) -> (r: Result<
    CanonicalCallbackUrl,
    PushSecurityError,
>)
    ensures
        ({
            let found = match parts {
                Some(p) => Some(p@),
                None => None,
            };
            match r {
                Ok(u) => {
                    &&& accepted_url(input@, found)
                    &&& canonical_url(u@)
                    &&& u@.canonical == input@
                    &&& u@.host == found->0.host->0
                    &&& u@.path == found->0.path
                },
                Err(e) => e == PushSecurityError::InvalidDestination && !accepted_url(input@, found),
            }
        }),
{
    if !is_plain_url(input) {
        return Err(PushSecurityError::InvalidDestination);
    }
    let found = match parts {
        Some(p) => p,
        None => {
            return Err(PushSecurityError::InvalidDestination);
        },
    };
    if !text::same_text(found.scheme.as_str(), "https") || !found.username.as_str().is_empty()
        || found.password.is_some() || found.query.is_some() || found.fragment.is_some() {
        return Err(PushSecurityError::InvalidDestination);
    }
    let host = match &found.host {
        Some(host) => host,
        None => {
            return Err(PushSecurityError::InvalidDestination);
        },
    };
    if !is_dns_host(host.as_str()) || !is_canonical_path(found.path.as_str()) {
        return Err(PushSecurityError::InvalidDestination);
    }
    match written_port(input, host.as_str(), found.path.as_str()) {
        None => Err(PushSecurityError::InvalidDestination),
        Some(port) => Ok(
            CanonicalCallbackUrl {
                canonical: input.to_owned(),
                host: host.clone(),
                port,
                path: found.path.clone(),
            },
        ),
    }
}

proof fn lemma_pieces_free(s: Seq<u8>, separator: u8, b: u8)
    requires
        b != separator,
        forall|i: int, j: int|
            #![trigger text::pieces(s, separator)[i][j]]
            0 <= i < text::pieces(s, separator).len() && 0 <= j < text::pieces(s, separator)[i].len()
                ==> text::pieces(s, separator)[i][j] != b,
    ensures
        text::pieces(s, separator).len() >= 1,
        forall|k: int| 0 <= k < s.len() ==> #[trigger] s[k] != b,
    decreases s.len(),
{
    if s.len() > 0 {
        let t = s.drop_last();
        let before = text::pieces(t, separator);
        let now = text::pieces(s, separator);
        lemma_pieces_nonempty(t, separator);
        if s.last() == separator {
            assert forall|i: int, j: int|
                #![trigger text::pieces(t, separator)[i][j]]
                0 <= i < before.len() && 0 <= j < before[i].len() implies text::pieces(t, separator)[i][j] != b by {
                assert(now[i] == before[i]);
                assert(now[i][j] != b);
            }
        } else {
            assert forall|i: int, j: int|
                #![trigger text::pieces(t, separator)[i][j]]
                0 <= i < before.len() && 0 <= j < before[i].len() implies text::pieces(t, separator)[i][j] != b by {
                if i < before.len() - 1 {
                    assert(now[i] == before[i]);
                } else {
                    assert(now[i] == before.last().push(s.last()));
                }
                assert(now[i][j] == before[i][j]);
                assert(now[i][j] != b);
            }
            let i = before.len() - 1;
            assert(now[i] == before.last().push(s.last()));
            assert(now[i][before.last().len() as int] != b);
        }
        lemma_pieces_free(t, separator, b);
        assert forall|k: int| 0 <= k < s.len() implies #[trigger] s[k] != b by {
            if k < t.len() {
                assert(t[k] != b);
            }
        }
    }
}

proof fn lemma_pieces_nonempty(s: Seq<u8>, separator: u8)
    ensures
        text::pieces(s, separator).len() >= 1,
    decreases s.len(),
{
    if s.len() > 0 {
        lemma_pieces_nonempty(s.drop_last(), separator);
    }
}

proof fn lemma_host_without_colon(host: Seq<u8>)
    requires
        dns_host(host),
    ensures
        forall|k: int| 0 <= k < host.len() ==> #[trigger] host[k] != 58,
{
    let labels = text::pieces(host, 46);
    assert forall|i: int, j: int|
        #![trigger text::pieces(host, 46)[i][j]]
        0 <= i < labels.len() && 0 <= j < labels[i].len() implies text::pieces(host, 46)[i][j] != 58 by {
        assert(dns_label(labels[i]));
        assert(label_byte(labels[i][j]));
    }
    lemma_pieces_free(host, 46, 58);
}

/// The path of a destination that was read ends its URL. It is absolute and short, has
/// no dot segment, no mark that would end it and no character that stands for another.
pub proof fn law_paths_are_plain(u: CallbackUrlView)
    requires
        canonical_url(u),
        weburl::unmarked(u.path),
    ensures
        canonical_path(text::utf8(u.path)),
        text::utf8(u.canonical).len() <= MAX_URL_BYTES,
        u.path.len() <= u.canonical.len(),
        u.canonical.skip(u.canonical.len() - u.path.len()) == u.path,
        forall|i: int|
            0 <= i < u.path.len() ==> ' ' <= #[trigger] u.path[i] <= '~' && u.path[i] != '?' && u.path[i] != '#'
                && u.path[i] != '%' && u.path[i] != '\\',
{
    lemma_written(u.host, u.port as nat, u.path);
    let whole = text::utf8(u.canonical);
    let path = text::utf8(u.path);
    let start = whole.len() - path.len();
    assert(u.canonical.skip(u.canonical.len() - u.path.len()) =~= u.path);
    assert forall|i: int| 0 <= i < path.len() implies url_byte(#[trigger] path[i]) by {
        assert(whole[start + i] == path[i]);
    }
    text::lemma_ascii_round_trip(path);
    text::lemma_utf8_injective(u.path, text::ascii_chars(path));
    assert forall|i: int| 0 <= i < u.path.len() implies ' ' <= #[trigger] u.path[i] <= '~' && u.path[i] != '?'
        && u.path[i] != '#' && u.path[i] != '%' && u.path[i] != '\\' by {
        assert(url_byte(path[i]));
        assert(u.path[i] == path[i] as char);
    }
}

/// A canonical URL can be read in one way: two destinations with the same text have
/// the same host, port and path.
pub proof fn law_canonical_urls_read_one_way(a: CallbackUrlView, b: CallbackUrlView)
    requires
        canonical_url(a),
        canonical_url(b),
        a.canonical == b.canonical,
    ensures
        a == b,
{
    let whole = text::utf8(a.canonical);
    lemma_written(a.host, a.port as nat, a.path);
    lemma_written(b.host, b.port as nat, b.path);
    let ha = text::utf8(a.host);
    let hb = text::utf8(b.host);
    let da = text::decimal_bytes(a.port as nat);
    let db = text::decimal_bytes(b.port as nat);
    let pa = text::utf8(a.path);
    let pb = text::utf8(b.path);
    lemma_host_without_colon(ha);
    lemma_host_without_colon(hb);
    text::lemma_decimal(a.port as nat);
    text::lemma_decimal(b.port as nat);
    let (la, lb) = (ha.len() as int, hb.len() as int);
    assert(whole[8 + la] == 58);
    assert(whole[8 + lb] == 58);
    if la < lb {
        assert(whole[8 + la] == hb[la]);
    }
    if lb < la {
        assert(whole[8 + lb] == ha[lb]);
    }
    assert(la == lb);
    assert(whole.subrange(8, 8 + la) =~= ha);
    assert(whole.subrange(8, 8 + la) =~= hb);
    let (ea, eb) = (9 + la + da.len(), 9 + la + db.len());
    assert(whole[ea] == pa[0]);
    assert(whole[eb] == pb[0]);
    if ea < eb {
        assert(whole[ea] == db[ea - 9 - la]);
        assert(text::is_digit_byte(db[ea - 9 - la]));
    }
    if eb < ea {
        assert(whole[eb] == da[eb - 9 - la]);
        assert(text::is_digit_byte(da[eb - 9 - la]));
    }
    assert(ea == eb);
    assert(whole.subrange(9 + la, ea) =~= da);
    assert(whole.subrange(9 + la, ea) =~= db);
    assert(whole.subrange(ea, whole.len() as int) =~= pa);
    assert(whole.subrange(ea, whole.len() as int) =~= pb);
    text::lemma_utf8_injective(a.host, b.host);
    text::lemma_utf8_injective(a.path, b.path);
}

/// A URL is accepted exactly where it is plain ASCII without a backslash or a percent sign, is
/// HTTPS without credentials, query or fragment, names a DNS host and a canonical path, and is
/// written with its port in the one way there is.
pub proof fn law_accepted_urls_are_plain_https(input: Seq<char>, parts: UrlView, port: nat)
    ensures
        accepted_url(input, Some(parts)) ==> {
            &&& parts.scheme == "https"@
            &&& parts.username.len() == 0
            &&& parts.password is None
            &&& parts.query is None
            &&& parts.fragment is None
            &&& parts.host is Some
            &&& 1 <= text::utf8(input).len() <= 2048
            &&& forall|i: int|
                0 <= i < text::utf8(input).len() ==> 32 <= #[trigger] text::utf8(input)[i] <= 126 && text::utf8(input)[i]
                    != 92 && text::utf8(input)[i] != 37
            &&& exists|p: nat|
                1 <= p <= 65535 && input == "https://"@ + parts.host->0 + ":"@ + #[trigger] text::decimal(p) + parts.path
        },
        !accepted_url(input, None),
        1 <= port <= 65535 && parts.scheme == "https"@ && parts.username.len() == 0 && parts.password is None
            && parts.query is None && parts.fragment is None && parts.host is Some && dns_host(
            text::utf8(parts.host->0),
        ) && canonical_path(text::utf8(parts.path)) && plain_url(input) && input == "https://"@ + parts.host->0 + ":"@
            + text::decimal(port) + parts.path ==> accepted_url(input, Some(parts)),
{
    if accepted_url(input, Some(parts)) {
        let p = choose|p: nat| #[trigger] written_with_port(input, parts.host->0, p, parts.path);
        assert(input == "https://"@ + parts.host->0 + ":"@ + text::decimal(p) + parts.path);
        assert forall|i: int| 0 <= i < text::utf8(input).len() implies 32 <= #[trigger] text::utf8(input)[i] <= 126
            && text::utf8(input)[i] != 92 && text::utf8(input)[i] != 37 by {
            assert(url_byte(text::utf8(input)[i]));
        }
    }
    if 1 <= port <= 65535 && parts.host is Some && input == "https://"@ + parts.host->0 + ":"@ + text::decimal(port)
        + parts.path {
        assert(written_with_port(input, parts.host->0, port, parts.path));
    }
}

/// A label has between one and 63 lower-case letters, digits and hyphens, and no hyphen at either
/// end.
pub proof fn law_labels_are_lower_case(label: Seq<u8>)
    ensures
        dns_label(label) <==> 1 <= label.len() <= 63 && label[0] != 45 && label[label.len() - 1] != 45 && forall|i: int|
            0 <= i < label.len() ==> (97 <= #[trigger] label[i] <= 122 || 48 <= label[i] <= 57 || label[i] == 45),
{
    if dns_label(label) {
        assert forall|i: int| 0 <= i < label.len() implies (97 <= #[trigger] label[i] <= 122 || 48 <= label[i] <= 57
            || label[i] == 45) by {
            assert(label_byte(label[i]));
        }
    }
}

/// A host has at most 253 bytes, every one of its labels is one, and it is not an IPv4 address in
/// dotted decimal.
pub proof fn law_hosts_are_made_of_labels(host: Seq<u8>, i: int)
    ensures
        dns_host(host) ==> 1 <= host.len() <= 253 && !ipv4_literal(host) && (0 <= i < text::pieces(host, 46).len()
            ==> dns_label(text::pieces(host, 46)[i])),
        1 <= host.len() <= 253 && !ipv4_literal(host) && (forall|k: int|
            0 <= k < text::pieces(host, 46).len() ==> dns_label(#[trigger] text::pieces(host, 46)[k])) ==> dns_host(host),
        ipv4_literal(host) <==> text::pieces(host, 46).len() == 4 && forall|k: int|
            0 <= k < 4 ==> octet_text(#[trigger] text::pieces(host, 46)[k]),
{
}

/// A path begins with one slash and not with two, has at most 1024 bytes, and none of its segments
/// is a dot or two.
pub proof fn law_paths_do_not_move(path: Seq<u8>, i: int)
    ensures
        canonical_path(path) ==> 1 <= path.len() <= 1024 && path[0] == 0x2f && (path.len() >= 2 ==> path[1] != 0x2f) && (
        0 <= i < text::pieces(path, 0x2f).len() ==> text::pieces(path, 0x2f)[i] != seq![0x2eu8] && text::pieces(
            path,
            0x2f,
        )[i] != seq![0x2eu8, 0x2eu8]),
        1 <= path.len() <= 1024 && path[0] == 0x2f && (path.len() >= 2 ==> path[1] != 0x2f) && (forall|k: int|
            0 <= k < text::pieces(path, 0x2f).len() ==> #[trigger] text::pieces(path, 0x2f)[k] != seq![0x2eu8]
                && text::pieces(path, 0x2f)[k] != seq![0x2eu8, 0x2eu8]) ==> canonical_path(path),
{
    if canonical_path(path) && 0 <= i < text::pieces(path, 0x2f).len() {
        assert(!dot_segment(text::pieces(path, 47)[i]));
    }
}

} // verus!
