//! One attempt on the wire: where it goes, what it carries, and what its outcome
//! means.

use vstd::prelude::*;

use crate::address;
use crate::address::IpAddr;
use crate::callback_url;
use crate::callback_url::CanonicalCallbackUrl;
use crate::json;
use crate::policy;
use crate::policy::{PushEnrollment, PushPolicy};
use crate::push_error::{CallbackTransportError, PushSecurityError};
use crate::retry;
use crate::retry::DeliveryDisposition;
use crate::signer;
use crate::signer::CallbackSigner;
use crate::text;
use crate::weburl;

verus! {

/// The largest callback body, in bytes.
pub const MAX_BODY_BYTES: usize = 262_144;

/// The resolver of the operating system. It holds nothing: every lookup is a new one.
#[derive(Clone, Copy, Debug, PartialEq, Eq, Structural)]
pub struct SystemCallbackResolver;

impl SystemCallbackResolver {
    /// The resolver of the operating system.
    pub fn new() -> (r: SystemCallbackResolver)
        ensures
            r == SystemCallbackResolver,
    {
        SystemCallbackResolver
    }
}

impl Default for SystemCallbackResolver {
    fn default() -> (r: SystemCallbackResolver)
        ensures
            r == SystemCallbackResolver,
    {
        SystemCallbackResolver
    }
}

/// An address and a port.
#[derive(Clone, Copy, Debug, PartialEq, Eq, Structural)]
pub struct SocketAddr {
    pub ip: IpAddr,
    pub port: u16,
}

/// The most seconds that a peer's delay is kept with.
pub const MAX_RETRY_AFTER_SECONDS: u64 = 18_446_744_073_709_551;

/// Whether a delay may be kept of a response: its status may ask for one, and its
/// milliseconds can be counted.
pub open spec fn kept_delay(status: u16, delay: Option<u64>) -> bool {
    delay matches Some(seconds) ==> (status == 429 || status == 503) && seconds <= MAX_RETRY_AFTER_SECONDS && seconds
        * 1000 <= u64::MAX
}

/// What came back of an attempt.
#[derive(Clone, Copy, Debug, PartialEq, Eq)]
pub struct CallbackResponse {
    status: u16,
    disposition: DeliveryDisposition,
    retry_after_seconds: Option<u64>,
}

impl CallbackResponse {
    /// The status.
    pub closed spec fn code(self) -> u16 {
        self.status
    }

    /// The delay that the peer asked for.
    pub closed spec fn delay(self) -> Option<u64> {
        self.retry_after_seconds
    }

    #[verifier::type_invariant]
    spec fn judged_by_status(self) -> bool {
        &&& self.disposition == retry::disposition_of(self.status)
        &&& kept_delay(self.status, self.retry_after_seconds)
    }

    /// The status.
    pub fn status(self) -> (r: u16)
        ensures
            r == self.code(),
    {
        self.status
    }

    /// What the status means for the delivery.
    pub fn disposition(self) -> (r: DeliveryDisposition)
        ensures
            r == retry::disposition_of(self.code()),
    {
        proof {
            use_type_invariant(&self);
        }
        self.disposition
    }

    /// The delay that the peer asked for. It is there only for a status that may ask,
    /// and its milliseconds can be counted.
    pub fn retry_after_seconds(self) -> (r: Option<u64>)
        ensures
            r == self.delay(),
            kept_delay(self.code(), r),
    {
        proof {
            use_type_invariant(&self);
        }
        self.retry_after_seconds
    }
}

/// How attempts are made.
pub struct TransportView {
    pub max_answers: usize,
    pub dns_timeout_ms: u64,
    pub connect_timeout_ms: u64,
    pub request_timeout_ms: u64,
    pub loopback_pinning: bool,
    pub connector_map: Seq<(IpAddr, IpAddr)>,
    pub requested_pins: Seq<SocketAddr>,
}

/// Makes attempts. Every one resolves its destination afresh and goes to the address
/// that it found then. For tests, attempts may be sent to the machine itself.
pub struct SecureCallbackTransport {
    max_answers: usize,
    dns_timeout_ms: u64,
    connect_timeout_ms: u64,
    request_timeout_ms: u64,
    test_loopback_pinning: bool,
    test_connector_map: Vec<(IpAddr, IpAddr)>,
    test_requested_pins: Vec<SocketAddr>,
}

impl View for SecureCallbackTransport {
    type V = TransportView;

    closed spec fn view(&self) -> TransportView {
        TransportView {
            max_answers: self.max_answers,
            dns_timeout_ms: self.dns_timeout_ms,
            connect_timeout_ms: self.connect_timeout_ms,
            request_timeout_ms: self.request_timeout_ms,
            loopback_pinning: self.test_loopback_pinning,
            connector_map: self.test_connector_map@,
            requested_pins: self.test_requested_pins@,
        }
    }
}

/// How attempts are made under a policy.
pub open spec fn transport_of(p: policy::PolicyView, loopback_pinning: bool) -> TransportView {
    TransportView {
        max_answers: p.max_dns_answers as usize,
        dns_timeout_ms: p.dns_timeout_ms,
        connect_timeout_ms: p.connect_timeout_ms,
        request_timeout_ms: p.request_timeout_ms,
        loopback_pinning,
        connector_map: Seq::empty(),
        requested_pins: Seq::empty(),
    }
}

/// How attempts are made without a policy.
pub open spec fn default_transport(max_answers: usize, connector_map: Seq<(IpAddr, IpAddr)>) -> TransportView {
    TransportView {
        max_answers,
        dns_timeout_ms: 2000,
        connect_timeout_ms: 3000,
        request_timeout_ms: 10_000,
        loopback_pinning: false,
        connector_map,
        requested_pins: Seq::empty(),
    }
}

/// A fixed answer of a test: a host and its addresses, each as far as it is one.
pub struct TestHost {
    pub host: String,
    pub answers: Vec<Option<IpAddr>>,
}

/// The URL by which the host of a fixed answer is judged.
pub open spec fn test_url_of(host: Seq<char>) -> Seq<char> {
    "https://"@ + host + ":443/test"@
}

/// Whether every answer is an address of the machine itself.
pub open spec fn loopback_answers(answers: Seq<Option<IpAddr>>) -> bool {
    forall|i: int|
        0 <= i < answers.len() ==> (#[trigger] answers[i]) is Some && address::loopback(answers[i]->0)
}

/// Why a fixed answer is refused, given the parts that were found in its URL.
pub open spec fn test_host_fault(h: TestHost, found: Option<weburl::UrlView>) -> Option<PushSecurityError> {
    if !callback_url::accepted_url(test_url_of(h.host@), found) {
        Some(PushSecurityError::InvalidDestination)
    } else if found->0.host->0 != h.host@ || h.answers@.len() == 0 || h.answers@.len() > 8 || !loopback_answers(
        h.answers@,
    ) {
        Some(PushSecurityError::InvalidPolicy)
    } else {
        None
    }
}

/// Why the first refused answer among the first `n` is refused.
pub open spec fn test_hosts_fault(hosts: Seq<TestHost>, n: int) -> Option<PushSecurityError>
    decreases n,
{
    if n <= 0 {
        None
    } else {
        match test_hosts_fault(hosts, n - 1) {
            Some(e) => Some(e),
            None => test_host_fault(hosts[n - 1], weburl::url_parsed(test_url_of(hosts[n - 1].host@))),
        }
    }
}

/// Why fixed answers are refused.
pub open spec fn test_map_fault(explicitly_enabled: bool, hosts: Option<Seq<TestHost>>) -> Option<PushSecurityError> {
    if !explicitly_enabled || hosts is None || hosts->0.len() == 0 || hosts->0.len() > 32 {
        Some(PushSecurityError::InvalidPolicy)
    } else {
        test_hosts_fault(hosts->0, hosts->0.len() as int)
    }
}

/// Whether connections may be redirected for a test: from public addresses to the
/// machine itself.
pub open spec fn connector_map_valid(map: Seq<(IpAddr, IpAddr)>) -> bool {
    map.len() > 0 && forall|i: int|
        0 <= i < map.len() ==> address::public_ip((#[trigger] map[i]).0) && address::loopback(map[i].1)
}

/// Where a test redirects an address, where it does.
pub open spec fn redirected(map: Seq<(IpAddr, IpAddr)>, ip: IpAddr, n: int) -> Option<IpAddr>
    decreases n,
{
    if n <= 0 {
        None
    } else {
        match redirected(map, ip, n - 1) {
            Some(to) => Some(to),
            None => if map[n - 1].0 == ip {
                Some(map[n - 1].1)
            } else {
                None
            },
        }
    }
}

/// Whether a test lets the answers to a lookup stand as they are.
pub open spec fn pinned_to_loopback(t: TransportView, answers: Seq<IpAddr>) -> bool {
    &&& t.loopback_pinning
    &&& 0 < answers.len() <= t.max_answers
    &&& forall|i: int| 0 <= i < answers.len() ==> address::loopback(#[trigger] answers[i])
}

/// The address that an attempt goes to, given the answers to its lookup.
pub open spec fn pin_of(t: TransportView, answers: Result<Seq<IpAddr>, PushSecurityError>) -> Result<
    IpAddr,
    PushSecurityError,
> {
    match answers {
        Err(e) => Err(e),
        Ok(list) => if pinned_to_loopback(t, list) {
            Ok(list[0])
        } else if address::safe_answers(list, t.max_answers) {
            Ok(list[0])
        } else {
            Err(PushSecurityError::UnsafeDns)
        },
    }
}

/// The answers to a lookup as a sequence.
pub open spec fn answers_view(answers: Result<Vec<IpAddr>, PushSecurityError>) -> Result<
    Seq<IpAddr>,
    PushSecurityError,
> {
    match answers {
        Ok(list) => Ok(list@),
        Err(e) => Err(e),
    }
}

fn all_loopback(answers: &Vec<IpAddr>) -> (r: bool)
    ensures
        r == (forall|i: int| 0 <= i < answers@.len() ==> address::loopback(#[trigger] answers@[i])),
{
    let mut i: usize = 0;
    while i < answers.len()
        invariant
            i <= answers@.len(),
            forall|j: int| 0 <= j < i ==> address::loopback(#[trigger] answers@[j]),
        decreases answers@.len() - i,
    {
        if !address::is_loopback(answers[i]) {
            return false;
        }
        i += 1;
    }
    true
}

fn all_loopback_answers(answers: &Vec<Option<IpAddr>>) -> (r: bool)
    ensures
        r == loopback_answers(answers@),
{
    let mut i: usize = 0;
    while i < answers.len()
        invariant
            i <= answers@.len(),
            forall|j: int| 0 <= j < i ==> (#[trigger] answers@[j]) is Some && address::loopback(answers@[j]->0),
        decreases answers@.len() - i,
    {
        match answers[i] {
            Some(ip) => {
                if !address::is_loopback(ip) {
                    assert(!(answers@[i as int] is Some && address::loopback(answers@[i as int]->0)));
                    return false;
                }
            },
            None => {
                assert(!(answers@[i as int] is Some));
                return false;
            },
        }
        i += 1;
    }
    true
}

/// Judges a fixed answer of a test, given the parts that were found in its URL.
pub fn check_test_host(h: &TestHost, found: &Option<weburl::UrlParts>) -> (r: Result<(), PushSecurityError>)
    ensures
        ({
            let view = match found {
                Some(p) => Some(p@),
                None => None,
            };
            match r {
                Ok(_) => test_host_fault(*h, view) is None,
                Err(e) => test_host_fault(*h, view) == Some(e),
            }
        }),
{
    let mut url = "https://".to_owned();
    url.append(h.host.as_str());
    url.append(":443/test");
    match callback_url::check_callback_url(url.as_str(), found) {
        Err(e) => Err(e),
        Ok(canonical) => {
            if !text::same_text(canonical.host(), h.host.as_str()) || h.answers.len() == 0 || h.answers.len() > 8
                || !all_loopback_answers(&h.answers) {
                return Err(PushSecurityError::InvalidPolicy);
            }
            Ok(())
        },
    }
}

proof fn lemma_hosts_prefix(hosts: Seq<TestHost>, m: int, n: int)
    requires
        0 <= m <= n,
        test_hosts_fault(hosts, m) is Some,
    ensures
        test_hosts_fault(hosts, n) == test_hosts_fault(hosts, m),
    decreases n - m,
{
    if m < n {
        lemma_hosts_prefix(hosts, m, n - 1);
    }
}

fn check_test_hosts(hosts: &Vec<TestHost>) -> (r: Result<(), PushSecurityError>)
    ensures
        match r {
            Ok(_) => test_hosts_fault(hosts@, hosts@.len() as int) is None,
            Err(e) => test_hosts_fault(hosts@, hosts@.len() as int) == Some(e),
        },
{
    let mut i: usize = 0;
    while i < hosts.len()
        invariant
            i <= hosts@.len(),
            test_hosts_fault(hosts@, i as int) is None,
        decreases hosts@.len() - i,
    {
        let mut url = "https://".to_owned();
        url.append(hosts[i].host.as_str());
        url.append(":443/test");
        let found = weburl::parse_url(url.as_str());
        match check_test_host(&hosts[i], &found) {
            Ok(_) => {},
            Err(e) => {
                proof {
                    assert(test_hosts_fault(hosts@, i + 1) == Some(e));
                    lemma_hosts_prefix(hosts@, i + 1, hosts@.len() as int);
                }
                return Err(e);
            },
        }
        i += 1;
    }
    Ok(())
}

fn is_connector_map_valid(map: &Vec<(IpAddr, IpAddr)>) -> (r: bool)
    ensures
        r == connector_map_valid(map@),
{
    if map.len() == 0 {
        return false;
    }
    let mut i: usize = 0;
    while i < map.len()
        invariant
            i <= map@.len(),
            forall|j: int| 0 <= j < i ==> address::public_ip((#[trigger] map@[j]).0) && address::loopback(map@[j].1),
        decreases map@.len() - i,
    {
        let entry = map[i];
        if !address::is_public_callback_ip(entry.0) || !address::is_loopback(entry.1) {
            assert(!(address::public_ip(map@[i as int].0) && address::loopback(map@[i as int].1)));
            return false;
        }
        i += 1;
    }
    true
}

impl SecureCallbackTransport {
    /// Attempts with default timeouts.
    pub fn new(max_answers: usize) -> (r: Result<SecureCallbackTransport, PushSecurityError>)
        ensures
            match r {
                Ok(t) => 1 <= max_answers <= 32 && t@ == default_transport(max_answers, Seq::empty()),
                Err(e) => e == PushSecurityError::InvalidPolicy && !(1 <= max_answers <= 32),
            },
    {
        if max_answers < 1 || max_answers > 32 {
            return Err(PushSecurityError::InvalidPolicy);
        }
        Ok(
            SecureCallbackTransport {
                max_answers,
                dns_timeout_ms: 2000,
                connect_timeout_ms: 3000,
                request_timeout_ms: 10_000,
                test_loopback_pinning: false,
                test_connector_map: Vec::new(),
                test_requested_pins: Vec::new(),
            },
        )
    }

    /// Attempts under a policy, with the resolver of the operating system.
    pub fn from_policy_system(policy: &PushPolicy) -> (r: SecureCallbackTransport)
        ensures
            r@ == transport_of(policy@, false),
    {
        SecureCallbackTransport {
            max_answers: policy.max_dns_answers() as usize,
            dns_timeout_ms: policy.dns_timeout_ms(),
            connect_timeout_ms: policy.connect_timeout_ms(),
            request_timeout_ms: policy.request_timeout_ms(),
            test_loopback_pinning: false,
            test_connector_map: Vec::new(),
            test_requested_pins: Vec::new(),
        }
    }

    /// The hosts and answers that a file with fixed answers states. It must state some,
    /// and not too many.
    pub fn read_test_answers(bytes: &[u8]) -> (r: Result<Vec<(String, Vec<String>)>, PushSecurityError>)
        ensures
            match r {
                Ok(listed) => json::json_lists_of(bytes@) == Some(json::list_views(listed@)) && 1 <= listed@.len()
                    <= 32,
                Err(e) => e == PushSecurityError::InvalidPolicy && (json::json_lists_of(bytes@) matches Some(listed)
                    ==> !(1 <= listed.len() <= 32)),
            },
    {
        match json::json_lists(bytes) {
            Some(listed) => if listed.len() == 0 || listed.len() > 32 {
                Err(PushSecurityError::InvalidPolicy)
            } else {
                Ok(listed)
            },
            None => Err(PushSecurityError::InvalidPolicy),
        }
    }

    /// Attempts under a policy with fixed answers, for tests. Only addresses of the
    /// machine itself are accepted, and it must be asked for explicitly. `hosts` is
    /// what was read of the file that states the answers.
    pub fn from_policy_test_dns_map(policy: &PushPolicy, hosts: &Option<Vec<TestHost>>, explicitly_enabled: bool) -> (r:
        Result<SecureCallbackTransport, PushSecurityError>)
        ensures
            ({
                let listed = match hosts {
                    Some(h) => Some(h@),
                    None => None,
                };
                match r {
                    Ok(t) => test_map_fault(explicitly_enabled, listed) is None && t@ == transport_of(policy@, true),
                    Err(e) => test_map_fault(explicitly_enabled, listed) == Some(e),
                }
            }),
    {
        if !explicitly_enabled {
            return Err(PushSecurityError::InvalidPolicy);
        }
        let listed = match hosts {
            Some(listed) => listed,
            None => {
                return Err(PushSecurityError::InvalidPolicy);
            },
        };
        if listed.len() == 0 || listed.len() > 32 {
            return Err(PushSecurityError::InvalidPolicy);
        }
        match check_test_hosts(listed) {
            Ok(_) => {},
            Err(e) => {
                return Err(e);
            },
        }
        Ok(
            SecureCallbackTransport {
                max_answers: policy.max_dns_answers() as usize,
                dns_timeout_ms: policy.dns_timeout_ms(),
                connect_timeout_ms: policy.connect_timeout_ms(),
                request_timeout_ms: policy.request_timeout_ms(),
                test_loopback_pinning: true,
                test_connector_map: Vec::new(),
                test_requested_pins: Vec::new(),
            },
        )
    }

    /// Attempts whose answers pass the whole policy, but whose connections are
    /// redirected to the machine itself, for tests.
    pub fn new_test_mapped(max_answers: usize, connector_map: Vec<(IpAddr, IpAddr)>, explicitly_enabled: bool) -> (r:
        Result<SecureCallbackTransport, PushSecurityError>)
        ensures
            ({
                let valid = explicitly_enabled && connector_map_valid(connector_map@) && 1 <= max_answers <= 32;
                match r {
                    Ok(t) => valid && t@ == default_transport(max_answers, connector_map@),
                    Err(e) => !valid && e == PushSecurityError::InvalidPolicy,
                }
            }),
    {
        if !explicitly_enabled || !is_connector_map_valid(&connector_map) || max_answers < 1 || max_answers > 32 {
            return Err(PushSecurityError::InvalidPolicy);
        }
        Ok(
            SecureCallbackTransport {
                max_answers,
                dns_timeout_ms: 2000,
                connect_timeout_ms: 3000,
                request_timeout_ms: 10_000,
                test_loopback_pinning: false,
                test_connector_map: connector_map,
                test_requested_pins: Vec::new(),
            },
        )
    }

    /// How long a lookup may take.
    pub fn dns_timeout_ms(&self) -> (r: u64)
        ensures
            r == self@.dns_timeout_ms,
    {
        self.dns_timeout_ms
    }

    /// How long a connection may take.
    pub fn connect_timeout_ms(&self) -> (r: u64)
        ensures
            r == self@.connect_timeout_ms,
    {
        self.connect_timeout_ms
    }

    /// How long a request may take.
    pub fn request_timeout_ms(&self) -> (r: u64)
        ensures
            r == self@.request_timeout_ms,
    {
        self.request_timeout_ms
    }

    /// The authorized addresses of connections that a test redirected.
    pub fn test_requested_pins(&self) -> (r: &[SocketAddr])
        ensures
            r@ == self@.requested_pins,
    {
        self.test_requested_pins.as_slice()
    }

    /// Where to connect, given the authorized address. A redirected one is recorded.
    pub fn connector_socket(&mut self, pinned: SocketAddr) -> (r: SocketAddr)
        ensures
            ({
                let to = redirected(old(self)@.connector_map, pinned.ip, old(self)@.connector_map.len() as int);
                match to {
                    None => r == pinned && final(self)@ == old(self)@,
                    Some(ip) => r == (SocketAddr { ip, port: pinned.port }) && final(self)@ == (TransportView {
                        requested_pins: old(self)@.requested_pins.push(pinned),
                        ..old(self)@
                    }),
                }
            }),
    {
        match find_redirect(&self.test_connector_map, pinned.ip) {
            None => pinned,
            Some(ip) => {
                self.test_requested_pins.push(pinned);
                SocketAddr { ip, port: pinned.port }
            },
        }
    }

    /// The one address that an attempt goes to, given the answers to its own lookup,
    /// where there were any in time.
    pub fn resolve_attempt(&self, answers: &Result<Vec<IpAddr>, PushSecurityError>, target: &CanonicalCallbackUrl) -> (r:
        Result<SocketAddr, PushSecurityError>)
        ensures
            match r {
                Ok(pin) => pin_of(self@, answers_view(*answers)) == Ok::<IpAddr, PushSecurityError>(pin.ip) && pin.port
                    == target@.port,
                Err(e) => pin_of(self@, answers_view(*answers)) == Err::<IpAddr, PushSecurityError>(e),
            },
    {
        let list = match answers {
            Ok(list) => list,
            Err(e) => {
                return Err(*e);
            },
        };
        if self.test_loopback_pinning && list.len() > 0 && list.len() <= self.max_answers && all_loopback(list) {
            return Ok(SocketAddr { ip: list[0], port: target.port() });
        }
        match address::validate_dns_answers(list.as_slice(), self.max_answers) {
            Ok(validated) => {
                proof {
                    address::law_validated_answers_are_public_and_distinct(list@, self.max_answers);
                }
                Ok(SocketAddr { ip: validated[0], port: target.port() })
            },
            Err(e) => Err(e),
        }
    }
}

fn find_redirect(map: &Vec<(IpAddr, IpAddr)>, ip: IpAddr) -> (r: Option<IpAddr>)
    ensures
        r == redirected(map@, ip, map@.len() as int),
{
    let mut found: Option<IpAddr> = None;
    let mut i: usize = 0;
    while i < map.len()
        invariant
            i <= map@.len(),
            found == redirected(map@, ip, i as int),
        decreases map@.len() - i,
    {
        if found.is_none() && map[i].0 == ip {
            found = Some(map[i].1);
        }
        i += 1;
    }
    found
}

/// An attempt outside of tests goes to a public address or nowhere, and one unsafe
/// answer stops it.
pub proof fn law_attempts_go_to_public_addresses(t: TransportView, answers: Seq<IpAddr>)
    requires
        !t.loopback_pinning,
    ensures
        match pin_of(t, Ok(answers)) {
            Ok(ip) => address::public_ip(ip) && forall|i: int|
                0 <= i < answers.len() ==> address::public_ip(#[trigger] answers[i]),
            Err(e) => e == PushSecurityError::UnsafeDns,
        },
{
    if address::safe_answers(answers, t.max_answers) {
        assert(address::public_ip(answers[0]));
    }
}

/// Attempts of tests go to public addresses or to the machine itself.
pub proof fn law_test_attempts_stay_local_or_public(t: TransportView, answers: Seq<IpAddr>)
    ensures
        match pin_of(t, Ok(answers)) {
            Ok(ip) => address::public_ip(ip) || address::loopback(ip),
            Err(_) => true,
        },
{
    if pinned_to_loopback(t, answers) {
        assert(address::loopback(answers[0]));
    } else if address::safe_answers(answers, t.max_answers) {
        assert(address::public_ip(answers[0]));
    }
}

/// A failed lookup as it is reported of an attempt.
pub open spec fn lookup_failure(e: PushSecurityError) -> CallbackTransportError {
    match e {
        PushSecurityError::UnsafeDns => CallbackTransportError::DnsUnsafe,
        PushSecurityError::DnsUnavailable => CallbackTransportError::DnsUnavailable,
        _ => CallbackTransportError::Configuration,
    }
}

/// Reports a failed lookup.
pub fn classify_lookup_failure(e: PushSecurityError) -> (r: CallbackTransportError)
    ensures
        r == lookup_failure(e),
{
    match e {
        PushSecurityError::UnsafeDns => CallbackTransportError::DnsUnsafe,
        PushSecurityError::DnsUnavailable => CallbackTransportError::DnsUnavailable,
        _ => CallbackTransportError::Configuration,
    }
}

/// A header of a callback.
pub struct CallbackHeader {
    pub name: String,
    pub value: String,
}

/// What identifies a callback on the wire.
pub struct CallbackIdentity {
    pub target: Seq<char>,
    pub endpoint_id: Seq<char>,
    pub event_id: Seq<char>,
    pub timestamp: u64,
    pub attempt: u32,
    pub key_generation: Seq<char>,
}

/// The headers of a callback.
pub open spec fn headers_of(secret: Seq<u8>, c: CallbackIdentity, body: Seq<u8>) -> Seq<(Seq<char>, Seq<char>)> {
    seq![
        ("Content-Type"@, "application/a2a+json"@),
        ("Content-Digest"@, signer::digest_header_of(body)),
        ("X-Smesh-Callback-Version"@, "1"@),
        ("X-Smesh-Callback-Event-Id"@, c.event_id),
        ("X-Smesh-Callback-Endpoint-Id"@, c.endpoint_id),
        ("X-Smesh-Callback-Timestamp"@, text::decimal(c.timestamp as nat)),
        ("X-Smesh-Callback-Attempt"@, text::decimal(c.attempt as nat)),
        ("X-Smesh-Callback-Key-Generation"@, c.key_generation),
        (
            "X-Smesh-Callback-Signature"@,
            signer::signature_of(
                secret,
                signer::SignedParts {
                    target: c.target,
                    endpoint_id: c.endpoint_id,
                    event_id: c.event_id,
                    timestamp: c.timestamp,
                    attempt: c.attempt,
                    key_generation: c.key_generation,
                    body_digest: crate::crypto::sha256_of(body),
                },
            ),
        ),
        ("Idempotency-Key"@, c.event_id),
    ]
}

/// Headers as text.
pub open spec fn header_views(list: Seq<CallbackHeader>) -> Seq<(Seq<char>, Seq<char>)> {
    Seq::new(list.len(), |i: int| (list[i].name@, list[i].value@))
}

fn header(name: &str, value: &str) -> (r: CallbackHeader)
    ensures
        r.name@ == name@,
        r.value@ == value@,
{
    CallbackHeader { name: name.to_owned(), value: value.to_owned() }
}

/// The headers of a callback, with its signature.
pub fn callback_headers(
    target: &CanonicalCallbackUrl,
    endpoint_id: &str,
    event_id: &str,
    timestamp: u64,
    attempt: u32,
    key_generation: &str,
    signer: &CallbackSigner,
    body: &[u8],
) -> (r: Vec<CallbackHeader>)
    ensures
        header_views(r@) == headers_of(
            signer.secret(),
            CallbackIdentity {
                target: target@.canonical,
                endpoint_id: endpoint_id@,
                event_id: event_id@,
                timestamp,
                attempt,
                key_generation: key_generation@,
            },
            body@,
        ),
{
    let signature = signer.sign(target.as_str(), endpoint_id, event_id, timestamp, attempt, key_generation, body);
    let digest = signer::content_digest_header(body);
    let at = text::decimal_text(timestamp);
    let number = text::decimal_text(attempt as u64);
    let mut list: Vec<CallbackHeader> = Vec::new();
    list.push(header("Content-Type", "application/a2a+json"));
    list.push(header("Content-Digest", digest.as_str()));
    list.push(header("X-Smesh-Callback-Version", "1"));
    list.push(header("X-Smesh-Callback-Event-Id", event_id));
    list.push(header("X-Smesh-Callback-Endpoint-Id", endpoint_id));
    list.push(header("X-Smesh-Callback-Timestamp", at.as_str()));
    list.push(header("X-Smesh-Callback-Attempt", number.as_str()));
    list.push(header("X-Smesh-Callback-Key-Generation", key_generation));
    list.push(header("X-Smesh-Callback-Signature", signature.as_str()));
    list.push(header("Idempotency-Key", event_id));
    proof {
        assert(header_views(list@) =~= headers_of(
            signer.secret(),
            CallbackIdentity {
                target: target@.canonical,
                endpoint_id: endpoint_id@,
                event_id: event_id@,
                timestamp,
                attempt,
                key_generation: key_generation@,
            },
            body@,
        ));
    }
    list
}

/// Whether a callback may be sent at all.
pub fn check_send(body_len: usize, attempt: u32) -> (r: Result<(), PushSecurityError>)
    ensures
        r == (if body_len > MAX_BODY_BYTES || attempt == 0 {
            Err::<(), PushSecurityError>(PushSecurityError::InvalidPolicy)
        } else {
            Ok(())
        }),
        r is Ok <==> body_len <= 256 * 1024 && attempt > 0,
{
    if body_len > MAX_BODY_BYTES || attempt == 0 {
        return Err(PushSecurityError::InvalidPolicy);
    }
    Ok(())
}

/// Whether a callback of an enrollment may be sent at all. Nothing is looked up for
/// one that may not.
pub fn check_send_enrollment(body_len: usize, attempt: u32, max_response_bytes: usize) -> (r: Result<
    (),
    CallbackTransportError,
>)
    ensures
        r == (if body_len == 0 || body_len > MAX_BODY_BYTES || attempt == 0 || max_response_bytes == 0 {
            Err::<(), CallbackTransportError>(CallbackTransportError::Configuration)
        } else {
            Ok(())
        }),
        r is Ok <==> 1 <= body_len <= 256 * 1024 && attempt > 0 && max_response_bytes > 0,
{
    if body_len == 0 || body_len > MAX_BODY_BYTES || attempt == 0 || max_response_bytes == 0 {
        return Err(CallbackTransportError::Configuration);
    }
    Ok(())
}

/// The signer of an enrollment at the wire, where its material is usable.
pub fn attempt_signer(enrollment: &PushEnrollment, secret: &Option<Vec<u8>>) -> (r: Result<
    CallbackSigner,
    CallbackTransportError,
>)
    ensures
        ({
            let usable = secret is Some && signer::MIN_SECRET_BYTES <= secret->0@.len() <= signer::MAX_SECRET_BYTES;
            match r {
                Ok(s) => usable && s.secret() == secret->0@,
                Err(e) => !usable && e == CallbackTransportError::Configuration,
            }
        }),
{
    match enrollment.load_signer(secret) {
        Ok(s) => Ok(s),
        Err(_) => Err(CallbackTransportError::Configuration),
    }
}

/// The bytes received after some more, within a bound.
pub fn receive_more(received: usize, more: usize, max_response_bytes: usize) -> (r: Result<
    usize,
    CallbackTransportError,
>)
    ensures
        r == (if received + more > max_response_bytes {
            Err::<usize, CallbackTransportError>(CallbackTransportError::ResponseTooLarge)
        } else {
            Ok((received + more) as usize)
        }),
        r matches Ok(total) ==> total == received + more && total <= max_response_bytes,
        r is Err ==> received + more > max_response_bytes,
{
    match received.checked_add(more) {
        Some(total) => if total > max_response_bytes {
            Err(CallbackTransportError::ResponseTooLarge)
        } else {
            Ok(total)
        },
        None => Err(CallbackTransportError::ResponseTooLarge),
    }
}

/// The sum of the sizes of headers, names and values alike.
pub open spec fn header_total(sizes: Seq<(usize, usize)>) -> nat
    decreases sizes.len(),
{
    if sizes.len() == 0 {
        0
    } else {
        header_total(sizes.drop_last()) + sizes.last().0 as nat + sizes.last().1 as nat
    }
}

proof fn lemma_header_prefix(sizes: Seq<(usize, usize)>, n: int)
    requires
        0 <= n <= sizes.len(),
    ensures
        header_total(sizes.subrange(0, n)) <= header_total(sizes),
    decreases sizes.len() - n,
{
    if n < sizes.len() {
        lemma_header_prefix(sizes, n + 1);
        assert(sizes.subrange(0, n + 1).drop_last() =~= sizes.subrange(0, n));
    } else {
        assert(sizes.subrange(0, n) =~= sizes);
    }
}

/// The bytes that the headers of a response take of what may be received.
pub fn header_bytes(sizes: &Vec<(usize, usize)>, max_response_bytes: usize) -> (r: Result<
    usize,
    CallbackTransportError,
>)
    ensures
        match r {
            Ok(total) => total == header_total(sizes@) && total <= max_response_bytes,
            Err(e) => e == CallbackTransportError::ResponseTooLarge && header_total(sizes@) > max_response_bytes,
        },
{
    let mut total: usize = 0;
    let mut i: usize = 0;
    assert(sizes@.subrange(0, 0) =~= Seq::<(usize, usize)>::empty());
    while i < sizes.len()
        invariant
            i <= sizes@.len(),
            total == header_total(sizes@.subrange(0, i as int)),
            total <= max_response_bytes,
        decreases sizes@.len() - i,
    {
        let size = sizes[i];
        proof {
            let step = sizes@.subrange(0, i + 1);
            assert(step.drop_last() =~= sizes@.subrange(0, i as int));
            assert(step.last() == sizes@[i as int]);
            lemma_header_prefix(sizes@, i + 1);
        }
        let named: usize = match total.checked_add(size.0) {
            Some(n) => n,
            None => {
                return Err(CallbackTransportError::ResponseTooLarge);
            },
        };
        total = match receive_more(named, size.1, max_response_bytes) {
            Ok(n) => n,
            Err(e) => {
                return Err(e);
            },
        };
        i += 1;
    }
    assert(sizes@.subrange(0, i as int) =~= sizes@);
    Ok(total)
}

/// The delay that a response asks for at some time, given each of its Retry-After
/// values, absent where it is no text. Only one value asks for a delay.
pub open spec fn response_delay(status: u16, values: Seq<Option<String>>, now: u64) -> Option<u64> {
    if values.len() == 1 && values[0] is Some {
        retry::retry_after_of(
            status,
            seq![values[0]->0@],
            retry::http_date_of(values[0]->0@),
            now,
            0,
            MAX_RETRY_AFTER_SECONDS,
        )
    } else {
        None
    }
}

/// What came back at some time, given the Retry-After values of its headers.
pub fn accept_response_at(status: u16, values: &Vec<Option<String>>, now_epoch_seconds: u64) -> (r: CallbackResponse)
    ensures
        r.code() == status,
        r.delay() == response_delay(status, values@, now_epoch_seconds),
{
    let disposition = retry::classify_status(status);
    if values.len() != 1 {
        return CallbackResponse { status, disposition, retry_after_seconds: None };
    }
    match &values[0] {
        None => CallbackResponse { status, disposition, retry_after_seconds: None },
        Some(value) => {
            let mut one: Vec<&str> = Vec::new();
            one.push(value.as_str());
            assert(retry::value_views(one@) =~= seq![value@]);
            let retry_after_seconds: Option<u64> = retry::retry_after_seconds_at(
                status,
                one.as_slice(),
                now_epoch_seconds,
                0,
                MAX_RETRY_AFTER_SECONDS,
            );
            CallbackResponse { status, disposition, retry_after_seconds }
        },
    }
}

/// What came back, given the Retry-After values of its headers. A date counts from
/// whatever the clock shows.
pub fn accept_response(status: u16, values: &Vec<Option<String>>) -> (r: CallbackResponse)
    ensures
        r.code() == status,
        r.delay() is None || exists|now: u64| r.delay() == #[trigger] response_delay(status, values@, now),
{
    match retry::unix_seconds() {
        Some(now) => {
            let response = accept_response_at(status, values, now);
            assert(response.delay() == response_delay(status, values@, now));
            response
        },
        None => CallbackResponse { status, disposition: retry::classify_status(status), retry_after_seconds: None },
    }
}

/// A delay is kept of a response only where its status may ask for one, it has exactly
/// one Retry-After value, and the delay's milliseconds can be counted.
pub proof fn law_kept_delays_are_asked_for_once(status: u16, values: Seq<Option<String>>, now: u64)
    ensures
        kept_delay(status, response_delay(status, values, now)),
        response_delay(status, values, now) is Some ==> values.len() == 1 && values[0] is Some,
{
}

/// One error in a chain of causes: whether it is one of the TLS library, and its text.
pub struct ErrorLink {
    pub tls_error: bool,
    pub text: String,
}

/// A byte with an upper-case ASCII letter made lower-case.
pub open spec fn lower_byte(b: u8) -> u8 {
    if 65 <= b <= 90 {
        (b + 32) as u8
    } else {
        b
    }
}

/// A byte string with upper-case ASCII letters made lower-case.
pub open spec fn lowered(s: Seq<u8>) -> Seq<u8> {
    Seq::new(s.len(), |i: int| lower_byte(s[i]))
}

fn lower_bytes(s: &[u8]) -> (r: Vec<u8>)
    ensures
        r@ == lowered(s@),
{
    let mut out: Vec<u8> = Vec::new();
    let mut i: usize = 0;
    while i < s.len()
        invariant
            i <= s@.len(),
            out@.len() == i,
            forall|j: int| 0 <= j < i ==> #[trigger] out@[j] == lower_byte(s@[j]),
        decreases s@.len() - i,
    {
        let b: u8 = s[i];
        if b >= 65 && b <= 90 {
            out.push(b + 32);
        } else {
            out.push(b);
        }
        i += 1;
    }
    assert(out@ =~= lowered(s@));
    out
}

/// Whether an error stems from TLS: by its kind, or by what its text says.
pub open spec fn tls_link(e: ErrorLink) -> bool {
    let words = lowered(text::utf8(e.text@));
    e.tls_error || text::holds(words, text::utf8("certificate"@)) || text::holds(words, text::utf8("tls alert"@))
        || text::holds(words, text::utf8("unknown issuer"@)) || text::holds(words, text::utf8("not valid for name"@))
}

fn is_tls_link(e: &ErrorLink) -> (r: bool)
    ensures
        r == tls_link(*e),
{
    if e.tls_error {
        return true;
    }
    let words = lower_bytes(e.text.as_str().as_bytes());
    text::contains_bytes(words.as_slice(), "certificate".as_bytes()) || text::contains_bytes(
        words.as_slice(),
        "tls alert".as_bytes(),
    ) || text::contains_bytes(words.as_slice(), "unknown issuer".as_bytes()) || text::contains_bytes(
        words.as_slice(),
        "not valid for name".as_bytes(),
    )
}

/// Whether an error or one of its causes stems from TLS.
pub open spec fn tls_chain(chain: Seq<ErrorLink>) -> bool {
    exists|i: int| 0 <= i < chain.len() && tls_link(#[trigger] chain[i])
}

/// Whether an error or one of its causes stems from TLS.
pub fn error_chain_contains_rustls(chain: &Vec<ErrorLink>) -> (r: bool)
    ensures
        r == tls_chain(chain@),
{
    let mut i: usize = 0;
    while i < chain.len()
        invariant
            i <= chain@.len(),
            forall|j: int| 0 <= j < i ==> !tls_link(#[trigger] chain@[j]),
        decreases chain@.len() - i,
    {
        if is_tls_link(&chain[i]) {
            assert(tls_link(chain@[i as int]));
            return true;
        }
        i += 1;
    }
    false
}

/// How a failed request is reported.
pub open spec fn request_failure(timeout: bool, chain: Seq<ErrorLink>, connect: bool) -> CallbackTransportError {
    if timeout {
        CallbackTransportError::Timeout
    } else if tls_chain(chain) {
        CallbackTransportError::Tls
    } else if connect {
        CallbackTransportError::Connect
    } else {
        CallbackTransportError::Reset
    }
}

/// Reports a failed request.
pub fn classify_reqwest_error(timeout: bool, chain: &Vec<ErrorLink>, connect: bool) -> (r: CallbackTransportError)
    ensures
        r == request_failure(timeout, chain@, connect),
{
    if timeout {
        CallbackTransportError::Timeout
    } else if error_chain_contains_rustls(chain) {
        CallbackTransportError::Tls
    } else if connect {
        CallbackTransportError::Connect
    } else {
        CallbackTransportError::Reset
    }
}

/// How a request of an enrollment that failed before its response began is reported.
/// With a client identity, a reset at that point is a peer that refuses the identity.
pub open spec fn send_failure(e: policy::EnrollmentView, failure: CallbackTransportError) -> CallbackTransportError {
    if failure == CallbackTransportError::Reset && e.mtls_cert_file is Some && e.mtls_key_file is Some {
        CallbackTransportError::Tls
    } else {
        failure
    }
}

/// Reports a request of an enrollment that failed before its response began.
pub fn classify_send_failure(enrollment: &PushEnrollment, failure: CallbackTransportError) -> (r: CallbackTransportError)
    ensures
        r == send_failure(enrollment@, failure),
{
    if failure == CallbackTransportError::Reset && enrollment.mtls_files().is_some() {
        CallbackTransportError::Tls
    } else {
        failure
    }
}

/// An attempt outside of tests goes to the first answer of its lookup, exactly where there are
/// answers, no more than may be, and every one of them is public; a failed lookup fails it by its
/// own error.
pub proof fn law_attempts_go_to_the_first_answer(t: TransportView, answers: Seq<IpAddr>, e: PushSecurityError)
    ensures
        pin_of(t, Err(e)) == Err::<IpAddr, PushSecurityError>(e),
        pin_of(t, Ok(answers)) is Ok ==> answers.len() >= 1 && answers.len() <= t.max_answers && pin_of(t, Ok(answers))
            == Ok::<IpAddr, PushSecurityError>(answers[0]),
        pin_of(t, Ok(answers)) is Err ==> pin_of(t, Ok(answers)) == Err::<IpAddr, PushSecurityError>(
            PushSecurityError::UnsafeDns,
        ),
        answers.len() == 0 || answers.len() > t.max_answers ==> pin_of(t, Ok(answers)) is Err,
        1 <= answers.len() <= t.max_answers && (forall|i: int|
            0 <= i < answers.len() ==> address::public_ip(#[trigger] answers[i])) ==> pin_of(t, Ok(answers)) is Ok,
        t.loopback_pinning && 1 <= answers.len() <= t.max_answers && (forall|i: int|
            0 <= i < answers.len() ==> address::loopback(#[trigger] answers[i])) ==> pin_of(t, Ok(answers)) is Ok,
{
}

/// A test redirects an address to what its map first says of it, and leaves an address that the
/// map does not name.
pub proof fn law_redirections_follow_the_first_entry(map: Seq<(IpAddr, IpAddr)>, ip: IpAddr, i: int)
    requires
        0 <= i <= map.len(),
        forall|k: int| 0 <= k < i ==> (#[trigger] map[k]).0 != ip,
    ensures
        i == map.len() ==> redirected(map, ip, map.len() as int) is None,
        i < map.len() && map[i].0 == ip ==> redirected(map, ip, map.len() as int) == Some(map[i].1),
{
    lemma_redirected_at(map, ip, i, map.len() as int);
}

proof fn lemma_redirected_at(map: Seq<(IpAddr, IpAddr)>, ip: IpAddr, i: int, n: int)
    requires
        0 <= i <= map.len(),
        0 <= n <= map.len(),
        forall|k: int| 0 <= k < i ==> (#[trigger] map[k]).0 != ip,
    ensures
        n <= i ==> redirected(map, ip, n) is None,
        i < n && map[i].0 == ip ==> redirected(map, ip, n) == Some(map[i].1),
    decreases n,
{
    if n > 0 {
        lemma_redirected_at(map, ip, i, n - 1);
    }
}

/// Connections are redirected only from public addresses to the machine itself.
pub proof fn law_redirections_lead_home(map: Seq<(IpAddr, IpAddr)>, i: int)
    ensures
        map.len() == 0 ==> !connector_map_valid(map),
        connector_map_valid(map) && 0 <= i < map.len() ==> address::public_ip(map[i].0) && address::loopback(map[i].1),
        map.len() > 0 && (forall|k: int|
            0 <= k < map.len() ==> address::public_ip((#[trigger] map[k]).0) && address::loopback(map[k].1))
            ==> connector_map_valid(map),
{
}

/// Fixed answers are accepted only where they are asked for explicitly, for between one and 32
/// hosts, each with an accepted destination of its own name and between one and eight addresses
/// of the machine itself.
pub proof fn law_fixed_answers_stay_home(h: TestHost, found: Option<weburl::UrlView>, hosts: Seq<TestHost>)
    ensures
        test_map_fault(false, Some(hosts)) == Some(PushSecurityError::InvalidPolicy),
        test_map_fault(true, None) == Some(PushSecurityError::InvalidPolicy),
        hosts.len() == 0 || hosts.len() > 32 ==> test_map_fault(true, Some(hosts)) == Some(
            PushSecurityError::InvalidPolicy,
        ),
        1 <= hosts.len() <= 32 ==> test_map_fault(true, Some(hosts)) == test_hosts_fault(hosts, hosts.len() as int),
        !callback_url::accepted_url(test_url_of(h.host@), found) ==> test_host_fault(h, found) == Some(
            PushSecurityError::InvalidDestination,
        ),
        test_host_fault(h, found) is None <==> callback_url::accepted_url(test_url_of(h.host@), found)
            && found->0.host->0 == h.host@ && 1 <= h.answers@.len() <= 8 && forall|i: int|
            0 <= i < h.answers@.len() ==> (#[trigger] h.answers@[i]) is Some && address::loopback(h.answers@[i]->0),
{
}

/// Fixed answers are accepted all together: exactly where each host of them is.
pub proof fn law_every_fixed_answer_must_be_acceptable(hosts: Seq<TestHost>, n: int)
    requires
        0 <= n <= hosts.len(),
    ensures
        test_hosts_fault(hosts, n) is None <==> forall|i: int|
            0 <= i < n ==> test_host_fault(
                #[trigger] hosts[i],
                weburl::url_parsed(test_url_of(hosts[i].host@)),
            ) is None,
    decreases n,
{
    if n > 0 {
        law_every_fixed_answer_must_be_acceptable(hosts, n - 1);
        assert(hosts[n - 1] == hosts[n - 1]);
    }
}

/// Attempts under a policy keep its limits; without one they look up for two seconds, connect
/// for three and wait for ten. Neither redirects anything, nor pins outside of tests.
pub proof fn law_transports_keep_their_limits(p: policy::PolicyView, pinning: bool, answers: usize)
    ensures
        transport_of(p, pinning).max_answers == p.max_dns_answers,
        transport_of(p, pinning).dns_timeout_ms == p.dns_timeout_ms,
        transport_of(p, pinning).connect_timeout_ms == p.connect_timeout_ms,
        transport_of(p, pinning).request_timeout_ms == p.request_timeout_ms,
        transport_of(p, pinning).loopback_pinning == pinning,
        transport_of(p, pinning).connector_map.len() == 0,
        transport_of(p, pinning).requested_pins.len() == 0,
        default_transport(answers, Seq::empty()).max_answers == answers,
        default_transport(answers, Seq::empty()).dns_timeout_ms == 2 * 1000,
        default_transport(answers, Seq::empty()).connect_timeout_ms == 3 * 1000,
        default_transport(answers, Seq::empty()).request_timeout_ms == 10 * 1000,
        !default_transport(answers, Seq::empty()).loopback_pinning,
        default_transport(answers, Seq::empty()).requested_pins.len() == 0,
{
}

/// An unsafe or unavailable lookup is told apart from anything that is misconfigured.
pub proof fn law_lookup_failures_are_told_apart(e: PushSecurityError)
    ensures
        lookup_failure(e) == CallbackTransportError::DnsUnsafe <==> e == PushSecurityError::UnsafeDns,
        lookup_failure(e) == CallbackTransportError::DnsUnavailable <==> e == PushSecurityError::DnsUnavailable,
        e != PushSecurityError::UnsafeDns && e != PushSecurityError::DnsUnavailable ==> lookup_failure(e)
            == CallbackTransportError::Configuration,
{
}

/// A callback has ten headers. Its event is its idempotency key, its body is digested, and it is
/// signed over its target, endpoint, event, time, attempt, key generation and body.
pub proof fn law_callbacks_are_signed_over_their_parts(secret: Seq<u8>, c: CallbackIdentity, body: Seq<u8>)
    ensures
        headers_of(secret, c, body).len() == 10,
        headers_of(secret, c, body)[1].1 == signer::digest_header_of(body),
        headers_of(secret, c, body)[3].1 == c.event_id,
        headers_of(secret, c, body)[9].1 == c.event_id,
        headers_of(secret, c, body)[4].1 == c.endpoint_id,
        headers_of(secret, c, body)[5].1 == text::decimal(c.timestamp as nat),
        headers_of(secret, c, body)[6].1 == text::decimal(c.attempt as nat),
        headers_of(secret, c, body)[7].1 == c.key_generation,
        headers_of(secret, c, body)[8].1 == signer::signature_of(
            secret,
            (signer::SignedParts {
                target: c.target,
                endpoint_id: c.endpoint_id,
                event_id: c.event_id,
                timestamp: c.timestamp,
                attempt: c.attempt,
                key_generation: c.key_generation,
                body_digest: crate::crypto::sha256_of(body),
            }),
        ),
        headers_of(secret, c, body)[0].0 == "Content-Type"@,
        headers_of(secret, c, body)[1].0 == "Content-Digest"@,
        headers_of(secret, c, body)[3].0 == "X-Smesh-Callback-Event-Id"@,
        headers_of(secret, c, body)[4].0 == "X-Smesh-Callback-Endpoint-Id"@,
        headers_of(secret, c, body)[5].0 == "X-Smesh-Callback-Timestamp"@,
        headers_of(secret, c, body)[6].0 == "X-Smesh-Callback-Attempt"@,
        headers_of(secret, c, body)[7].0 == "X-Smesh-Callback-Key-Generation"@,
        headers_of(secret, c, body)[8].0 == "X-Smesh-Callback-Signature"@,
        headers_of(secret, c, body)[9].0 == "Idempotency-Key"@,
{
}

/// The size of headers is the sum of the sizes of their names and values.
pub proof fn law_header_sizes_add_up(first: Seq<(usize, usize)>, second: Seq<(usize, usize)>, one: (usize, usize))
    ensures
        header_total(first + second) == header_total(first) + header_total(second),
        header_total(seq![one]) == one.0 + one.1,
        header_total(Seq::empty()) == 0,
    decreases second.len(),
{
    assert(seq![one].drop_last() =~= Seq::<(usize, usize)>::empty());
    assert(header_total(seq![one].drop_last()) == 0);
    if second.len() == 0 {
        assert(first + second =~= first);
    } else {
        law_header_sizes_add_up(first, second.drop_last(), one);
        assert((first + second).drop_last() =~= first + second.drop_last());
        assert((first + second).last() == second.last());
    }
}

/// A failed request is a timeout before anything else, then one of TLS where it or a cause of it
/// is, then one of the connection, and a reset where it is none of these.
pub proof fn law_failures_are_told_in_order(timeout: bool, chain: Seq<ErrorLink>, connect: bool, i: int)
    requires
        0 <= i < chain.len(),
    ensures
        timeout <==> request_failure(timeout, chain, connect) == CallbackTransportError::Timeout,
        !timeout && chain[i].tls_error ==> request_failure(timeout, chain, connect) == CallbackTransportError::Tls,
        request_failure(timeout, chain, connect) == CallbackTransportError::Connect ==> connect && !chain[i].tls_error,
        request_failure(timeout, chain, connect) == CallbackTransportError::Reset ==> !connect && !chain[i].tls_error,
        request_failure(timeout, Seq::empty(), connect) == (if timeout {
            CallbackTransportError::Timeout
        } else if connect {
            CallbackTransportError::Connect
        } else {
            CallbackTransportError::Reset
        }),
{
    if chain[i].tls_error {
        assert(tls_link(chain[i]));
    }
}

/// An error stems from TLS where its kind says so or its text, whatever its case, speaks of a
/// certificate, an alert, an unknown issuer or a name that is not covered.
pub proof fn law_tls_errors_are_told_by_their_text(e: ErrorLink)
    ensures
        tls_link(e) <==> e.tls_error || text::holds(lowered(text::utf8(e.text@)), text::utf8("certificate"@))
            || text::holds(lowered(text::utf8(e.text@)), text::utf8("tls alert"@)) || text::holds(
            lowered(text::utf8(e.text@)),
            text::utf8("unknown issuer"@),
        ) || text::holds(lowered(text::utf8(e.text@)), text::utf8("not valid for name"@)),
        lowered(text::utf8(e.text@)).len() == text::utf8(e.text@).len(),
        lowered(lowered(text::utf8(e.text@))) == lowered(text::utf8(e.text@)),
        forall|i: int|
            0 <= i < text::utf8(e.text@).len() ==> {
                let b = text::utf8(e.text@)[i];
                let l = #[trigger] lowered(text::utf8(e.text@))[i];
                if 65 <= b <= 90 {
                    l == b + 32
                } else {
                    l == b
                }
            },
{
    assert(lowered(lowered(text::utf8(e.text@))) =~= lowered(text::utf8(e.text@)));
}

/// A reset before the response began is a refused identity exactly where the enrollment has one;
/// every other failure stands as it is.
pub proof fn law_resets_refuse_identities(e: policy::EnrollmentView, failure: CallbackTransportError)
    ensures
        failure != CallbackTransportError::Reset ==> send_failure(e, failure) == failure,
        e.mtls_cert_file is Some && e.mtls_key_file is Some ==> send_failure(e, CallbackTransportError::Reset)
            == CallbackTransportError::Tls,
        e.mtls_cert_file is None || e.mtls_key_file is None ==> send_failure(e, CallbackTransportError::Reset)
            == CallbackTransportError::Reset,
{
}

/// A response with one readable value is given the delay that it asks for, up to what can be
/// counted in milliseconds; no or several values ask for nothing.
pub proof fn law_response_delays_are_counted(status: u16, value: String, now: u64)
    ensures
        response_delay(status, seq![Some(value)], now) == retry::retry_after_of(
            status,
            seq![value@],
            retry::http_date_of(value@),
            now,
            0,
            (0xffff_ffff_ffff_ffffu64 / 1000) as u64,
        ),
        response_delay(status, Seq::empty(), now) is None,
        response_delay(status, seq![Some(value), Some(value)], now) is None,
        response_delay(status, seq![None], now) is None,
{
}

/// A transport looks names up for two seconds, connects for three, waits ten for an answer and goes
/// to nowhere but the addresses it finds, unless it is told otherwise.
pub proof fn law_new_transports_are_bounded(max_answers: usize, connector_map: Seq<(IpAddr, IpAddr)>)
    ensures
        default_transport(max_answers, connector_map).dns_timeout_ms == 2 * 1000,
        default_transport(max_answers, connector_map).connect_timeout_ms == 3 * 1000,
        default_transport(max_answers, connector_map).request_timeout_ms == 10 * 1000,
        default_transport(max_answers, connector_map).max_answers == max_answers,
        default_transport(max_answers, connector_map).connector_map == connector_map,
        !default_transport(max_answers, connector_map).loopback_pinning,
        default_transport(max_answers, connector_map).requested_pins.len() == 0,
{
}

/// A response keeps a delay only where its status may ask for one and its milliseconds can be
/// counted.
pub proof fn law_kept_delays_can_be_counted(status: u16, seconds: u64)
    ensures
        kept_delay(status, None),
        kept_delay(status, Some(seconds)) ==> status == 429 || status == 503,
        kept_delay(status, Some(seconds)) ==> seconds * 1000 <= 0xffff_ffff_ffff_ffff,
        (status == 429 || status == 503) && seconds * 1000 <= 0xffff_ffff_ffff_ffff ==> kept_delay(status, Some(seconds)),
{
}

/// A callback is sent as A2A JSON, in the first version of its form, with the digest of its body, and
/// under its event's name as the key of the request.
pub proof fn law_callbacks_are_sent_under_their_event(secret: Seq<u8>, c: CallbackIdentity, body: Seq<u8>)
    ensures
        headers_of(secret, c, body).len() == 10,
        headers_of(secret, c, body).contains(("Content-Type"@, "application/a2a+json"@)),
        headers_of(secret, c, body).contains(("X-Smesh-Callback-Version"@, "1"@)),
        headers_of(secret, c, body).contains(("Content-Digest"@, signer::digest_header_of(body))),
        headers_of(secret, c, body).contains(("Idempotency-Key"@, c.event_id)),
        headers_of(secret, c, body).contains(("X-Smesh-Callback-Event-Id"@, c.event_id)),
        headers_of(secret, c, body).contains(("X-Smesh-Callback-Endpoint-Id"@, c.endpoint_id)),
        headers_of(secret, c, body).contains(("X-Smesh-Callback-Key-Generation"@, c.key_generation)),
{
    let h = headers_of(secret, c, body);
    assert(h[0] == ("Content-Type"@, "application/a2a+json"@));
    assert(h[1] == ("Content-Digest"@, signer::digest_header_of(body)));
    assert(h[2] == ("X-Smesh-Callback-Version"@, "1"@));
    assert(h[3] == ("X-Smesh-Callback-Event-Id"@, c.event_id));
    assert(h[4] == ("X-Smesh-Callback-Endpoint-Id"@, c.endpoint_id));
    assert(h[7] == ("X-Smesh-Callback-Key-Generation"@, c.key_generation));
    assert(h[9] == ("Idempotency-Key"@, c.event_id));
}

} // verus!
