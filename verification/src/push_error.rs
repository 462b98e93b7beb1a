//! The errors of the callback subsystem. None carries a path, an address, a URL or
//! secret material.

use vstd::prelude::*;

verus! {

/// Why a callback policy, destination or secret is refused.
#[derive(Clone, Copy, Debug, PartialEq, Eq, Structural)]
pub enum PushSecurityError {
    InvalidPolicy,
    EnrollmentDenied,
    InvalidDestination,
    InvalidSecret,
    UnsafeDns,
    DnsUnavailable,
}

impl PushSecurityError {
    /// The text that the error is shown with.
    pub open spec fn text(self) -> Seq<char> {
        match self {
            PushSecurityError::InvalidPolicy => "callback policy is invalid"@,
            PushSecurityError::EnrollmentDenied => "callback enrollment is not authorized"@,
            PushSecurityError::InvalidDestination => "callback destination is invalid"@,
            PushSecurityError::InvalidSecret => "callback secret material is invalid"@,
            PushSecurityError::UnsafeDns => "callback DNS result is unsafe"@,
            PushSecurityError::DnsUnavailable => "callback DNS lookup is unavailable"@,
        }
    }

    /// The text that the error is shown with.
    pub fn message(self) -> (r: &'static str)
        ensures
            r@ == self.text(),
    {
        match self {
            PushSecurityError::InvalidPolicy => "callback policy is invalid",
            PushSecurityError::EnrollmentDenied => "callback enrollment is not authorized",
            PushSecurityError::InvalidDestination => "callback destination is invalid",
            PushSecurityError::InvalidSecret => "callback secret material is invalid",
            PushSecurityError::UnsafeDns => "callback DNS result is unsafe",
            PushSecurityError::DnsUnavailable => "callback DNS lookup is unavailable",
        }
    }
}

/// How an attempt on the wire fails.
#[derive(Clone, Copy, Debug, PartialEq, Eq, Structural)]
pub enum CallbackTransportError {
    DnsUnsafe,
    DnsUnavailable,
    Tls,
    Configuration,
    Connect,
    Timeout,
    Reset,
    ResponseTooLarge,
}

impl CallbackTransportError {
    /// The text that the error is shown with.
    pub open spec fn text(self) -> Seq<char> {
        match self {
            CallbackTransportError::DnsUnsafe => "callback DNS result is unsafe"@,
            CallbackTransportError::DnsUnavailable => "callback DNS lookup is unavailable"@,
            CallbackTransportError::Tls => "callback TLS validation failed"@,
            CallbackTransportError::Configuration => "callback transport configuration is invalid"@,
            CallbackTransportError::Connect => "callback connection failed"@,
            CallbackTransportError::Timeout => "callback attempt timed out"@,
            CallbackTransportError::Reset => "callback connection was reset"@,
            CallbackTransportError::ResponseTooLarge => "callback response exceeded its bound"@,
        }
    }

    /// The text that the error is shown with.
    pub fn message(self) -> (r: &'static str)
        ensures
            r@ == self.text(),
    {
        match self {
            CallbackTransportError::DnsUnsafe => "callback DNS result is unsafe",
            CallbackTransportError::DnsUnavailable => "callback DNS lookup is unavailable",
            CallbackTransportError::Tls => "callback TLS validation failed",
            CallbackTransportError::Configuration => "callback transport configuration is invalid",
            CallbackTransportError::Connect => "callback connection failed",
            CallbackTransportError::Timeout => "callback attempt timed out",
            CallbackTransportError::Reset => "callback connection was reset",
            CallbackTransportError::ResponseTooLarge => "callback response exceeded its bound",
        }
    }
}

} // verus!
