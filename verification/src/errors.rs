//! Failure classification.
//!
//! Two layers fail in different ways: the DNS resolver (not found,
//! timeout, server failure, malformed answer) and the HTTP sources
//! (transport failures, non-2xx statuses, unparseable bodies). Only
//! transport-level failures count as transient for the retried source;
//! a non-2xx status is terminal for the attempt that saw it. Gateway
//! statuses are recognized separately so the report can phrase a
//! "temporarily unavailable" diagnostic without leaking protocol
//! internals.

use vstd::prelude::*;

verus! {

/// What a DNS lookup can fail with.
#[derive(Clone, Copy, Debug, PartialEq, Eq, Structural)]
pub enum DnsErrorKind {
    NotFound,
    Timeout,
    ServerFailure,
    Malformed,
}

/// What an HTTP source query can fail with.
#[derive(Clone, Copy, Debug, PartialEq, Eq, Structural)]
pub enum FetchFailure {
    /// Connection-level failure: refused, reset, or the API host itself
    /// did not resolve.
    Transport,
    /// The server answered with a non-2xx status.
    BadStatus(u16),
    /// The body arrived but was not the JSON shape the source promises.
    MalformedBody,
}

/// Only transport-level failures may succeed on retry.
pub open spec fn spec_transient(f: FetchFailure) -> bool {
    f is Transport
}

/// Executable transience test, agreeing with [`spec_transient`].
pub fn is_transient(f: &FetchFailure) -> (r: bool)
    ensures
        r == spec_transient(*f),
{
    match f {
        FetchFailure::Transport => true,
        _ => false,
    }
}

/// A gateway-level status: the service is temporarily unavailable, as
/// opposed to a generic failure.
pub open spec fn spec_service_unavailable(f: FetchFailure) -> bool {
    f == FetchFailure::BadStatus(502u16) || f == FetchFailure::BadStatus(503u16) || f
        == FetchFailure::BadStatus(504u16)
}

/// Executable unavailability test, agreeing with
/// [`spec_service_unavailable`].
pub fn is_service_unavailable(f: &FetchFailure) -> (r: bool)
    ensures
        r == spec_service_unavailable(*f),
{
    match f {
        FetchFailure::BadStatus(code) => *code == 502 || *code == 503 || *code == 504,
        _ => false,
    }
}

/// How one HTTP status steers a source: proceed on 2xx, degrade on an
/// authentication refusal, fail otherwise.
#[derive(Clone, Copy, Debug, PartialEq, Eq, Structural)]
pub enum StatusClass {
    Success,
    AuthRefused,
    Failure,
}

/// The class of one status code.
pub open spec fn spec_status_class(code: u16) -> StatusClass {
    if 200 <= code < 300 {
        StatusClass::Success
    } else if code == 401 || code == 403 {
        StatusClass::AuthRefused
    } else {
        StatusClass::Failure
    }
}

/// Executable status classification, agreeing with
/// [`spec_status_class`].
pub fn classify_status(code: u16) -> (r: StatusClass)
    ensures
        r == spec_status_class(code),
{
    if 200 <= code && code < 300 {
        StatusClass::Success
    } else if code == 401 || code == 403 {
        StatusClass::AuthRefused
    } else {
        StatusClass::Failure
    }
}

} // verus!
