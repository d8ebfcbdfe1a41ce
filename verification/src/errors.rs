use vstd::prelude::*;

verus! {

/// Declares reqwest's opaque error type, so that a transport failure can be
/// carried inside the library's own error kind.
#[verifier::external_type_specification]
#[verifier::external_body]
pub struct ExReqwestError(reqwest::Error);

/// The closed set of failures a request can surface.  No classification
/// path produces `Timeout` or `RateLimit`; they are kept so that a future
/// transport policy can use them without widening the set.
#[derive(Debug)]
pub enum RequestError {
    /// A response arrived whose status code the policy refuses; carries the
    /// literal code.
    BadRequest(u16),
    /// The status code was 404.
    NotFound,
    /// The transport failed before any response was obtained; carries the
    /// underlying cause.
    FailedRequest(reqwest::Error),
    /// Reserved for a request that exceeds a time budget.
    Timeout,
    /// Reserved for rate-limiting signals.
    RateLimit,
    /// A response with an acceptable status arrived, but its body could not
    /// be decoded into the requested representation.
    SerializationError,
}

} // verus!
