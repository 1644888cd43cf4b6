//! Error kinds of the host runtime.
//!
//! Guest-facing failures surface as [`AbiError`] traps; cluster-facing
//! failures surface as [`Error`], whose `Api` variant carries the structured
//! [`ErrorResponse`] that the API server returns (a `410 Gone` in that
//! envelope is the watch-desync signal).

use vstd::prelude::*;

verus! {

/// A trap returned to a guest from an ABI host call. The host logs it and
/// keeps serving the other modules.
#[derive(Clone, Copy, Debug, PartialEq, Eq, Structural)]
pub enum AbiError {
    /// The guest passed a pointer range that leaves its linear memory.
    BadPointer,
    /// The guest exports no `allocate` function.
    AllocatorMissing,
    /// The guest's `allocate` returned offset zero (guest out of memory).
    AllocatorReturnedZero,
    /// The bytes at the guest's pointer are not a well-formed ABI payload.
    DecodeError,
    /// The composed request target is not an acceptable URI.
    InvalidUri,
    /// The per-controller request-id space is exhausted.
    IdExhausted,
}

/// An error response envelope from the Kubernetes API server.
#[derive(Clone, Debug)]
pub struct ErrorResponse {
    /// The status
    pub status: String,
    /// A message about the error
    pub message: String,
    /// The reason for the error
    pub reason: String,
    /// The error code
    pub code: u16,
}

/// Errors of the cluster-facing side of the host.
#[derive(Clone, Debug)]
pub enum Error {
    /// The API server answered with an error envelope.
    Api(ErrorResponse),
    /// An HTTP-level failure, described in words.
    HttpError(String),
    /// A URL could not be put together or parsed.
    InternalUrlError(String),
    /// A response could not be deserialized.
    SerdeError(String),
    /// Error building a request
    RequestBuild,
    /// Error sending a request
    RequestSend,
    /// Error parsing a response
    RequestParse,
    /// An invalid method was used
    InvalidMethod(String),
    /// A request validation failed
    RequestValidation(String),
}

} // verus!
