//! The error type shared by the fallible operations of this crate.

use vstd::prelude::*;

verus! {

/// The classes of failure the client reports to its callers.
#[derive(Debug, Clone, Copy, PartialEq, Eq, Structural)]
pub enum FaithErrorKind {
    Aborted,
    BodyStream,
    IntegrityMismatch,
    InvalidHeader,
    InvalidIntegrity,
    InvalidMethod,
    InvalidUrl,
    JsonParse,
    Network,
    PemParse,
    Redirect,
    ResponseAlreadyDisturbed,
    ResponseBodyNotAvailable,
    RuntimeThread,
    Timeout,
    Utf8Parse,
}

/// The message reported for an error of the given kind when the error
/// carries no message of its own.
pub open spec fn spec_default_message(kind: FaithErrorKind) -> Seq<char> {
    match kind {
        FaithErrorKind::Aborted => "the request was aborted"@,
        FaithErrorKind::BodyStream => "internal response body stream copy error"@,
        FaithErrorKind::IntegrityMismatch => "response body does not match the integrity value"@,
        FaithErrorKind::InvalidHeader => "invalid header name or value"@,
        FaithErrorKind::InvalidIntegrity => "invalid integrity value"@,
        FaithErrorKind::InvalidMethod => "invalid HTTP method"@,
        FaithErrorKind::InvalidUrl => "invalid URL"@,
        FaithErrorKind::JsonParse => "invalid json in response body"@,
        FaithErrorKind::Network => "network error"@,
        FaithErrorKind::PemParse => "invalid PEM identity"@,
        FaithErrorKind::Redirect => "redirect not allowed"@,
        FaithErrorKind::ResponseAlreadyDisturbed => "response body already disturbed"@,
        FaithErrorKind::ResponseBodyNotAvailable => "response body not available"@,
        FaithErrorKind::RuntimeThread => "internal tokio runtime thread error"@,
        FaithErrorKind::Timeout => "timed out"@,
        FaithErrorKind::Utf8Parse => "invalid utf-8 in response body"@,
    }
}

impl FaithErrorKind {
    /// The message shown for this kind when an error carries none.
    pub fn default_message(self) -> (r: &'static str)
        ensures
            r@ == spec_default_message(self),
    {
        match self {
            Self::Aborted => "the request was aborted",
            Self::BodyStream => "internal response body stream copy error",
            Self::IntegrityMismatch => "response body does not match the integrity value",
            Self::InvalidHeader => "invalid header name or value",
            Self::InvalidIntegrity => "invalid integrity value",
            Self::InvalidMethod => "invalid HTTP method",
            Self::InvalidUrl => "invalid URL",
            Self::JsonParse => "invalid json in response body",
            Self::Network => "network error",
            Self::PemParse => "invalid PEM identity",
            Self::Redirect => "redirect not allowed",
            Self::ResponseAlreadyDisturbed => "response body already disturbed",
            Self::ResponseBodyNotAvailable => "response body not available",
            Self::RuntimeThread => "internal tokio runtime thread error",
            Self::Timeout => "timed out",
            Self::Utf8Parse => "invalid utf-8 in response body",
        }
    }
}

/// An error: a kind, and optionally a message with more detail.
#[derive(Debug, Clone)]
pub struct FaithError {
    pub kind: FaithErrorKind,
    pub message: Option<String>,
}

impl FaithError {
    /// Builds an error of the given kind carrying the given message.
    pub fn new(kind: FaithErrorKind, message: Option<String>) -> (r: FaithError)
        ensures
            r.kind == kind,
            r.message == message,
    {
        FaithError { kind, message }
    }
}

impl From<FaithErrorKind> for FaithError {
    fn from(kind: FaithErrorKind) -> (r: Self) {
        FaithError { kind, message: None }
    }
}

impl vstd::std_specs::convert::FromSpecImpl<FaithErrorKind> for FaithError {
    open spec fn obeys_from_spec() -> bool {
        true
    }

    open spec fn from_spec(kind: FaithErrorKind) -> FaithError {
        FaithError { kind, message: None }
    }
}

} // verus!
