//! Orchestration core for a content-generation assistant.
//!
//! The library holds the logic of the system: a project registry over a
//! settings document, prompt rendering for the text and image providers,
//! interpretation of provider responses, and the resilient media-upload
//! procedure with bounded retry under rate limiting.  Network and disk I/O
//! stay outside; every function here is a total, verified computation on
//! plain values.
use vstd::prelude::*;

pub mod cms;
pub mod html;
pub mod imagegen;
pub mod registry;
pub mod settings;
pub mod strutil;
pub mod textgen;
pub mod upload;

verus! {

/// How a call to a remote provider failed, across the three clients.
#[derive(Debug)]
pub enum ProviderError {
    /// A required base URL or credential is blank; nothing was sent.
    NotConfigured,
    /// The provider rejected or never received usable credentials.
    AuthError,
    /// A non-success response; its status and body kept verbatim.
    UpstreamError { status: u16, body: String },
    /// A success response whose body did not have the expected shape.
    ParseError,
    /// A success response that carries no result.
    EmptyResult,
}

/// HTTP statuses that count as success.
pub open spec fn is_success_status(status: int) -> bool {
    200 <= status < 300
}

/// Sorts a non-success status into the error taxonomy: a credential
/// rejection or an upstream failure with the body kept verbatim.
pub open spec fn classified_failure(status: int, body: Seq<char>, e: ProviderError) -> bool {
    if status == 401 || status == 403 {
        e is AuthError
    } else {
        e matches ProviderError::UpstreamError { status: st, body: b } && st == status && b@
            == body
    }
}

/// Builds the error for a non-success provider response.
pub fn classify_failure(status: u16, body: &str) -> (e: ProviderError)
    requires
        !is_success_status(status as int),
    ensures
        classified_failure(status as int, body@, e),
{
    if status == 401 || status == 403 {
        ProviderError::AuthError
    } else {
        ProviderError::UpstreamError { status, body: body.to_owned() }
    }
}

} // verus!
