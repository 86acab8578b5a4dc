//! Why a tool request could not be carried out.
use vstd::prelude::*;

verus! {

/// The ways in which the library refuses a request or a response.
#[derive(Debug)]
pub enum ProxyError {
    /// A fetch gave both `body` and `body_base64`.
    ConflictingBodies,
    /// The method is not an HTTP method token; it carries the method given.
    InvalidMethod(String),
    /// `body_base64` is not valid padded standard base64.
    InvalidBodyBase64(base64::DecodeError),
    /// The response body is not valid JSON.
    ResponseNotJson(serde_json::Error),
}

} // verus!
