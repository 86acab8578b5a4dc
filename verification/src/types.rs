//! The requests that the proxy's tools take and the responses they give.
use vstd::prelude::*;

use crate::codec::json_clone;
use crate::headers::Headers;

verus! {

/// The method a fetch uses when none is given.
pub fn default_method() -> (res: String)
    ensures
        res@ == "GET"@,
{
    "GET".to_owned()
}

/// The per-request timeout, in milliseconds, when none is given.
pub fn default_timeout_ms() -> (res: u64)
    ensures
        res == 30_000,
{
    30_000
}

/// The largest response body kept when no limit is given: 10 MiB.
pub fn default_max_bytes() -> (res: usize)
    ensures
        res == 10 * 1024 * 1024,
{
    10 * 1024 * 1024
}

/// Redirects are followed unless the request says otherwise.
pub fn default_true() -> (res: bool)
    ensures
        res,
{
    true
}

/// Request to perform an arbitrary HTTP fetch.
#[derive(Debug, Clone)]
pub struct FetchRequest {
    /// HTTP method, e.g. "GET", "POST".
    pub method: String,
    /// Absolute URL to fetch.
    pub url: String,
    /// Request headers.
    pub headers: Headers,
    /// Request body as UTF-8 text. Mutually exclusive with `body_base64`.
    pub body: Option<String>,
    /// Base64-encoded request body. Mutually exclusive with `body`.
    pub body_base64: Option<String>,
    /// Per-request timeout in milliseconds.
    pub timeout_ms: u64,
    /// Whether to follow redirects.
    pub follow_redirects: bool,
    /// Maximum response body size in bytes.
    pub max_response_bytes: usize,
}

/// Result of a fetch.
#[derive(Debug, Clone)]
pub struct FetchResponse {
    pub status: u16,
    pub final_url: String,
    pub headers: Headers,
    /// UTF-8 body if the response was decodable as UTF-8 text.
    pub body: Option<String>,
    /// Base64 body, set when the response was not valid UTF-8.
    pub body_base64: Option<String>,
    /// True if the response was truncated at `max_response_bytes`.
    pub truncated: bool,
}

/// Request to GET a URL and parse the response as JSON.
#[derive(Debug, Clone)]
pub struct GetJsonRequest {
    /// Absolute URL to GET.
    pub url: String,
    /// Request headers.
    pub headers: Headers,
    /// Per-request timeout in milliseconds.
    pub timeout_ms: u64,
}

/// A response whose body was parsed as JSON.
#[derive(Debug)]
pub struct JsonResponse {
    pub status: u16,
    pub final_url: String,
    pub headers: Headers,
    pub json: serde_json::Value,
}

/// Request to POST a JSON value and parse the response as JSON.
#[derive(Debug)]
pub struct PostJsonRequest {
    /// Absolute URL to POST to.
    pub url: String,
    /// JSON value to send as the request body.
    pub json: serde_json::Value,
    /// Request headers. `content-type: application/json` is set unless given.
    pub headers: Headers,
    /// Per-request timeout in milliseconds.
    pub timeout_ms: u64,
}

impl Clone for JsonResponse {
    /// A copy with the same status, URL, headers and JSON value.
    fn clone(&self) -> (res: Self)
        ensures
            res.status == self.status,
            res.final_url == self.final_url,
            res.headers@ == self.headers@,
            res.json == self.json,
    {
        JsonResponse {
            status: self.status,
            final_url: self.final_url.clone(),
            headers: self.headers.clone(),
            json: json_clone(&self.json),
        }
    }
}

impl Clone for PostJsonRequest {
    /// A copy with the same URL, JSON value, headers and timeout.
    fn clone(&self) -> (res: Self)
        ensures
            res.url == self.url,
            res.json == self.json,
            res.headers@ == self.headers@,
            res.timeout_ms == self.timeout_ms,
    {
        PostJsonRequest {
            url: self.url.clone(),
            json: json_clone(&self.json),
            headers: self.headers.clone(),
            timeout_ms: self.timeout_ms,
        }
    }
}

/// Request to download a URL's body as bytes.
#[derive(Debug, Clone)]
pub struct DownloadBinaryRequest {
    /// Absolute URL to download.
    pub url: String,
    /// Request headers.
    pub headers: Headers,
    /// Per-request timeout in milliseconds.
    pub timeout_ms: u64,
    /// Maximum response body size in bytes.
    pub max_response_bytes: usize,
}

/// A downloaded body, base64-encoded.
#[derive(Debug, Clone)]
pub struct BinaryResponse {
    pub status: u16,
    pub final_url: String,
    pub headers: Headers,
    /// Base64-encoded response body.
    pub body_base64: String,
    pub byte_count: usize,
    pub truncated: bool,
}

} // verus!
