//! How each tool turns its request into a fetch, and the fetch's outcome
//! into its response.
use vstd::prelude::*;
use vstd::utf8::{decode_utf8, valid_utf8};

use crate::codec::{
    base64_encodable_len, base64_encode, base64_encoding, json_parsed, json_serialization,
    json_text_parses, json_to_string, parse_json, utf8_to_string,
};
use crate::error::ProxyError;
use crate::headers::Headers;
use crate::http_client::{utf8_bytes, FetchOutcome};
use crate::types::{
    BinaryResponse, DownloadBinaryRequest, FetchRequest, FetchResponse, GetJsonRequest,
    JsonResponse, PostJsonRequest,
};

verus! {

/// The header map `headers` with `name` set to `value` unless it is set.
pub open spec fn with_default(
    headers: Map<Seq<char>, Seq<char>>,
    name: Seq<char>,
    value: Seq<char>,
) -> Map<Seq<char>, Seq<char>> {
    if headers.contains_key(name) {
        headers
    } else {
        headers.insert(name, value)
    }
}

/// Setting a default header never overrides a value the caller gave, sets
/// the default where the caller gave none, leaves every other header as it
/// was, and setting it twice is the same as setting it once.
pub proof fn law_default_header(
    headers: Map<Seq<char>, Seq<char>>,
    name: Seq<char>,
    value: Seq<char>,
    other: Seq<char>,
)
    ensures
        with_default(headers, name, value).contains_key(name),
        headers.contains_key(name) ==> with_default(headers, name, value)[name] == headers[name],
        !headers.contains_key(name) ==> with_default(headers, name, value)[name] == value,
        other != name ==> (with_default(headers, name, value).contains_key(other)
            == headers.contains_key(other)),
        other != name && headers.contains_key(other) ==> with_default(headers, name, value)[other]
            == headers[other],
        with_default(with_default(headers, name, value), name, value) == with_default(
            headers,
            name,
            value,
        ),
{
}

/// The largest body that the JSON tools read: 10 MiB.
pub open spec fn json_body_limit() -> nat {
    10 * 1024 * 1024
}

/// Sets `name` to `value` unless the map already has a value for it.
fn set_default(headers: &mut Headers, name: &str, value: &str)
    ensures
        final(headers)@ == with_default(old(headers)@, name@, value@),
{
    if !headers.contains_key(name) {
        headers.insert(name.to_owned(), value.to_owned());
    }
}

/// The headers with `accept: application/json` added unless an `accept`
/// header is already given.
pub fn with_default_accept_json(headers: Headers) -> (res: Headers)
    ensures
        res@ == with_default(headers@, "accept"@, "application/json"@),
{
    let mut headers = headers;
    set_default(&mut headers, "accept", "application/json");
    headers
}

/// The fetch that `get_json` makes: a GET that follows redirects, asks for
/// JSON unless told otherwise, and reads at most 10 MiB.
pub fn get_json_fetch_request(req: GetJsonRequest) -> (res: FetchRequest)
    ensures
        res.method@ == "GET"@,
        res.url@ == req.url@,
        res.headers@ == with_default(req.headers@, "accept"@, "application/json"@),
        res.body is None,
        res.body_base64 is None,
        res.timeout_ms == req.timeout_ms,
        res.follow_redirects,
        res.max_response_bytes == json_body_limit(),
        res.max_response_bytes == 10 * 1024 * 1024,
{
    FetchRequest {
        method: "GET".to_owned(),
        url: req.url,
        headers: with_default_accept_json(req.headers),
        body: None,
        body_base64: None,
        timeout_ms: req.timeout_ms,
        follow_redirects: true,
        max_response_bytes: 10 * 1024 * 1024,
    }
}

/// The fetch that `post_json` makes: a POST of the JSON text of the value,
/// with `content-type` and `accept` set to `application/json` unless the
/// caller set them, following redirects and reading at most 10 MiB.
pub fn post_json_fetch_request(req: PostJsonRequest) -> (res: FetchRequest)
    ensures
        res.method@ == "POST"@,
        res.url@ == req.url@,
        res.headers@ == with_default(
            with_default(req.headers@, "content-type"@, "application/json"@),
            "accept"@,
            "application/json"@,
        ),
        res.body is Some,
        res.body->Some_0@ == json_serialization(req.json),
        res.body_base64 is None,
        res.timeout_ms == req.timeout_ms,
        res.follow_redirects,
        res.max_response_bytes == json_body_limit(),
        res.max_response_bytes == 10 * 1024 * 1024,
{
    let mut headers = req.headers;
    set_default(&mut headers, "content-type", "application/json");
    set_default(&mut headers, "accept", "application/json");
    let body = match json_to_string(&req.json) {
        Ok(text) => text,
        Err(_) => {
            assert(false);
            String::new()
        },
    };
    FetchRequest {
        method: "POST".to_owned(),
        url: req.url,
        headers,
        body: Some(body),
        body_base64: None,
        timeout_ms: req.timeout_ms,
        follow_redirects: true,
        max_response_bytes: 10 * 1024 * 1024,
    }
}

/// The fetch that `download_binary` makes: a GET that follows redirects,
/// with the caller's headers and limit.
pub fn download_fetch_request(req: DownloadBinaryRequest) -> (res: FetchRequest)
    ensures
        res.method@ == "GET"@,
        res.url@ == req.url@,
        res.headers@ == req.headers@,
        res.body is None,
        res.body_base64 is None,
        res.timeout_ms == req.timeout_ms,
        res.follow_redirects,
        res.max_response_bytes == req.max_response_bytes,
{
    FetchRequest {
        method: "GET".to_owned(),
        url: req.url,
        headers: req.headers,
        body: None,
        body_base64: None,
        timeout_ms: req.timeout_ms,
        follow_redirects: true,
        max_response_bytes: req.max_response_bytes,
    }
}

/// The response of `fetch`: the body as text when it is valid UTF-8, and
/// otherwise as base64; exactly one of the two is given.
pub fn outcome_to_fetch_response(outcome: FetchOutcome) -> (res: FetchResponse)
    requires
        valid_utf8(outcome.body@) || base64_encodable_len(outcome.body@.len()),
    ensures
        res.status == outcome.status,
        res.final_url == outcome.final_url,
        res.headers@ == outcome.headers@,
        res.truncated == outcome.truncated,
        valid_utf8(outcome.body@) ==> {
            &&& res.body matches Some(text)
            &&& text@ == decode_utf8(outcome.body@)
            &&& res.body_base64 is None
        },
        !valid_utf8(outcome.body@) ==> {
            &&& res.body is None
            &&& res.body_base64 matches Some(b64)
            &&& b64@ == base64_encoding(outcome.body@)
        },
        res.body matches Some(text) ==> utf8_bytes(text@) == outcome.body@,
{
    let FetchOutcome { status, final_url, headers, body, truncated } = outcome;
    let ghost bytes = body@;
    match utf8_to_string(body) {
        Ok(text) => {
            proof {
                vstd::utf8::decode_utf8_encode_utf8(bytes);
            }
            FetchResponse {
                status,
                final_url,
                headers,
                body: Some(text),
                body_base64: None,
                truncated,
            }
        },
        Err(bytes) => {
            let b64 = base64_encode(bytes.as_slice());
            FetchResponse {
                status,
                final_url,
                headers,
                body: None,
                body_base64: Some(b64),
                truncated,
            }
        },
    }
}

/// The response of the JSON tools: the body parsed as JSON, or an error
/// when it is not JSON.
pub fn outcome_to_json_response(outcome: FetchOutcome) -> (res: Result<JsonResponse, ProxyError>)
    ensures
        res is Ok <==> json_text_parses(outcome.body@),
        match res {
            Ok(r) => {
                &&& r.status == outcome.status
                &&& r.final_url == outcome.final_url
                &&& r.headers@ == outcome.headers@
                &&& r.json == json_parsed(outcome.body@)
            },
            Err(e) => e is ResponseNotJson,
        },
{
    let FetchOutcome { status, final_url, headers, body, truncated } = outcome;
    match parse_json(body.as_slice()) {
        Ok(json) => Ok(JsonResponse { status, final_url, headers, json }),
        Err(e) => Err(ProxyError::ResponseNotJson(e)),
    }
}

/// The response of `download_binary`: the body as base64, with its length.
pub fn outcome_to_binary_response(outcome: FetchOutcome) -> (res: BinaryResponse)
    requires
        base64_encodable_len(outcome.body@.len()),
    ensures
        res.status == outcome.status,
        res.final_url == outcome.final_url,
        res.headers@ == outcome.headers@,
        res.body_base64@ == base64_encoding(outcome.body@),
        res.byte_count == outcome.body@.len(),
        res.truncated == outcome.truncated,
{
    let byte_count = outcome.body.len();
    let body_base64 = base64_encode(outcome.body.as_slice());
    BinaryResponse {
        status: outcome.status,
        final_url: outcome.final_url,
        headers: outcome.headers,
        body_base64,
        byte_count,
        truncated: outcome.truncated,
    }
}

} // verus!
