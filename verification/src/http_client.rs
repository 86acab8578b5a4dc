//! The decisions of an HTTP fetch: which requests may be sent and in what
//! form, and how the response headers are read.
use vstd::prelude::*;
use vstd::utf8::{decode_utf8, valid_utf8};

use crate::codec::{
    base64_decode, base64_encoding, http_method, is_base64_encoding, is_method_token, law_base64_decodes_back,
    parse_method,
    utf8_to_string,
};
use crate::error::ProxyError;
use crate::headers::Headers;
use crate::types::FetchRequest;

verus! {

/// The most redirects a fetch follows when it follows redirects.
pub const REDIRECT_LIMIT: usize = 10;

/// The `User-Agent` header value that the proxy sends.
pub fn user_agent() -> (res: String)
    ensures
        res@ == "mcp-network-proxy/0.1.0"@,
{
    "mcp-network-proxy/0.1.0".to_owned()
}

/// Outcome of a fetch, kept transport-agnostic so callers can shape it into
/// whatever response type they need.
#[derive(Debug)]
pub struct FetchOutcome {
    pub status: u16,
    pub final_url: String,
    pub headers: Headers,
    pub body: Vec<u8>,
    pub truncated: bool,
}

/// The body that a prepared request sends.
#[derive(Debug)]
pub enum RequestBody {
    /// No body.
    Empty,
    /// The given text, as UTF-8.
    Text(String),
    /// The given bytes.
    Bytes(Vec<u8>),
}

/// A fetch that passed every check made before anything is sent.
#[derive(Debug)]
pub struct PreparedFetch {
    /// The parsed HTTP method.
    pub method: reqwest::Method,
    pub url: String,
    pub headers: Headers,
    pub body: RequestBody,
    pub timeout_ms: u64,
    pub follow_redirects: bool,
    pub max_response_bytes: usize,
}

/// The bytes of a text, as UTF-8.
pub open spec fn utf8_bytes(text: Seq<char>) -> Seq<u8> {
    vstd::utf8::encode_utf8(text)
}

/// Whether a fetch request gives both kinds of body.
pub open spec fn has_both_bodies(req: FetchRequest) -> bool {
    req.body is Some && req.body_base64 is Some
}

/// Whether the request's `body_base64`, if it has one, is valid base64.
pub open spec fn base64_body_decodes(req: FetchRequest) -> bool {
    req.body_base64 matches Some(text) ==> is_base64_encoding(text@)
}

/// Whether a fetch request can be sent: at most one body, a method token,
/// and a base64 body that decodes.
pub open spec fn fetch_request_valid(req: FetchRequest) -> bool {
    &&& !has_both_bodies(req)
    &&& is_method_token(utf8_bytes(req.method@))
    &&& base64_body_decodes(req)
}

/// Whether `body` is what the request asks to send.
pub open spec fn body_as_requested(req: FetchRequest, body: RequestBody) -> bool {
    match body {
        RequestBody::Empty => req.body is None && req.body_base64 is None,
        RequestBody::Text(text) => req.body matches Some(given) && given@ == text@,
        RequestBody::Bytes(bytes) => {
            &&& req.body is None
            &&& req.body_base64 matches Some(given)
            &&& base64_encoding(bytes@) == given@
        },
    }
}

/// Whether the request's `body_base64` is the base64 encoding of `data`.
pub open spec fn base64_body_encodes(req: FetchRequest, data: Seq<u8>) -> bool {
    req.body_base64 matches Some(text) && text@ == base64_encoding(data)
}

/// Whether a prepared fetch sends exactly the bytes `data` as its body.
pub open spec fn sends_bytes(res: Result<PreparedFetch, ProxyError>, data: Seq<u8>) -> bool {
    res matches Ok(p) && p.body matches RequestBody::Bytes(bytes) && bytes@ == data
}

/// Only a request that gives both a text body and a base64 body has
/// conflicting bodies; its method and headers play no part. A request is
/// valid exactly when it has no such conflict, its method is a token, and
/// any base64 body is the encoding of some bytes.
pub proof fn law_conflicting_bodies(req: FetchRequest)
    ensures
        has_both_bodies(req) <==> (req.body is Some && req.body_base64 is Some),
        fetch_request_valid(req) <==> {
            &&& !(req.body is Some && req.body_base64 is Some)
            &&& is_method_token(utf8_bytes(req.method@))
            &&& (req.body_base64 is Some ==> is_base64_encoding(req.body_base64->Some_0@))
        },
{
}

/// Which body a request sends is fixed by its two body fields alone,
/// whatever its method and headers: a text body is sent as that text, a
/// base64 body as the bytes it encodes, and a request with neither sends
/// no body.
pub proof fn law_body_sent(req: FetchRequest, body: RequestBody)
    ensures
        req.body is Some ==> (body_as_requested(req, body) <==> (body is Text && body->Text_0@
            == req.body->Some_0@)),
        req.body is None && req.body_base64 is None ==> (body_as_requested(req, body)
            <==> body is Empty),
        req.body is None && req.body_base64 is Some ==> (body_as_requested(req, body) <==> (
        body is Bytes && base64_encoding(body->Bytes_0@) == req.body_base64->Some_0@)),
{
}

/// Checks a fetch request and puts it in the form that is sent. The checks
/// run in this order: both bodies given, then the method, then the base64
/// body; the first that fails gives the error.
pub fn prepare_fetch(req: FetchRequest) -> (res: Result<PreparedFetch, ProxyError>)
    ensures
        res is Ok <==> fetch_request_valid(req),
        match res {
            Ok(p) => {
                &&& p.method == http_method(utf8_bytes(req.method@))
                &&& p.url@ == req.url@
                &&& p.headers@ == req.headers@
                &&& body_as_requested(req, p.body)
                &&& p.timeout_ms == req.timeout_ms
                &&& p.follow_redirects == req.follow_redirects
                &&& p.max_response_bytes == req.max_response_bytes
            },
            Err(ProxyError::ConflictingBodies) => has_both_bodies(req),
            Err(ProxyError::InvalidMethod(method)) => {
                &&& !has_both_bodies(req)
                &&& !is_method_token(utf8_bytes(req.method@))
                &&& method@ == req.method@
            },
            Err(ProxyError::InvalidBodyBase64(_)) => {
                &&& !has_both_bodies(req)
                &&& is_method_token(utf8_bytes(req.method@))
                &&& !base64_body_decodes(req)
            },
            Err(_) => false,
        },
        forall|data: Seq<u8>|
            !has_both_bodies(req) && is_method_token(utf8_bytes(req.method@))
                && #[trigger] base64_body_encodes(req, data) ==> sends_bytes(res, data),
        req.body_base64 is None && is_method_token(utf8_bytes(req.method@)) ==> res is Ok,
        res is Ok && req.body is Some ==> res->Ok_0.body is Text && res->Ok_0.body->Text_0@
            == req.body->Some_0@,
        res is Ok && req.body is None && req.body_base64 is None ==> res->Ok_0.body is Empty,
        res matches Err(ProxyError::ConflictingBodies) ==> req.body is Some && req.body_base64 is Some,
{
    if req.body.is_some() && req.body_base64.is_some() {
        return Err(ProxyError::ConflictingBodies);
    }
    let method = match parse_method(req.method.as_str().as_bytes()) {
        Some(m) => m,
        None => {
            return Err(ProxyError::InvalidMethod(req.method));
        },
    };
    let FetchRequest {
        method: _,
        url,
        headers,
        body,
        body_base64,
        timeout_ms,
        follow_redirects,
        max_response_bytes,
    } = req;
    let body = match body {
        Some(text) => RequestBody::Text(text),
        None => match body_base64 {
            Some(b64) => match base64_decode(b64.as_str()) {
                Ok(bytes) => {
                    proof {
                        assert(is_base64_encoding(b64@));
                        assert forall|data: Seq<u8>| #[trigger]
                            base64_encoding(data) == b64@ implies bytes@ == data by {
                            law_base64_decodes_back(bytes@, data);
                        }
                    }
                    RequestBody::Bytes(bytes)
                },
                Err(e) => {
                    return Err(ProxyError::InvalidBodyBase64(e));
                },
            },
            None => RequestBody::Empty,
        },
    };
    Ok(PreparedFetch { method, url, headers, body, timeout_ms, follow_redirects, max_response_bytes })
}

/// A byte that may stand in a header value read as text: visible ASCII or
/// a tab.
pub open spec fn is_visible_ascii(b: u8) -> bool {
    (32 <= b < 127) || b == 9
}

/// A header value that can be read as text.
pub open spec fn is_visible_text(value: Seq<u8>) -> bool {
    forall|i: int| 0 <= i < value.len() ==> #[trigger] is_visible_ascii(value[i])
}

/// The map of response headers that can be read as text, when each
/// (name, value) entry is stored in order, so that a later value of a name
/// replaces an earlier one.
pub open spec fn readable_headers(raw: Seq<(String, Vec<u8>)>) -> Map<Seq<char>, Seq<char>>
    decreases raw.len(),
{
    if raw.len() == 0 {
        Map::empty()
    } else {
        let before = readable_headers(raw.drop_last());
        let (name, value) = raw.last();
        if is_visible_text(value@) {
            before.insert(name@, decode_utf8(value@))
        } else {
            before
        }
    }
}

/// Whether entry `i` of the raw headers is named `name` and readable as text.
pub open spec fn readable_entry(raw: Seq<(String, Vec<u8>)>, i: int, name: Seq<char>) -> bool {
    0 <= i < raw.len() && raw[i].0@ == name && is_visible_text(raw[i].1@)
}

/// A header value is readable as text exactly when each of its bytes is a
/// tab (0x09) or lies in 0x20..=0x7E; so a space is readable, and control
/// bytes, DEL and bytes above 0x7F are not.
pub proof fn law_visible_text_bytes(value: Seq<u8>)
    ensures
        is_visible_text(value) <==> forall|i: int|
            0 <= i < value.len() ==> (#[trigger] value[i] == 9 || (32 <= value[i] && value[i]
                <= 126)),
        is_visible_ascii(32),
        is_visible_ascii(9),
        is_visible_ascii(126),
        !is_visible_ascii(31),
        !is_visible_ascii(127),
        !is_visible_ascii(128),
{
    if is_visible_text(value) {
        assert forall|i: int| 0 <= i < value.len() implies (#[trigger] value[i] == 9 || (32
            <= value[i] && value[i] <= 126)) by {
            assert(is_visible_ascii(value[i]));
        }
    }
}

/// The last entry of a name whose bytes are all tabs or in 0x20..=0x7E
/// gives that name's value in the map, as the text of those bytes.
pub proof fn law_header_value_kept(raw: Seq<(String, Vec<u8>)>, i: int)
    requires
        0 <= i < raw.len(),
        forall|k: int|
            0 <= k < raw[i].1@.len() ==> (#[trigger] raw[i].1@[k] == 9 || (32 <= raw[i].1@[k]
                && raw[i].1@[k] <= 126)),
        forall|j: int|
            i < j < raw.len() && #[trigger] raw[j].0@ == raw[i].0@ ==> !is_visible_text(raw[j].1@),
    ensures
        readable_headers(raw).contains_key(raw[i].0@),
        readable_headers(raw)[raw[i].0@] == decode_utf8(raw[i].1@),
{
    law_visible_text_bytes(raw[i].1@);
    let name = raw[i].0@;
    assert(readable_entry(raw, i, name));
    assert forall|j: int| i < j < raw.len() implies !readable_entry(raw, j, name) by {
        if raw[j].0@ == name {
            assert(!is_visible_text(raw[j].1@));
        }
    }
    law_readable_headers(raw, name);
}

/// Which names the header map holds, and which value: a name is present
/// exactly when some entry of that name is readable as text, and its value
/// is the text of the last such entry; unreadable values are dropped.
pub proof fn law_readable_headers(raw: Seq<(String, Vec<u8>)>, name: Seq<char>)
    ensures
        readable_headers(raw).contains_key(name) <==> exists|i: int|
            #[trigger] readable_entry(raw, i, name),
        forall|i: int|
            #[trigger] readable_entry(raw, i, name) && (forall|j: int|
                i < j < raw.len() ==> !readable_entry(raw, j, name)) ==> readable_headers(raw)[name]
                == decode_utf8(raw[i].1@),
    decreases raw.len(),
{
    if raw.len() > 0 {
        let before = raw.drop_last();
        let last: int = raw.len() - 1;
        law_readable_headers(before, name);
        assert(raw.last() == raw[last]);
        assert forall|i: int| 0 <= i < before.len() implies #[trigger] readable_entry(before, i, name)
            == readable_entry(raw, i, name) by {
            assert(before[i] == raw[i]);
        }
        if readable_entry(raw, last, name) {
            assert forall|i: int|
                #[trigger] readable_entry(raw, i, name) && (forall|j: int|
                    i < j < raw.len() ==> !readable_entry(raw, j, name)) implies readable_headers(
                raw,
            )[name] == decode_utf8(raw[i].1@) by {
                if i < last {
                    assert(!readable_entry(raw, last, name));
                }
            }
        } else {
            assert(readable_headers(raw).contains_key(name) == readable_headers(before).contains_key(
                name,
            ));
            if readable_headers(raw).contains_key(name) {
                assert(readable_headers(raw)[name] == readable_headers(before)[name]);
            }
            if exists|i: int| #[trigger] readable_entry(raw, i, name) {
                let i = choose|i: int| #[trigger] readable_entry(raw, i, name);
                assert(i != last);
                assert(readable_entry(before, i, name));
            }
            assert forall|i: int|
                #[trigger] readable_entry(raw, i, name) && (forall|j: int|
                    i < j < raw.len() ==> !readable_entry(raw, j, name)) implies readable_headers(
                raw,
            )[name] == decode_utf8(raw[i].1@) by {
                assert(i != last);
                assert(readable_entry(before, i, name));
                assert forall|j: int| i < j < before.len() implies !readable_entry(before, j, name) by {
                    assert(!readable_entry(raw, j, name));
                }
            }
        }
    }
}

/// Visible ASCII text is valid UTF-8.
proof fn lemma_visible_text_is_utf8(value: Seq<u8>)
    requires
        is_visible_text(value),
    ensures
        valid_utf8(value),
    decreases value.len(),
{
    if value.len() > 0 {
        let b = value[0];
        assert(is_visible_ascii(b));
        assert((b & 0x7F) as u32 == b as u32) by (bit_vector)
            requires
                b < 128,
        ;
        let rest = value.subrange(1, value.len() as int);
        assert forall|i: int| 0 <= i < rest.len() implies #[trigger] is_visible_ascii(rest[i]) by {
            assert(rest[i] == value[i + 1]);
        }
        lemma_visible_text_is_utf8(rest);
    }
}

/// Whether a header value is visible ASCII, as `HeaderValue::to_str` of the
/// `http` crate decides it.
fn visible_text(value: &Vec<u8>) -> (res: bool)
    ensures
        res == is_visible_text(value@),
{
    let mut i: usize = 0;
    while i < value.len()
        invariant
            i <= value.len(),
            forall|j: int| 0 <= j < i ==> #[trigger] is_visible_ascii(value@[j]),
        decreases value.len() - i,
    {
        let b = value[i];
        if !((32 <= b && b < 127) || b == 9) {
            assert(!is_visible_ascii(value@[i as int]));
            return false;
        }
        i = i + 1;
    }
    true
}

/// Reads the response headers, given as (name, raw value) pairs in the
/// order they came: values that are not visible ASCII are skipped, and a
/// later value of a name replaces an earlier one.
pub fn headers_to_map(raw: &Vec<(String, Vec<u8>)>) -> (res: Headers)
    ensures
        res@ == readable_headers(raw@),
{
    let mut out = Headers::new();
    let mut i: usize = 0;
    while i < raw.len()
        invariant
            i <= raw.len(),
            out@ == readable_headers(raw@.take(i as int)),
        decreases raw.len() - i,
    {
        proof {
            assert(raw@.take(i + 1).drop_last() =~= raw@.take(i as int));
            assert(raw@.take(i + 1).last() == raw@[i as int]);
        }
        if visible_text(&raw[i].1) {
            let value = raw[i].1.clone();
            proof {
                assert(value@ =~= raw@[i as int].1@);
                lemma_visible_text_is_utf8(value@);
            }
            match utf8_to_string(value) {
                Ok(text) => {
                    let name = raw[i].0.clone();
                    out.insert(name, text);
                },
                Err(_) => {
                    assert(false);
                },
            }
        }
        i = i + 1;
    }
    assert(raw@.take(raw.len() as int) =~= raw@);
    out
}

} // verus!
