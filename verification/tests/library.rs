use base64::Engine;
use mcp_network_proxy::body::{BodyCollector, CollectStep};
use mcp_network_proxy::codec::can_encode_base64;
use mcp_network_proxy::error::ProxyError;
use mcp_network_proxy::headers::Headers;
use mcp_network_proxy::http_client::{
    headers_to_map, prepare_fetch, user_agent, FetchOutcome, RequestBody, REDIRECT_LIMIT,
};
use mcp_network_proxy::proxy::{
    download_fetch_request, get_json_fetch_request, outcome_to_binary_response,
    outcome_to_fetch_response, outcome_to_json_response, post_json_fetch_request,
    with_default_accept_json,
};
use mcp_network_proxy::types::{
    default_max_bytes, default_method, default_timeout_ms, default_true, DownloadBinaryRequest,
    FetchRequest, GetJsonRequest, PostJsonRequest,
};

/// Feeds the chunks to a collector as a response stream would, stopping
/// when the collector says so.
fn collect(chunks: &[&[u8]], max: usize, status: u16, headers: Headers) -> FetchOutcome {
    let mut collector = BodyCollector::new(max);
    for chunk in chunks {
        let (next, step) = collector.accept(chunk);
        collector = next;
        if step == CollectStep::Stop {
            break;
        }
    }
    collector.finish(status, "http://127.0.0.1/test".to_string(), headers)
}

fn fetch_req(url: String) -> FetchRequest {
    FetchRequest {
        method: "GET".to_string(),
        url,
        headers: Headers::new(),
        body: None,
        body_base64: None,
        timeout_ms: 5_000,
        follow_redirects: true,
        max_response_bytes: 1024 * 1024,
    }
}

fn decode(text: &str) -> Vec<u8> {
    base64::engine::general_purpose::STANDARD
        .decode(text.as_bytes())
        .expect("base64 decode")
}

#[test]
fn fetch_get_returns_status_and_body() {
    let req = prepare_fetch(fetch_req("http://127.0.0.1/hello".to_string())).expect("fetch ok");
    assert_eq!(req.method, "GET");
    let outcome = collect(&[b"hi there"], req.max_response_bytes, 200, Headers::new());
    let resp = outcome_to_fetch_response(outcome);
    assert_eq!(resp.status, 200);
    assert_eq!(resp.body.as_deref(), Some("hi there"));
    assert_eq!(resp.body_base64, None);
    assert!(!resp.truncated);
}

#[test]
fn fetch_post_with_headers_and_body() {
    let mut headers = Headers::new();
    headers.insert("x-test".to_string(), "yes".to_string());
    let req = prepare_fetch(FetchRequest {
        method: "POST".to_string(),
        url: "http://127.0.0.1/echo".to_string(),
        headers,
        body: Some("payload".to_string()),
        body_base64: None,
        timeout_ms: 5_000,
        follow_redirects: true,
        max_response_bytes: 1024 * 1024,
    })
    .expect("fetch ok");
    assert_eq!(req.method, "POST");
    assert_eq!(req.headers.get("x-test").map(String::as_str), Some("yes"));
    assert!(matches!(&req.body, RequestBody::Text(t) if t == "payload"));
    let resp = outcome_to_fetch_response(collect(&[b"created"], req.max_response_bytes, 201, Headers::new()));
    assert_eq!(resp.status, 201);
    assert_eq!(resp.body.as_deref(), Some("created"));
}

#[test]
fn fetch_truncates_oversize_body() {
    let big = "x".repeat(8 * 1024);
    let chunks: Vec<&[u8]> = big.as_bytes().chunks(1000).collect();
    let resp = outcome_to_fetch_response(collect(&chunks, 1024, 200, Headers::new()));
    assert!(resp.truncated, "expected truncation");
    assert_eq!(resp.body.as_deref().map(|s| s.len()), Some(1024));
}

#[test]
fn fetch_no_follow_redirects_returns_3xx() {
    let mut req = fetch_req("http://127.0.0.1/r".to_string());
    req.follow_redirects = false;
    let prepared = prepare_fetch(req).expect("fetch ok");
    assert!(!prepared.follow_redirects);
    let raw = vec![(
        "location".to_string(),
        b"https://example.invalid/".to_vec(),
    )];
    let resp = outcome_to_fetch_response(collect(&[], prepared.max_response_bytes, 302, headers_to_map(&raw)));
    assert_eq!(resp.status, 302);
    assert_eq!(
        resp.headers.get("location").map(String::as_str),
        Some("https://example.invalid/")
    );
}

#[test]
fn fetch_returns_base64_for_non_utf8() {
    let bytes: Vec<u8> = vec![0xff, 0xfe, 0x00, 0x01, 0x80];
    let resp = outcome_to_fetch_response(collect(&[&bytes], 1024 * 1024, 200, Headers::new()));
    assert_eq!(resp.body, None);
    let decoded = decode(&resp.body_base64.expect("base64"));
    assert_eq!(decoded, bytes);
}

#[test]
fn get_json_parses_response() {
    let req = get_json_fetch_request(GetJsonRequest {
        url: "http://127.0.0.1/data".to_string(),
        headers: Headers::new(),
        timeout_ms: 5_000,
    });
    assert_eq!(req.method, "GET");
    assert_eq!(req.headers.get("accept").map(String::as_str), Some("application/json"));
    assert!(req.follow_redirects);
    assert_eq!(req.max_response_bytes, 10 * 1024 * 1024);
    let outcome = collect(
        &[br#"{"hello":"world","n":42}"#],
        req.max_response_bytes,
        200,
        Headers::new(),
    );
    let resp = outcome_to_json_response(outcome).expect("get_json ok");
    assert_eq!(resp.status, 200);
    assert_eq!(resp.json["hello"], "world");
    assert_eq!(resp.json["n"], 42);
}

#[test]
fn post_json_round_trip() {
    let value: serde_json::Value = serde_json::from_str(r#"{"k":"v"}"#).unwrap();
    let req = post_json_fetch_request(PostJsonRequest {
        url: "http://127.0.0.1/api".to_string(),
        json: value.clone(),
        headers: Headers::new(),
        timeout_ms: 5_000,
    });
    assert_eq!(req.method, "POST");
    assert_eq!(req.headers.get("content-type").map(String::as_str), Some("application/json"));
    let sent: serde_json::Value = serde_json::from_str(req.body.as_deref().unwrap()).unwrap();
    assert_eq!(sent, value);
    let resp = outcome_to_json_response(collect(&[br#"{"ok":true}"#], req.max_response_bytes, 200, Headers::new()))
        .expect("post_json ok");
    assert_eq!(resp.status, 200);
    assert_eq!(resp.json["ok"], true);
}

#[test]
fn download_binary_returns_base64() {
    let bytes: Vec<u8> = (0u8..=255u8).collect();
    let req = download_fetch_request(DownloadBinaryRequest {
        url: "http://127.0.0.1/file.bin".to_string(),
        headers: Headers::new(),
        timeout_ms: 5_000,
        max_response_bytes: 1024 * 1024,
    });
    assert_eq!(req.method, "GET");
    let resp = outcome_to_binary_response(collect(&[&bytes[..100], &bytes[100..]], req.max_response_bytes, 200, Headers::new()));
    assert_eq!(resp.status, 200);
    assert_eq!(resp.byte_count, 256);
    assert!(!resp.truncated);
    assert_eq!(decode(&resp.body_base64), bytes);
}

#[test]
fn defaults_match_documented_values() {
    assert_eq!(default_method(), "GET");
    assert_eq!(default_timeout_ms(), 30_000);
    assert_eq!(default_max_bytes(), 10 * 1024 * 1024);
    assert!(default_true());
}

#[test]
fn both_bodies_are_refused_first() {
    let mut req = fetch_req("http://127.0.0.1/".to_string());
    req.method = "NOT A METHOD".to_string();
    req.body = Some("a".to_string());
    req.body_base64 = Some("!!".to_string());
    assert!(matches!(prepare_fetch(req), Err(ProxyError::ConflictingBodies)));
}

#[test]
fn invalid_method_is_refused() {
    let mut req = fetch_req("http://127.0.0.1/".to_string());
    req.method = "GE T".to_string();
    req.body_base64 = Some("!!".to_string());
    match prepare_fetch(req) {
        Err(ProxyError::InvalidMethod(m)) => assert_eq!(m, "GE T"),
        other => panic!("unexpected {:?}", other),
    }
    let mut empty = fetch_req("http://127.0.0.1/".to_string());
    empty.method = String::new();
    assert!(matches!(prepare_fetch(empty), Err(ProxyError::InvalidMethod(_))));
}

#[test]
fn invalid_body_base64_is_refused() {
    let mut req = fetch_req("http://127.0.0.1/".to_string());
    req.method = "PUT".to_string();
    req.body_base64 = Some("not base64!".to_string());
    assert!(matches!(prepare_fetch(req), Err(ProxyError::InvalidBodyBase64(_))));
}

#[test]
fn base64_body_is_sent_as_bytes() {
    let mut req = fetch_req("http://127.0.0.1/".to_string());
    req.method = "M-SEARCH".to_string();
    req.body_base64 = Some("aGk=".to_string());
    let prepared = prepare_fetch(req).expect("valid");
    assert_eq!(prepared.method, "M-SEARCH");
    assert!(matches!(&prepared.body, RequestBody::Bytes(b) if b == b"hi"));
    let plain = prepare_fetch(fetch_req("http://127.0.0.1/".to_string())).expect("valid");
    assert!(matches!(plain.body, RequestBody::Empty));
    assert_eq!(plain.url, "http://127.0.0.1/");
    assert_eq!(plain.timeout_ms, 5_000);
}

#[test]
fn base64_body_of_a_download_round_trips() {
    let bytes: Vec<u8> = vec![0xff, 0x00, 0x10, 0x80, 0x7f];
    let download = outcome_to_binary_response(collect(&[&bytes], 64, 200, Headers::new()));
    let mut req = fetch_req("http://127.0.0.1/".to_string());
    req.method = "POST".to_string();
    req.body_base64 = Some(download.body_base64);
    let prepared = prepare_fetch(req).expect("valid");
    assert!(matches!(&prepared.body, RequestBody::Bytes(b) if *b == bytes));
}

fn method_accepted(method: &str) -> bool {
    let mut req = fetch_req("http://127.0.0.1/".to_string());
    req.method = method.to_string();
    prepare_fetch(req).is_ok()
}

#[test]
fn method_tokens() {
    assert!(method_accepted("GET"));
    assert!(method_accepted("PATCH"));
    assert!(method_accepted("M-SEARCH"));
    assert!(method_accepted("A-VERY-LONG-EXTENSION-METHOD"));
    assert!(method_accepted("get"));
    assert!(!method_accepted(""));
    assert!(!method_accepted("GET\n"));
    assert!(!method_accepted("G\u{e9}T"));
}

#[test]
fn exact_limit_at_end_is_not_truncated() {
    let out = collect(&[b"ab", b"cd"], 4, 200, Headers::new());
    assert_eq!(out.body, b"abcd");
    assert!(!out.truncated);
}

#[test]
fn chunk_after_exact_limit_marks_truncation() {
    let out = collect(&[b"abcd", b""], 4, 200, Headers::new());
    assert_eq!(out.body, b"abcd");
    assert!(out.truncated);
    let out = collect(&[b"ab", b"cd", b"e"], 4, 200, Headers::new());
    assert_eq!(out.body, b"abcd");
    assert!(out.truncated);
}

#[test]
fn zero_limit_keeps_nothing() {
    let out = collect(&[], 0, 204, Headers::new());
    assert!(out.body.is_empty());
    assert!(!out.truncated);
    let out = collect(&[b""], 0, 200, Headers::new());
    assert!(!out.truncated);
    let out = collect(&[b"", b""], 0, 200, Headers::new());
    assert!(out.truncated);
    let out = collect(&[b"x"], 0, 200, Headers::new());
    assert!(out.body.is_empty());
    assert!(out.truncated);
}

#[test]
fn stopped_collector_ignores_more_chunks() {
    let c = BodyCollector::new(2);
    let (c, step) = c.accept(b"abc");
    assert_eq!(step, CollectStep::Stop);
    let (c, step) = c.accept(b"zzz");
    assert_eq!(step, CollectStep::Stop);
    let out = c.finish(200, String::new(), Headers::new());
    assert_eq!(out.body, b"ab");
    assert!(out.truncated);
}

#[test]
fn collector_continues_below_limit() {
    let c = BodyCollector::new(10);
    let (c, step) = c.accept(b"abc");
    assert_eq!(step, CollectStep::Continue);
    let out = c.finish(200, "u".to_string(), Headers::new());
    assert_eq!(out.body, b"abc");
    assert_eq!(out.final_url, "u");
    assert!(!out.truncated);
}

#[test]
fn response_headers_keep_text_values_last_wins() {
    let raw = vec![
        ("x-a".to_string(), b"first".to_vec()),
        ("x-bin".to_string(), vec![0x80, 0x41]),
        ("x-a".to_string(), b"second\tpart".to_vec()),
        ("x-ctl".to_string(), vec![0x41, 0x0a]),
        ("x-a".to_string(), vec![0x7f]),
    ];
    let h = headers_to_map(&raw);
    assert_eq!(h.get("x-a").map(String::as_str), Some("second\tpart"));
    assert!(!h.contains_key("x-bin"));
    assert!(!h.contains_key("x-ctl"));
    assert_eq!(h.entries().len(), 1);
}

#[test]
fn accept_default_keeps_callers_value() {
    let mut headers = Headers::new();
    headers.insert("accept".to_string(), "text/plain".to_string());
    let h = with_default_accept_json(headers);
    assert_eq!(h.get("accept").map(String::as_str), Some("text/plain"));
    let h = with_default_accept_json(with_default_accept_json(Headers::new()));
    assert_eq!(h.get("accept").map(String::as_str), Some("application/json"));
    assert_eq!(h.entries().len(), 1);
    let mut upper = Headers::new();
    upper.insert("Accept".to_string(), "text/html".to_string());
    let h = with_default_accept_json(upper);
    assert_eq!(h.entries().len(), 2);
}

#[test]
fn post_json_keeps_callers_content_type() {
    let mut headers = Headers::new();
    headers.insert("content-type".to_string(), "application/vnd.api+json".to_string());
    let req = post_json_fetch_request(PostJsonRequest {
        url: "http://127.0.0.1/api".to_string(),
        json: serde_json::Value::Bool(true),
        headers,
        timeout_ms: 1,
    });
    assert_eq!(
        req.headers.get("content-type").map(String::as_str),
        Some("application/vnd.api+json")
    );
    assert_eq!(req.headers.get("accept").map(String::as_str), Some("application/json"));
    assert_eq!(req.body.as_deref(), Some("true"));
    assert!(req.follow_redirects);
    assert_eq!(req.max_response_bytes, 10 * 1024 * 1024);
}

#[test]
fn non_json_response_is_an_error() {
    let out = collect(&[b"<html>"], 100, 200, Headers::new());
    assert!(matches!(outcome_to_json_response(out), Err(ProxyError::ResponseNotJson(_))));
}

#[test]
fn utf8_text_body_is_kept_as_text() {
    let text = "h\u{e9}llo \u{1F600}";
    let resp = outcome_to_fetch_response(collect(&[text.as_bytes()], 100, 200, Headers::new()));
    assert_eq!(resp.body.as_deref(), Some(text));
    assert_eq!(resp.body_base64, None);
}

#[test]
fn headers_insert_replaces_and_clones() {
    let mut h = Headers::new();
    assert_eq!(h.get("k"), None);
    h.insert("k".to_string(), "1".to_string());
    h.insert("j".to_string(), "2".to_string());
    h.insert("k".to_string(), "3".to_string());
    assert_eq!(h.get("k").map(String::as_str), Some("3"));
    assert_eq!(h.get("j").map(String::as_str), Some("2"));
    assert!(!h.contains_key("K"));
    let copy = h.clone();
    assert_eq!(copy.entries(), h.entries());
    assert_eq!(copy.entries()[0].0, "k");
}

fn encoded(bytes: &[u8]) -> String {
    outcome_to_binary_response(collect(&[bytes], 1024, 200, Headers::new())).body_base64
}

#[test]
fn base64_encoding_is_padded_standard() {
    assert_eq!(encoded(b"hi"), "aGk=");
    assert_eq!(encoded(b""), "");
    assert_eq!(encoded(&[0xfb, 0xff]), "+/8=");
    assert!(can_encode_base64(0));
    assert!(can_encode_base64(1 << 20));
    assert!(!can_encode_base64(usize::MAX));
}

#[test]
fn post_json_null_keeps_callers_content_type() {
    let mut headers = Headers::new();
    headers.insert("content-type".to_string(), "application/merge-patch+json".to_string());
    let req = post_json_fetch_request(PostJsonRequest {
        url: "http://127.0.0.1/u".to_string(),
        json: serde_json::Value::Null,
        headers,
        timeout_ms: 5_000,
    });
    assert_eq!(req.body.as_deref(), Some("null"));
    assert_eq!(
        req.headers.get("content-type").map(String::as_str),
        Some("application/merge-patch+json")
    );
    assert_eq!(req.headers.get("accept").map(String::as_str), Some("application/json"));
    assert_eq!(req.headers.entries().len(), 2);
    assert_eq!(req.timeout_ms, 5_000);
    assert_eq!(req.url, "http://127.0.0.1/u");
}

#[test]
fn json_response_keeps_status_and_value() {
    let outcome = FetchOutcome {
        status: 404,
        final_url: "http://h/x".to_string(),
        headers: Headers::new(),
        body: b"[1,2]".to_vec(),
        truncated: false,
    };
    let resp = outcome_to_json_response(outcome).expect("json");
    assert_eq!(resp.status, 404);
    assert_eq!(resp.final_url, "http://h/x");
    assert!(resp.headers.entries().is_empty());
    let expected: serde_json::Value = serde_json::from_str("[1, 2]").unwrap();
    assert_eq!(resp.json, expected);
    let copy = resp.clone();
    assert_eq!(copy.json, expected);
    assert_eq!(copy.status, 404);
}

#[test]
fn prepared_method_is_parsed() {
    let prepared = prepare_fetch(fetch_req("http://127.0.0.1/".to_string())).expect("valid");
    assert_eq!(prepared.method, reqwest::Method::GET);
    let mut req = fetch_req("http://127.0.0.1/".to_string());
    req.method = "DELETE".to_string();
    assert_eq!(prepare_fetch(req).expect("valid").method, reqwest::Method::DELETE);
}

#[test]
fn non_canonical_base64_is_refused() {
    for text in ["aGl=", "aGk", "aG k=", "aGk==", "="] {
        let mut req = fetch_req("http://127.0.0.1/".to_string());
        req.method = "POST".to_string();
        req.body_base64 = Some(text.to_string());
        assert!(
            matches!(prepare_fetch(req), Err(ProxyError::InvalidBodyBase64(_))),
            "accepted {text:?}"
        );
    }
    let mut empty = fetch_req("http://127.0.0.1/".to_string());
    empty.body_base64 = Some(String::new());
    assert!(matches!(prepare_fetch(empty).expect("valid").body, RequestBody::Bytes(b) if b.is_empty()));
}

#[test]
fn client_settings() {
    assert_eq!(user_agent(), "mcp-network-proxy/0.1.0");
    assert_eq!(REDIRECT_LIMIT, 10);
}

#[test]
fn body_within_limit_is_whole_and_not_truncated() {
    let out = collect(&[b"abc", b"de"], 5, 500, Headers::new());
    assert_eq!(out.status, 500);
    assert_eq!(out.body, b"abcde");
    assert!(!out.truncated);
    let out = collect(&[b"abc", b"def"], 5, 200, Headers::new());
    assert_eq!(out.body, b"abcde");
    assert!(out.truncated);
}
