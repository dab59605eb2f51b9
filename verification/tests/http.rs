use lotus::headers::parse_headers;
use lotus::http::{
    error_code, follow_redirect, normalize_raw_request, rate_limit_step, HttpVersion, RateDecision,
    RequestError, RequestOptions, Sender, SenderExt, TransportFailure,
};

fn pairs(v: &[(&str, &str)]) -> Vec<(String, String)> {
    v.iter().map(|(a, b)| (a.to_string(), b.to_string())).collect()
}

#[test]
fn test_init() {
    let headers = Vec::new();
    let sender = Sender::init(headers, Some("http://proxy.example.com:8080".to_string()), 10, 3);
    assert_eq!(sender.proxy, Some("http://proxy.example.com:8080".to_string()));
    assert_eq!(sender.timeout, 10);
    assert_eq!(sender.redirects, 3);
}

#[test]
fn test_build_client() {
    let headers = pairs(&[("Content-Type", "application/json")]);
    let sender = Sender::init(headers.clone(), Some("http://proxy.example.com:8080".to_string()), 10, 3);
    assert_eq!(sender.proxy.unwrap().as_str(), "http://proxy.example.com:8080");
    let sender = Sender::init(headers.clone(), None, 10, 3);
    assert!(sender.proxy.is_none());
}

fn options() -> RequestOptions {
    RequestOptions {
        url: None,
        method: None,
        http2_only: None,
        http1_only: None,
        timeout: None,
        proxy: None,
        redirect: None,
        headers: None,
        body: None,
        multipart: None,
    }
}

#[test]
fn resolve_request_defaults_and_errors() {
    let s = Sender::init(pairs(&[("A", "1")]), Some("http://p".to_string()), 7, 2);
    assert_eq!(s.resolve_request(options()).err(), Some("URL Parameter is required".to_string()));
    let mut o = options();
    o.url = Some("http://t/".to_string());
    o.body = Some(String::new());
    let p = s.resolve_request(o).unwrap();
    assert_eq!(p.method, "GET");
    assert_eq!(p.body, None);
    assert_eq!(p.sender.timeout, 7);
    assert_eq!(p.sender.proxy.as_deref(), Some("http://p"));
    assert_eq!(p.sender.redirects, 2);
    assert_eq!(p.sender.headers, pairs(&[("a", "1")]));
    assert!(p.sender.merge_headers);
}

#[test]
fn resolve_request_overrides_and_merges() {
    let mut s = Sender::init(pairs(&[("A", "1"), ("B", "2")]), None, 7, 2);
    let mut o = options();
    o.url = Some("http://t/".to_string());
    o.method = Some("POST".to_string());
    o.timeout = Some(1);
    o.redirect = Some(0);
    o.http2_only = Some(true);
    o.body = Some("x=1".to_string());
    o.headers = Some(pairs(&[("A", "9"), ("C", "3")]));
    let p = s.resolve_request(o.clone()).unwrap();
    assert_eq!(p.method, "POST");
    assert_eq!(p.body.as_deref(), Some("x=1"));
    assert_eq!(p.sender.timeout, 1);
    assert_eq!(p.sender.redirects, 0);
    assert!(p.sender.http_options.http2_only && !p.sender.http_options.http1_only);
    assert_eq!(p.sender.headers, pairs(&[("a", "9"), ("c", "3")]));
    s.set_merge_headers(true);
    let p = s.resolve_request(o).unwrap();
    assert_eq!(p.sender.headers, pairs(&[("a", "1"), ("c", "3"), ("b", "2")]));
}

#[test]
fn rate_limiter() {
    assert_eq!(rate_limit_step(0, 5), RateDecision { sleep: false, sent: 1 });
    assert_eq!(rate_limit_step(4, 5), RateDecision { sleep: false, sent: 5 });
    assert_eq!(rate_limit_step(5, 5), RateDecision { sleep: true, sent: 1 });
}

#[test]
fn redirects_and_error_codes() {
    assert!(follow_redirect(1, 3));
    assert!(follow_redirect(3, 3));
    assert!(!follow_redirect(4, 3));
    assert!(!follow_redirect(1, 0));
    let none = TransportFailure { timeout: false, connect: false, redirect: false, body: false, decode: false };
    assert_eq!(error_code(none), "external_error");
    assert_eq!(error_code(TransportFailure { timeout: true, connect: true, ..none }), "timeout_error");
    assert_eq!(error_code(TransportFailure { connect: true, ..none }), "connection_error");
    assert_eq!(error_code(TransportFailure { redirect: true, ..none }), "too_many_redirects");
    assert_eq!(error_code(TransportFailure { body: true, ..none }), "request_body_error");
    assert_eq!(error_code(TransportFailure { decode: true, ..none }), "decode_error");
}

#[test]
fn curl_command() {
    let s = Sender::init(pairs(&[("X-A", "1"), ("Cookie", "s=2")]), Some("http://127.0.0.1:8080".to_string()), 30, 1);
    assert_eq!(
        s.make_curl("http://t/x".to_string()),
        "curl -H 'X-A: 1' -H 'Cookie: s=2' -x http://127.0.0.1:8080 --connect-timeout 30 http://t/x"
    );
    let plain = Sender::init(vec![], None, 0, 1);
    assert_eq!(plain.make_curl("u".to_string()), "curl --connect-timeout 0 u");
}

#[test]
fn raw_requests_get_crlf() {
    assert_eq!(normalize_raw_request("GET / HTTP/1.1\nHost: a\n\n"), "GET / HTTP/1.1\r\nHost: a\r\n\r\n");
    assert_eq!(normalize_raw_request(""), "");
}

#[test]
fn request_error_messages() {
    assert_eq!(RequestError::SendError("boom".to_string()).message(), "Failed to send request: boom");
    assert_eq!(RequestError::ClientError("x".to_string()).message(), "HTTP client error: x");
    assert_eq!(RequestError::ResponseError("y".to_string()).message(), "Unexpected response error: y");
}

#[test]
fn http_version_default() {
    let v = HttpVersion::default();
    assert!(!v.http1_only && !v.http2_only);
}

#[test]
fn header_blocks() {
    assert_eq!(
        parse_headers("Host: example.com\r\nX-Y:  a:b \nno colon\n\tCookie :c\nHost: other"),
        pairs(&[("Host", "other"), ("X-Y", "a:b"), ("Cookie", "c")])
    );
    assert!(parse_headers("").is_empty());
}

#[test]
fn response_text_and_actions() {
    let res = lotus::http::HttpResponse {
        url: "http://h/".to_string(),
        status: 200,
        body: "hi".to_string(),
        headers: pairs(&[("a", "1"), ("b", "2")]),
        version: "HTTP/1.1".to_string(),
        reason: "OK".to_string(),
    };
    assert_eq!(lotus::http::show_response(&res), "HTTP/1.1 OK\na: 1\nb: 2\n\n\nhi\n        ");
    assert_eq!(lotus::http::action_message("go"), "Action received: go");
}

#[test]
fn header_names_ignore_case() {
    let mut s = Sender::init(pairs(&[("x-a", "2")]), None, 7, 2);
    s.set_merge_headers(true);
    let mut o = options();
    o.url = Some("http://t/".to_string());
    o.headers = Some(pairs(&[("X-A", "1"), ("Y-B", "3")]));
    let p = s.resolve_request(o).unwrap();
    assert_eq!(p.sender.headers, pairs(&[("x-a", "2"), ("y-b", "3")]));
    assert_eq!(lotus::http::header_name_exec("Content-TYPE"), "content-type");
}
