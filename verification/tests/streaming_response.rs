use scred_http::http_headers::parse_headers_from_text;
use scred_http::streaming_policy::StreamingPolicyConfig;
use scred_http::streaming_response::{forwarded_headers, normalize_location_header, response_body,
    response_header_block, response_is_head_or_bodyless, ResponseBody, StreamingResponseConfig, StreamingStats};

fn pairs(v: &[(&str, &str)]) -> Vec<(String, String)> {
    v.iter().map(|(a, b)| (a.to_string(), b.to_string())).collect()
}

#[test]
fn framing_headers_are_dropped() {
    let h = pairs(&[("Content-Length", "5"), ("X-A", "1"), ("TRANSFER-ENCODING", "chunked"), ("connection", "keep-alive"), ("Y", "2")]);
    assert_eq!(forwarded_headers(&h), pairs(&[("X-A", "1"), ("Y", "2")]));
}

#[test]
fn location_is_normalized_and_pointed_at_the_proxy() {
    let mut h = pairs(&[("X", "1"), ("location", "https://up.example:443/a/b"), ("Location", "other")]);
    normalize_location_header(&mut h, Some("up.example"), None, None);
    assert_eq!(h, pairs(&[("X", "1"), ("location", "https://up.example/a/b"), ("Location", "other")]));
    let mut h = pairs(&[("Location", "http://up:80/x")]);
    normalize_location_header(&mut h, None, Some("proxy:8080"), Some("https"));
    assert_eq!(h, pairs(&[("Location", "https://proxy:8080/x")]));
    let mut h = pairs(&[("Location", "/relative")]);
    normalize_location_header(&mut h, None, Some("proxy"), None);
    assert_eq!(h, pairs(&[("Location", "/relative")]));
    let mut h = pairs(&[("A", "b")]);
    normalize_location_header(&mut h, None, Some("proxy"), None);
    assert_eq!(h, pairs(&[("A", "b")]));
}

#[test]
fn header_block_text() {
    let h = pairs(&[("A", "1")]);
    assert_eq!(response_header_block(&h, true), "A: 1\r\nConnection: close\r\nX-SCRED-Redacted: true\r\n");
    assert_eq!(response_header_block(&h, false), "A: 1\r\nConnection: close\r\n");
}

#[test]
fn bodyless_statuses() {
    assert!(response_is_head_or_bodyless("HTTP/1.1 204 No Content"));
    assert!(response_is_head_or_bodyless("HTTP/1.1 304 Not Modified"));
    assert!(response_is_head_or_bodyless("HTTP/1.1 101 Switching"));
    assert!(!response_is_head_or_bodyless("HTTP/1.1 200 OK"));
    assert!(!response_is_head_or_bodyless("garbage"));
    let h = parse_headers_from_text("HTTP/1.1 200 OK\r\nContent-Length: 3\r\n\r\n", true);
    assert_eq!(response_body("HTTP/1.1 200 OK", &h), ResponseBody::Length(3));
    assert_eq!(response_body("HTTP/1.1 204 No Content", &h), ResponseBody::Empty);
    let h = parse_headers_from_text("HTTP/1.1 200 OK\r\nTransfer-Encoding: chunked\r\n\r\n", true);
    assert_eq!(response_body("HTTP/1.1 200 OK", &h), ResponseBody::Chunked);
}

#[test]
fn streaming_defaults() {
    let c = StreamingResponseConfig::default();
    assert!(c.add_scred_header && !c.debug);
    let s = StreamingStats::default();
    assert_eq!(s.bytes_read + s.bytes_written + s.chunks_processed + s.patterns_found, 0);
    let p = StreamingPolicyConfig::default();
    assert!(p.enabled && !p.debug && p.domain.is_empty());
}
