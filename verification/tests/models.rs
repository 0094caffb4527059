use scred_http::models::{HttpRequest, HttpResponse, PatternMatch};
use std::collections::HashMap;

fn request(headers: Vec<(&str, &str)>) -> HttpRequest {
    HttpRequest {
        method: "POST".to_string(),
        path: "/p".to_string(),
        version: "HTTP/1.1".to_string(),
        headers: headers.into_iter().map(|(k, v)| (k.to_string(), v.to_string())).collect(),
        body: b"hi".to_vec(),
    }
}

#[test]
fn set_header_replaces_any_case() {
    let mut req = request(vec![("content-type", "a"), ("CONTENT-TYPE", "b"), ("Host", "h")]);
    req.set_header("Content-Type".to_string(), "c".to_string());
    assert_eq!(req.headers.len(), 2);
    assert_eq!(req.headers.get("Content-Type"), Some(&"c".to_string()));
    assert_eq!(req.get_header("content-type"), Some("c".to_string()));
}

#[test]
fn remove_header_any_case() {
    let mut req = request(vec![("X-A", "1"), ("x-a", "2"), ("Y", "3")]);
    req.remove_header("x-A");
    assert_eq!(req.headers.len(), 1);
    assert!(req.get_header("x-a").is_none());
}

#[test]
fn chunked_and_length() {
    let req = request(vec![("Transfer-Encoding", "gzip, CHUNKED"), ("Content-Length", "7")]);
    assert!(req.is_chunked());
    assert_eq!(req.content_length(), Some(7));
    let req = request(vec![("Content-Length", "x")]);
    assert_eq!(req.content_length(), None);
    assert!(!req.is_chunked());
}

#[test]
fn serialize_request_and_response() {
    let req = request(vec![("Host", "h")]);
    assert_eq!(req.serialize(), b"POST /p HTTP/1.1\r\nHost: h\r\n\r\nhi".to_vec());
    let resp = HttpResponse {
        version: "HTTP/1.1".to_string(),
        status_code: 200,
        reason: "OK".to_string(),
        headers: HashMap::new(),
        body: b"ok".to_vec(),
    };
    assert_eq!(resp.serialize(), b"HTTP/1.1 200 OK\r\n\r\nok".to_vec());
    let m = PatternMatch {
        pattern_name: "n".to_string(),
        matched_text: "t".to_string(),
        byte_offset: 3,
        redacted_as: "x".to_string(),
    };
    assert_eq!(m.clone().byte_offset, 3);
}
