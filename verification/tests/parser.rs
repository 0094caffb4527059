use scred_http::parser::{parse_header_line, parse_request_line, parse_status_line, HttpRequest, HttpResponse};
use std::collections::HashMap;

fn make_headers(pairs: Vec<(&str, &str)>) -> HashMap<String, String> {
    pairs.into_iter().map(|(k, v)| (k.to_string(), v.to_string())).collect()
}

#[test]
fn test_http_request_get_header() {
    let req = HttpRequest {
        method: "GET".to_string(),
        path: "/".to_string(),
        version: "HTTP/1.1".to_string(),
        headers: make_headers(vec![
            ("Host", "example.com"),
            ("Content-Type", "text/html"),
        ]),
        body: Vec::new(),
    };
    assert_eq!(req.get_header("Host"), Some("example.com".to_string()));
    assert_eq!(req.get_header("Content-Type"), Some("text/html".to_string()));
    assert_eq!(req.get_header("X-Missing"), None);
}

#[test]
fn test_http_request_content_length() {
    let req = HttpRequest {
        method: "POST".to_string(),
        path: "/api".to_string(),
        version: "HTTP/1.1".to_string(),
        headers: make_headers(vec![("Content-Length", "42")]),
        body: vec![0u8; 42],
    };
    assert_eq!(req.content_length(), Some(42));
}

#[test]
fn test_http_request_content_length_missing() {
    let req = HttpRequest {
        method: "GET".to_string(),
        path: "/".to_string(),
        version: "HTTP/1.1".to_string(),
        headers: HashMap::new(),
        body: Vec::new(),
    };
    assert_eq!(req.content_length(), None);
}

#[test]
fn test_http_request_is_chunked() {
    let req = HttpRequest {
        method: "POST".to_string(),
        path: "/upload".to_string(),
        version: "HTTP/1.1".to_string(),
        headers: make_headers(vec![("Transfer-Encoding", "chunked")]),
        body: Vec::new(),
    };
    assert!(req.is_chunked());
}

#[test]
fn test_http_request_is_not_chunked() {
    let req = HttpRequest {
        method: "GET".to_string(),
        path: "/".to_string(),
        version: "HTTP/1.1".to_string(),
        headers: HashMap::new(),
        body: Vec::new(),
    };
    assert!(!req.is_chunked());
}

#[test]
fn test_http_request_all_text() {
    let req = HttpRequest {
        method: "GET".to_string(),
        path: "/path".to_string(),
        version: "HTTP/1.1".to_string(),
        headers: make_headers(vec![("Host", "example.com")]),
        body: b"body data".to_vec(),
    };
    let text = req.all_text();
    assert!(text.contains("GET /path HTTP/1.1"));
    assert!(text.contains("Host: example.com"));
    assert!(text.contains("body data"));
}

#[test]
fn test_http_response_get_header() {
    let resp = HttpResponse {
        version: "HTTP/1.1".to_string(),
        status_code: 200,
        reason: "OK".to_string(),
        headers: make_headers(vec![("Content-Type", "application/json")]),
        body: Vec::new(),
    };
    assert_eq!(resp.get_header("Content-Type"), Some("application/json".to_string()));
}

#[test]
fn test_http_response_content_length() {
    let resp = HttpResponse {
        version: "HTTP/1.1".to_string(),
        status_code: 200,
        reason: "OK".to_string(),
        headers: make_headers(vec![("Content-Length", "100")]),
        body: vec![0u8; 100],
    };
    assert_eq!(resp.content_length(), Some(100));
}

#[test]
fn test_http_response_is_chunked() {
    let resp = HttpResponse {
        version: "HTTP/1.1".to_string(),
        status_code: 200,
        reason: "OK".to_string(),
        headers: make_headers(vec![("Transfer-Encoding", "chunked")]),
        body: Vec::new(),
    };
    assert!(resp.is_chunked());
}

#[test]
fn test_http_response_all_text() {
    let resp = HttpResponse {
        version: "HTTP/1.1".to_string(),
        status_code: 404,
        reason: "Not Found".to_string(),
        headers: make_headers(vec![("Content-Type", "text/html")]),
        body: b"<h1>404</h1>".to_vec(),
    };
    let text = resp.all_text();
    assert!(text.contains("HTTP/1.1 404 Not Found"));
    assert!(text.contains("Content-Type: text/html"));
    assert!(text.contains("<h1>404</h1>"));
}

#[test]
fn request_line_parsing() {
    let (m, p, v) = parse_request_line("  get /x HTTP/1.1\r\n").unwrap();
    assert_eq!((m.as_str(), p.as_str(), v.as_str()), ("GET", "/x", "HTTP/1.1"));
    assert_eq!(parse_request_line("INVALID\n").unwrap_err(), "Invalid request line: INVALID");
}

#[test]
fn status_line_parsing() {
    let (v, c, r) = parse_status_line("HTTP/1.1 404 Not  Found\r\n").unwrap();
    assert_eq!((v.as_str(), c, r.as_str()), ("1.1", 404, "Not Found"));
    let (v, c, r) = parse_status_line("X 200").unwrap();
    assert_eq!((v.as_str(), c, r.as_str()), ("1.1", 200, ""));
    assert_eq!(parse_status_line("INVALID").unwrap_err(), "Invalid status line: INVALID");
    assert_eq!(parse_status_line("HTTP/1.1 abc OK").unwrap_err(), "invalid digit found in string");
}

#[test]
fn header_line_parsing() {
    assert_eq!(
        parse_header_line(" Host :  example.com:80 \r\n"),
        Some(("Host".to_string(), "example.com:80".to_string()))
    );
    assert_eq!(parse_header_line("no colon"), None);
}

#[test]
fn lookup_is_case_insensitive_and_chunked_exact() {
    let mut headers = HashMap::new();
    headers.insert("TRANSFER-ENCODING".to_string(), "gzip, chunked".to_string());
    headers.insert("content-LENGTH".to_string(), "12".to_string());
    let req = HttpRequest {
        method: "GET".to_string(),
        path: "/".to_string(),
        version: "HTTP/1.1".to_string(),
        headers,
        body: Vec::new(),
    };
    assert_eq!(req.content_length(), Some(12));
    assert!(!req.is_chunked());
    assert_eq!(req.get_header("Transfer-Encoding"), Some("gzip, chunked".to_string()));
}

#[test]
fn response_all_text_exact_with_one_header() {
    let mut headers = HashMap::new();
    headers.insert("A".to_string(), "b".to_string());
    let resp = HttpResponse {
        version: "1.1".to_string(),
        status_code: 201,
        reason: "Created".to_string(),
        headers,
        body: b"x".to_vec(),
    };
    assert_eq!(resp.all_text(), "HTTP/1.1 201 Created\r\nA: b\r\n\r\nx");
}
