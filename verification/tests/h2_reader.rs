use scred_http::h2::h2_reader::{status_text, title_case, H2ResponseReader};
use scred_http::h2::h2_reader::H2ResponseConverter;
use scred_http::h2::h2_reader::http11_head;

#[test]
fn test_h2_response_reader_creation() {
    let reader = H2ResponseReader::new();
    assert!(!reader.is_headers_complete());
    assert_eq!(reader.status_code(), None);
}

#[test]
fn test_h2_response_reader_default() {
    let reader = H2ResponseReader::default();
    assert!(!reader.is_headers_complete());
}

#[test]
fn test_set_status_code() {
    let mut reader = H2ResponseReader::new();
    reader.set_status_code(200);
    assert_eq!(reader.status_code(), Some(200));
}

#[test]
fn test_set_headers_complete() {
    let mut reader = H2ResponseReader::new();
    assert!(!reader.is_headers_complete());
    reader.set_headers_complete();
    assert!(reader.is_headers_complete());
}

#[test]
fn test_status_text() {
    assert_eq!(status_text(200), "OK");
    assert_eq!(status_text(404), "Not Found");
    assert_eq!(status_text(500), "Internal Server Error");
    assert_eq!(status_text(999), "Unknown");
}

#[test]
fn test_title_case() {
    assert_eq!(title_case("content-type"), "Content-Type");
    assert_eq!(title_case("content-length"), "Content-Length");
    assert_eq!(title_case("x-custom-header"), "X-Custom-Header");
    assert_eq!(title_case("simple"), "Simple");
}

#[test]
fn test_title_case_edge_cases() {
    assert_eq!(title_case(""), "");
    assert_eq!(title_case("-"), "-");
    assert_eq!(title_case("a"), "A");
}

#[test]
fn http11_head_from_header_map() {
    let mut headers = http::HeaderMap::new();
    headers.insert("content-type", http::HeaderValue::from_static("text/plain"));
    let head = H2ResponseConverter::headers_to_http11(404, &headers).unwrap();
    assert_eq!(head, "HTTP/1.1 404 Not Found\r\nContent-Type: text/plain\r\n\r\n");
}

#[test]
fn http11_head_skips_pseudo_and_binary_values() {
    let entries = vec![
        (":status".to_string(), Some("200".to_string())),
        ("x-bin".to_string(), None),
        ("cache-control".to_string(), Some("no-cache".to_string())),
    ];
    assert_eq!(http11_head(999, &entries), "HTTP/1.1 999 Unknown\r\nCache-Control: no-cache\r\n\r\n");
}

#[test]
fn title_case_double_dash() {
    assert_eq!(title_case("a--b"), "A--B");
    assert_eq!(title_case("x-"), "X-");
}
