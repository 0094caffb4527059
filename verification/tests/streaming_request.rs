use scred_http::streaming_request::{chunks_reported, next_body_chunk, request_body, RequestBody, StreamingRequestConfig, StreamingStats};
use scred_http::http_headers::parse_headers_from_text;

#[test]
fn test_streaming_stats() {
    let mut stats = StreamingStats::default();
    stats.bytes_read = 100;
    stats.patterns_found = 5;
    assert_eq!(stats.bytes_read, 100);
    assert_eq!(stats.patterns_found, 5);
}

#[test]
fn test_config_default() {
    let config = StreamingRequestConfig::default();
    assert_eq!(config.max_headers_size, 64 * 1024);
    assert!(!config.debug);
}

#[test]
fn request_body_framing() {
    let h = parse_headers_from_text("Content-Length: 10\r\nTransfer-Encoding: chunked\r\n\r\n", false);
    assert_eq!(request_body(&h), RequestBody::Length(10));
    let h = parse_headers_from_text("Transfer-Encoding: chunked\r\n\r\n", false);
    assert_eq!(request_body(&h), RequestBody::ChunkedUnsupported);
    let h = parse_headers_from_text("Host: x\r\n\r\n", false);
    assert_eq!(request_body(&h), RequestBody::Empty);
}

#[test]
fn body_pieces() {
    assert_eq!(next_body_chunk(10), (10, true));
    assert_eq!(next_body_chunk(70000), (65536, false));
    assert_eq!(next_body_chunk(65536), (65536, true));
    assert_eq!(chunks_reported(0), 1);
    assert_eq!(chunks_reported(65536), 2);
    assert_eq!(chunks_reported(65535), 1);
}
