use scred_http::h2::upstream_response_transcoder::UpstreamResponseTranscoder;
use scred_http::h2::upstream_response_transcoder::body_frame_step;
use scred_http::h2::upstream_response_transcoder::{frame_record, read_frame_header};

#[test]
fn upstream_response_transcoder_test_transcoder_creation() {
    let transcoder = UpstreamResponseTranscoder::new();
    assert!(transcoder.response_headers.is_none());
}

#[test]
fn upstream_response_transcoder_test_transcoder_default() {
    let transcoder = UpstreamResponseTranscoder::default();
    assert!(transcoder.response_headers.is_none());
}

#[test]
fn test_parse_headers_frame_default() {
    let transcoder = UpstreamResponseTranscoder::new();
    let payload = vec![];
    let result = transcoder.parse_headers_frame(&payload);
    assert!(result.is_ok());
    assert!(result.unwrap().contains("HTTP/1.1 200 OK"));
}

#[test]
fn upstream_response_transcoder_test_extract_status_indexed_200() {
    let transcoder = UpstreamResponseTranscoder::new();
    // 0x88 = 10001000 (indexed header, index 8 = :status 200)
    let payload = vec![0x88];
    let result = transcoder.extract_status_from_hpack(&payload);
    assert!(result.is_ok());
    assert_eq!(result.unwrap(), "200");
}

#[test]
fn upstream_response_transcoder_test_extract_status_indexed_404() {
    let transcoder = UpstreamResponseTranscoder::new();
    // 0x8D = 10001101 (indexed header, index 13 = :status 404)
    let payload = vec![0x8D];
    let result = transcoder.extract_status_from_hpack(&payload);
    assert!(result.is_ok());
    assert_eq!(result.unwrap(), "404");
}

#[test]
fn test_extract_status_indexed_500() {
    let transcoder = UpstreamResponseTranscoder::new();
    // 0x8E = 10001110 (indexed header, index 14 = :status 500)
    let payload = vec![0x8E];
    let result = transcoder.extract_status_from_hpack(&payload);
    assert!(result.is_ok());
    assert_eq!(result.unwrap(), "500");
}

#[test]
fn test_extract_status_pattern_200() {
    let transcoder = UpstreamResponseTranscoder::new();
    // Literal representation with status 200 embedded
    let payload = b"Status: 200 OK".to_vec();
    let result = transcoder.extract_status_from_hpack(&payload);
    assert!(result.is_ok());
    assert_eq!(result.unwrap(), "200");
}

#[test]
fn test_extract_status_pattern_404() {
    let transcoder = UpstreamResponseTranscoder::new();
    // Literal representation with status 404 embedded
    let payload = b"Error: 404 Not Found".to_vec();
    let result = transcoder.extract_status_from_hpack(&payload);
    assert!(result.is_ok());
    assert_eq!(result.unwrap(), "404");
}

#[test]
fn test_find_status_code_pattern_multiple() {
    let transcoder = UpstreamResponseTranscoder::new();
    // Multiple status codes, should find first one encountered
    let payload = b"error_code=404 response_code=200".to_vec();
    let result = transcoder.find_status_code_pattern(&payload);
    assert!(result.is_ok());
    // This finds 404 first in the iteration order
    let status = result.unwrap();
    assert!(status == "404" || status == "200");  // Either is acceptable
}

#[test]
fn test_parse_headers_frame_with_200() {
    let transcoder = UpstreamResponseTranscoder::new();
    let payload = b"Status: 200 OK".to_vec();
    let result = transcoder.parse_headers_frame(&payload);
    assert!(result.is_ok());
    let response = result.unwrap();
    assert!(response.contains("200 OK"));
    assert!(response.contains("HTTP/1.1"));
}

#[test]
fn test_parse_headers_frame_with_404() {
    let transcoder = UpstreamResponseTranscoder::new();
    let payload = b"Error: 404 Not Found".to_vec();
    let result = transcoder.parse_headers_frame(&payload);
    assert!(result.is_ok());
    let response = result.unwrap();
    assert!(response.contains("404 OK"));  // Note: we use "OK" for all status codes
    assert!(response.contains("HTTP/1.1"));
}

#[test]
fn response_frame_decisions() {
    let mut t = UpstreamResponseTranscoder::new();
    assert!(t.on_response_frame(0x04, &[]).is_none());
    assert_eq!(t.on_response_frame(0x00, &[]).unwrap().unwrap_err(), "DATA frame before HEADERS");
    assert_eq!(t.on_response_frame(0x03, &[]).unwrap().unwrap_err(), "Stream reset by server (RST_STREAM)");
    assert_eq!(t.on_response_frame(0x07, &[]).unwrap().unwrap_err(), "Connection closed by server (GOAWAY)");
    assert!(t.response_headers.is_none());
    let head = t.on_response_frame(0x01, &[0x8d]).unwrap().unwrap();
    assert_eq!(head, "HTTP/1.1 404 OK\r\nConnection: close\r\nContent-Type: application/octet-stream\r\n\r\n");
    assert_eq!(t.response_headers, Some(head));
}

#[test]
fn pattern_order_prefers_listed_order() {
    let t = UpstreamResponseTranscoder::new();
    assert_eq!(t.find_status_code_pattern(b"error_code=404 response_code=200").unwrap(), "200");
    assert_eq!(t.find_status_code_pattern(b"no code").unwrap(), "200");
    assert_eq!(t.extract_status_from_hpack(&[0x89]).unwrap(), "204");
    assert_eq!(t.extract_status_from_hpack(&[0x82, b'5', b'0', b'3']).unwrap(), "503");
}

#[test]
fn frame_header_and_record() {
    let header = [0x00, 0x01, 0x02, 0x01, 0x05, 0x80, 0x00, 0x00, 0x07];
    assert_eq!(read_frame_header(&header), (258, 1, 5, 7));
    let (rec, end) = frame_record(0x00, 0x01, b"ab");
    assert!(end);
    assert_eq!(rec, vec![0x00, b'a', b'b', 1]);
}

#[test]
fn body_steps() {
    let mut body = Vec::new();
    assert_eq!(body_frame_step(&mut body, 0, 0x00, b"abc", false), Ok((3, false)));
    assert_eq!(body_frame_step(&mut body, 3, 0x08, b"zz", false), Ok((3, false)));
    assert_eq!(body_frame_step(&mut body, 3, 0x00, b"d", true), Ok((4, true)));
    assert_eq!(body, b"abcd");
    assert_eq!(
        body_frame_step(&mut body, 4, 0x07, b"", false).unwrap_err(),
        "Connection closed by server while reading body"
    );
}
