use scred_http::h2::h2_upstream_client::{DataWait, H2UpstreamClient, HeadersWait};

#[test]
fn test_h2_client_creation() {
    let client = H2UpstreamClient::new();
    assert_eq!(client.stream_id, 1);
}

#[test]
fn h2_upstream_client_test_extract_status_indexed_200() {
    let client = H2UpstreamClient::new();
    let payload = vec![0x88]; // Index 8 = :status 200
    let result = client.extract_status_from_hpack(&payload);
    assert!(result.is_ok());
    assert_eq!(result.unwrap(), "200");
}

#[test]
fn h2_upstream_client_test_extract_status_indexed_404() {
    let client = H2UpstreamClient::new();
    let payload = vec![0x8D]; // Index 13 = :status 404
    let result = client.extract_status_from_hpack(&payload);
    assert!(result.is_ok());
    assert_eq!(result.unwrap(), "404");
}

#[test]
fn test_find_status_pattern_200() {
    let client = H2UpstreamClient::new();
    let payload = b"status: 200 OK".to_vec();
    let result = client.find_status_code_pattern(&payload);
    assert!(result.is_ok());
    assert_eq!(result.unwrap(), "200");
}

#[test]
fn test_find_status_pattern_404() {
    let client = H2UpstreamClient::new();
    let payload = b"error 404 not found".to_vec();
    let result = client.find_status_code_pattern(&payload);
    assert!(result.is_ok());
    assert_eq!(result.unwrap(), "404");
}

#[test]
fn test_settings_frame_encoding() {
    let client = H2UpstreamClient::new();
    let frame = H2UpstreamClient::encode_settings_frame();
    assert_eq!(frame.len(), 9); // 9-byte header, no payload
    assert_eq!(frame[3], 4); // Type: SETTINGS
    assert_eq!(frame[4], 0); // Flags: no ACK
}

#[test]
fn frames_before_headers() {
    let c = H2UpstreamClient::new();
    assert_eq!(c.on_frame_before_headers(1, &[0x8d]), HeadersWait::Head("HTTP/1.1 404 OK\r\nContent-Type: application/octet-stream\r\nTransfer-Encoding: chunked\r\nConnection: close\r\n\r\n".to_string()));
    assert_eq!(c.on_frame_before_headers(4, &[]), HeadersWait::Skip);
    assert_eq!(c.on_frame_before_headers(0, b"data"), HeadersWait::Skip);
    assert_eq!(c.on_frame_before_headers(3, &[]), HeadersWait::Failed("Upstream reset stream".to_string()));
    assert_eq!(c.on_frame_before_headers(7, &[]), HeadersWait::Failed("Upstream sent GOAWAY".to_string()));
    assert_eq!(c.on_frame_before_headers(9, &[]), HeadersWait::Skip);
}

#[test]
fn frames_before_data() {
    let c = H2UpstreamClient::new();
    assert_eq!(c.on_frame_before_data(0, 1), DataWait::Data(true));
    assert_eq!(c.on_frame_before_data(0, 0), DataWait::Data(false));
    assert_eq!(c.on_frame_before_data(3, 0), DataWait::Reset);
    assert_eq!(c.on_frame_before_data(4, 1), DataWait::Skip);
    assert!(H2UpstreamClient::check_settings_type(4).is_ok());
    assert_eq!(H2UpstreamClient::check_settings_type(1).unwrap_err(), "Expected SETTINGS frame, got type 1");
}
