use scred_http::h2::frame_encoder::{FrameEncoder, HpackEncoder};
use std::collections::HashMap;

#[test]
fn test_hpack_encoder_creation() {
    let encoder = HpackEncoder::new();
    assert_eq!(encoder.max_size, 4096);
}

#[test]
fn frame_encoder_test_encode_headers_frame() {
    let mut headers = HashMap::new();
    headers.insert(":method".to_string(), "GET".to_string());
    headers.insert(":path".to_string(), "/".to_string());

    let frame = FrameEncoder::encode_headers_frame(1, &headers, false).unwrap();

    // Should have 9-byte header + payload
    assert!(frame.len() > 9);

    // Extract length
    let length = ((frame[0] as u32) << 16) | ((frame[1] as u32) << 8) | (frame[2] as u32);
    assert_eq!(frame.len(), 9 + length as usize);
}

#[test]
fn test_encode_data_frame() {
    let data = b"Hello, HTTP/2!";
    let frame = FrameEncoder::encode_data_frame(1, data, true).unwrap();

    // Should have 9-byte header + payload
    assert_eq!(frame.len(), 9 + data.len());

    // Check type (DATA = 0x00)
    assert_eq!(frame[3], 0x00);

    // Check flags (END_STREAM = 0x01)
    assert_eq!(frame[4], 0x01);
}

#[test]
fn test_frame_header_parsing() {
    // Create a simple frame header
    let header = [
        0x00, 0x00, 0x0E, // Length: 14
        0x00,             // Type: DATA
        0x01,             // Flags: END_STREAM
        0x00, 0x00, 0x00, 0x01, // Stream ID: 1
    ];

    let (length, frame_type, flags, stream_id) = FrameEncoder::parse_frame_header(&header)
        .expect("Failed to parse frame header");

    assert_eq!(length, 14);
    assert_eq!(frame_type, 0x00);
    assert_eq!(flags, 0x01);
    assert_eq!(stream_id, 1);
}

#[test]
fn test_encode_integer() {
    let encoder = HpackEncoder::new();

    // Small integer (fits in one byte)
    let result = encoder.encode_integer(10, 7, 0x00).unwrap();
    assert_eq!(result.len(), 1);
    assert_eq!(result[0], 0x0A);

    // Large integer (needs multiple bytes)
    let result = encoder.encode_integer(1337, 5, 0x00).unwrap();
    assert!(result.len() > 1);
}

#[test]
fn test_encode_string() {
    let encoder = HpackEncoder::new();
    let result = encoder.encode_string("hello").unwrap();

    // Should have length prefix + "hello"
    assert!(result.len() > 5);
}
