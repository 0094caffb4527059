use scred_http::h2::frame::{Frame, FrameFlags, FrameType};

#[test]
fn test_frame_type_from_u8() {
    assert_eq!(FrameType::from_u8(0x0), FrameType::Data);
    assert_eq!(FrameType::from_u8(0x1), FrameType::Headers);
    assert_eq!(FrameType::from_u8(0x9), FrameType::Continuation);
    assert!(matches!(FrameType::from_u8(0xFF), FrameType::Unknown(0xFF)));
}

#[test]
fn test_frame_flags_end_stream() {
    let flags = FrameFlags::new(0x1);
    assert!(flags.end_stream());
    assert!(!flags.end_headers());
}

#[test]
fn test_frame_flags_end_headers() {
    let flags = FrameFlags::new(0x4);
    assert!(!flags.end_stream());
    assert!(flags.end_headers());
}

#[test]
fn test_frame_flags_combined() {
    let flags = FrameFlags::new(0x5); // END_STREAM | END_HEADERS
    assert!(flags.end_stream());
    assert!(flags.end_headers());
}

#[test]
fn test_parse_data_frame() {
    // DATA frame: length=10, type=0x0, flags=0x0, stream=1
    let header = [0x00, 0x00, 0x0A, 0x00, 0x00, 0x00, 0x00, 0x00, 0x01];
    let frame = Frame::parse(&header).unwrap();

    assert_eq!(frame.length, 10);
    assert_eq!(frame.frame_type, FrameType::Data);
    assert_eq!(frame.stream_id, 1);
    assert!(!frame.is_end_stream());
}

#[test]
fn test_parse_headers_with_end_stream() {
    // HEADERS frame: length=100, type=0x1, flags=0x5 (END_STREAM|END_HEADERS), stream=1
    let header = [0x00, 0x00, 0x64, 0x01, 0x05, 0x00, 0x00, 0x00, 0x01];
    let frame = Frame::parse(&header).unwrap();

    assert_eq!(frame.length, 100);
    assert_eq!(frame.frame_type, FrameType::Headers);
    assert!(frame.is_end_stream());
    assert!(frame.is_end_headers());
}

#[test]
fn test_parse_with_large_stream_id() {
    // Stream ID = 0x7FFFFFFF (max 31-bit value)
    let header = [0x00, 0x00, 0x00, 0x00, 0x00, 0x7F, 0xFF, 0xFF, 0xFF];
    let frame = Frame::parse(&header).unwrap();

    assert_eq!(frame.stream_id, 0x7FFFFFFF);
}

#[test]
fn test_parse_too_short() {
    let header = [0x00, 0x00]; // Only 2 bytes
    assert!(Frame::parse(&header).is_err());
}

#[test]
fn test_frame_display() {
    let header = [0x00, 0x00, 0x0A, 0x00, 0x01, 0x00, 0x00, 0x00, 0x01];
    let frame = Frame::parse(&header).unwrap();
    let display = frame.to_string();
    assert!(display.contains("DATA"));
    assert!(display.contains("length=10"));
    assert!(display.contains("stream=1"));
}
