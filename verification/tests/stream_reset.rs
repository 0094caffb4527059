use scred_http::h2::stream_reset::{ErrorCode, RstStreamFrame, StreamReset, StreamResetManager};

#[test]
fn test_error_code_conversion() {
    assert_eq!(ErrorCode::from_u32(0x0), Some(ErrorCode::NoError));
    assert_eq!(ErrorCode::from_u32(0x1), Some(ErrorCode::ProtocolError));
    assert_eq!(ErrorCode::from_u32(0x3), Some(ErrorCode::FlowControlError));
    assert_eq!(ErrorCode::from_u32(0x8), Some(ErrorCode::CancelError));
}

#[test]
fn test_error_code_unknown() {
    assert_eq!(ErrorCode::from_u32(0xFF), None);
    assert_eq!(ErrorCode::from_u32(0x999), None);
}

#[test]
fn test_error_code_as_u32() {
    assert_eq!(ErrorCode::NoError.as_u32(), 0x0);
    assert_eq!(ErrorCode::ProtocolError.as_u32(), 0x1);
    assert_eq!(ErrorCode::FlowControlError.as_u32(), 0x3);
}

#[test]
fn test_error_code_name() {
    assert_eq!(ErrorCode::NoError.name(), "NO_ERROR");
    assert_eq!(ErrorCode::ProtocolError.name(), "PROTOCOL_ERROR");
    assert_eq!(ErrorCode::FlowControlError.name(), "FLOW_CONTROL_ERROR");
}

#[test]
fn test_rst_stream_encode() {
    let payload = RstStreamFrame::encode(ErrorCode::ProtocolError);
    assert_eq!(payload.len(), 4);
    assert_eq!(payload, vec![0x00, 0x00, 0x00, 0x01]);
}

#[test]
fn test_rst_stream_parse() {
    let payload = vec![0x00, 0x00, 0x00, 0x01];
    let error_code = RstStreamFrame::parse(&payload).unwrap();
    assert_eq!(error_code, ErrorCode::ProtocolError);
}

#[test]
fn test_rst_stream_parse_cancel() {
    let payload = vec![0x00, 0x00, 0x00, 0x08];
    let error_code = RstStreamFrame::parse(&payload).unwrap();
    assert_eq!(error_code, ErrorCode::CancelError);
}

#[test]
fn test_rst_stream_parse_invalid_size() {
    let payload = vec![0x00, 0x00, 0x01]; // Only 3 bytes
    let result = RstStreamFrame::parse(&payload);
    assert!(result.is_err());
}

#[test]
fn test_rst_stream_parse_unknown_code() {
    let payload = vec![0xFF, 0xFF, 0xFF, 0xFF];
    let result = RstStreamFrame::parse(&payload);
    assert!(result.is_err());
}

#[test]
fn test_rst_stream_validate_valid() {
    let result = RstStreamFrame::validate(1);
    assert!(result.is_ok());

    let result = RstStreamFrame::validate(100);
    assert!(result.is_ok());
}

#[test]
fn test_rst_stream_validate_stream_zero() {
    let result = RstStreamFrame::validate(0);
    assert!(result.is_err());
}

#[test]
fn test_stream_reset_creation() {
    let reset = StreamReset::new(1, ErrorCode::ProtocolError);
    assert_eq!(reset.stream_id, 1);
    assert_eq!(reset.error_code, ErrorCode::ProtocolError);
}

#[test]
fn test_stream_reset_with_time() {
    let reset = StreamReset::with_time(5, ErrorCode::CancelError, 12345);
    assert_eq!(reset.stream_id, 5);
    assert_eq!(reset.error_code, ErrorCode::CancelError);
    assert_eq!(reset.reset_time, 12345);
}

#[test]
fn test_reset_manager_record() {
    let mut manager = StreamResetManager::new();
    let reset = StreamReset::new(1, ErrorCode::ProtocolError);

    let result = manager.record_reset(reset);
    assert!(result.is_ok());
    assert_eq!(manager.reset_count(), 1);
}

#[test]
fn test_reset_manager_duplicate() {
    let mut manager = StreamResetManager::new();
    let reset1 = StreamReset::new(1, ErrorCode::ProtocolError);
    let reset2 = StreamReset::new(1, ErrorCode::CancelError);

    let _ = manager.record_reset(reset1);
    let result = manager.record_reset(reset2);
    assert!(result.is_err());
}

#[test]
fn test_reset_manager_get() {
    let mut manager = StreamResetManager::new();
    let reset = StreamReset::new(3, ErrorCode::FlowControlError);

    let _ = manager.record_reset(reset);
    let retrieved = manager.get_reset(3).unwrap();
    assert_eq!(retrieved.stream_id, 3);
    assert_eq!(retrieved.error_code, ErrorCode::FlowControlError);
}

#[test]
fn test_reset_manager_is_reset() {
    let mut manager = StreamResetManager::new();
    let reset = StreamReset::new(5, ErrorCode::CancelError);

    assert!(!manager.is_reset(5));
    let _ = manager.record_reset(reset);
    assert!(manager.is_reset(5));
}

#[test]
fn test_reset_manager_get_all() {
    let mut manager = StreamResetManager::new();

    let _ = manager.record_reset(StreamReset::new(1, ErrorCode::ProtocolError));
    let _ = manager.record_reset(StreamReset::new(3, ErrorCode::CancelError));
    let _ = manager.record_reset(StreamReset::new(5, ErrorCode::FlowControlError));

    let resets = manager.get_all_resets();
    assert_eq!(resets.len(), 3);
    assert!(resets.contains(&1));
    assert!(resets.contains(&3));
    assert!(resets.contains(&5));
}

#[test]
fn test_reset_manager_stats() {
    let mut manager = StreamResetManager::new();

    let _ = manager.record_reset(StreamReset::new(1, ErrorCode::ProtocolError));
    let _ = manager.record_reset(StreamReset::new(3, ErrorCode::ProtocolError));
    let _ = manager.record_reset(StreamReset::new(5, ErrorCode::CancelError));

    let stats = manager.stats();
    assert_eq!(stats.total_resets, 3);
    assert_eq!(stats.reset_streams, 3);
    assert_eq!(stats.by_error_code.get(&ErrorCode::ProtocolError), Some(&2));
    assert_eq!(stats.by_error_code.get(&ErrorCode::CancelError), Some(&1));
}

#[test]
fn test_reset_manager_clear() {
    let mut manager = StreamResetManager::new();

    let _ = manager.record_reset(StreamReset::new(1, ErrorCode::ProtocolError));
    assert_eq!(manager.reset_count(), 1);

    manager.clear();
    assert_eq!(manager.reset_count(), 0);
}

#[test]
fn test_rst_stream_encode_decode_roundtrip() {
    let original = ErrorCode::FlowControlError;
    let payload = RstStreamFrame::encode(original);
    let decoded = RstStreamFrame::parse(&payload).unwrap();

    assert_eq!(decoded, original);
}
