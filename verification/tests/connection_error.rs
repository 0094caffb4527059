use scred_http::h2::connection_error::{ConnectionError, ConnectionErrorCode, ConnectionErrorManager, ConnectionState, GoAwayFrame};

#[test]
fn test_connection_error_code_conversion() {
    assert_eq!(
        ConnectionErrorCode::from_u32(0x0),
        Some(ConnectionErrorCode::NoError)
    );
    assert_eq!(
        ConnectionErrorCode::from_u32(0x4),
        Some(ConnectionErrorCode::SettingsTimeout)
    );
}

#[test]
fn test_connection_error_code_name() {
    assert_eq!(
        ConnectionErrorCode::ProtocolError.name(),
        "PROTOCOL_ERROR"
    );
    assert_eq!(
        ConnectionErrorCode::SettingsTimeout.name(),
        "SETTINGS_TIMEOUT"
    );
}

#[test]
fn test_goaway_frame_encode() {
    let goaway = GoAwayFrame::new(100, ConnectionErrorCode::ProtocolError);
    let payload = goaway.encode();

    assert!(payload.len() >= 8);
    // Last stream ID should be 100
    assert_eq!(
        u32::from_be_bytes([payload[0], payload[1], payload[2], payload[3]]),
        100
    );
    // Error code should be 1
    assert_eq!(
        u32::from_be_bytes([payload[4], payload[5], payload[6], payload[7]]),
        1
    );
}

#[test]
fn test_goaway_frame_parse() {
    let mut data = vec![0x00, 0x00, 0x00, 0x64]; // last_stream_id = 100
    data.extend_from_slice(&[0x00, 0x00, 0x00, 0x01]); // error_code = 1

    let goaway = GoAwayFrame::parse(&data).unwrap();
    assert_eq!(goaway.last_stream_id, 100);
    assert_eq!(goaway.error_code, ConnectionErrorCode::ProtocolError);
}

#[test]
fn test_goaway_frame_with_debug_data() {
    let debug = b"Connection closed due to timeout".to_vec();
    let goaway =
        GoAwayFrame::with_debug(50, ConnectionErrorCode::SettingsTimeout, debug.clone())
            .unwrap();

    assert_eq!(goaway.debug_data, debug);
    let payload = goaway.encode();
    assert!(payload.len() > 8);
}

#[test]
fn test_goaway_frame_debug_data_too_large() {
    let debug = vec![0u8; 20000]; // Too large
    let result = GoAwayFrame::with_debug(50, ConnectionErrorCode::NoError, debug);
    assert!(result.is_err());
}

#[test]
fn test_goaway_frame_parse_too_short() {
    let data = vec![0x00, 0x00, 0x00]; // Only 3 bytes
    let result = GoAwayFrame::parse(&data);
    assert!(result.is_err());
}

#[test]
fn test_connection_error_creation() {
    let error =
        ConnectionError::new(ConnectionErrorCode::ProtocolError, "Invalid frame".to_string());

    assert_eq!(error.error_code, ConnectionErrorCode::ProtocolError);
    assert_eq!(error.description, "Invalid frame");
    assert_eq!(error.stream_id, None);
}

#[test]
fn test_connection_error_with_stream() {
    let error = ConnectionError::with_stream(
        ConnectionErrorCode::FlowControlError,
        "Window exceeded".to_string(),
        5,
    );

    assert_eq!(error.stream_id, Some(5));
}

#[test]
fn test_error_manager_record() {
    let mut manager = ConnectionErrorManager::new();
    let error = ConnectionError::new(
        ConnectionErrorCode::ProtocolError,
        "Test error".to_string(),
    );

    manager.record_error(error);
    assert_eq!(manager.error_count(), 1);
}

#[test]
fn test_error_manager_get_last() {
    let mut manager = ConnectionErrorManager::new();

    let error1 = ConnectionError::new(
        ConnectionErrorCode::ProtocolError,
        "Error 1".to_string(),
    );
    let error2 = ConnectionError::new(ConnectionErrorCode::InternalError, "Error 2".to_string());

    manager.record_error(error1);
    manager.record_error(error2);

    let last = manager.get_last_error().unwrap();
    assert_eq!(last.error_code, ConnectionErrorCode::InternalError);
}

#[test]
fn test_error_manager_state() {
    let mut manager = ConnectionErrorManager::new();

    assert!(manager.is_open());
    assert!(!manager.is_closed());

    manager.set_state(ConnectionState::Closed);
    assert!(!manager.is_open());
    assert!(manager.is_closed());
}

#[test]
fn test_error_manager_summary() {
    let mut manager = ConnectionErrorManager::new();

    manager.record_error(ConnectionError::new(
        ConnectionErrorCode::ProtocolError,
        "Error 1".to_string(),
    ));
    manager.record_error(ConnectionError::new(
        ConnectionErrorCode::ProtocolError,
        "Error 2".to_string(),
    ));
    manager.record_error(ConnectionError::new(
        ConnectionErrorCode::InternalError,
        "Error 3".to_string(),
    ));

    let summary = manager.summary();
    assert_eq!(summary.get("PROTOCOL_ERROR"), Some(&2));
    assert_eq!(summary.get("INTERNAL_ERROR"), Some(&1));
}

#[test]
fn test_error_manager_clear() {
    let mut manager = ConnectionErrorManager::new();

    manager.record_error(ConnectionError::new(
        ConnectionErrorCode::ProtocolError,
        "Test".to_string(),
    ));

    assert_eq!(manager.error_count(), 1);
    manager.clear_errors();
    assert_eq!(manager.error_count(), 0);
}

#[test]
fn test_goaway_encode_decode_roundtrip() {
    let original = GoAwayFrame::new(200, ConnectionErrorCode::FlowControlError);
    let payload = original.encode();
    let decoded = GoAwayFrame::parse(&payload).unwrap();

    assert_eq!(decoded.last_stream_id, original.last_stream_id);
    assert_eq!(decoded.error_code, original.error_code);
}
