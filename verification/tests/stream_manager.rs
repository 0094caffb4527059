use scred_http::h2::stream_manager::{StreamLifecycle, StreamManager};



#[test]
fn test_create_stream() {
    let mut manager = StreamManager::new();

    manager.create_stream(1).unwrap();
    assert_eq!(manager.active_stream_count(), 1);
    assert_eq!(manager.stream_state(1), Some(StreamLifecycle::Idle));
}

#[test]
fn test_duplicate_stream_error() {
    let mut manager = StreamManager::new();

    manager.create_stream(1).unwrap();
    let result = manager.create_stream(1);
    assert!(result.is_err());
}

#[test]
fn test_stream_lifecycle_transitions() {
    let mut manager = StreamManager::new();

    manager.create_stream(1).unwrap();
    assert_eq!(manager.stream_state(1), Some(StreamLifecycle::Idle));

    // Add headers: Idle → Open
    let headers = http::HeaderMap::new();
    manager.add_headers(1, headers).unwrap();
    assert_eq!(manager.stream_state(1), Some(StreamLifecycle::Open));

    // End stream: Open → HalfClosedLocal
    manager.end_stream(1).unwrap();
    assert_eq!(
        manager.stream_state(1),
        Some(StreamLifecycle::HalfClosedLocal)
    );

    // Add response: HalfClosedLocal → HalfClosedRemote
    let headers = http::HeaderMap::new();
    manager.add_response(1, 200, headers, vec![]).unwrap();
    assert_eq!(
        manager.stream_state(1),
        Some(StreamLifecycle::HalfClosedRemote)
    );

    // Close stream: HalfClosedRemote → Closed
    manager.close_stream(1).unwrap();
    assert_eq!(manager.stream_state(1), Some(StreamLifecycle::Closed));
}

#[test]
fn test_window_management() {
    let mut manager = StreamManager::new();

    manager.create_stream(1).unwrap();

    // Consume connection window
    assert!(manager.consume_connection_window(1000).is_ok());
    assert_eq!(manager.connection_window, 65535 - 1000);

    // Restore connection window
    manager.restore_connection_window(500);
    assert_eq!(manager.connection_window, 65535 - 500);

    // Consume stream window
    assert!(manager.consume_stream_window(1, 2000).is_ok());

    // Exceed window
    let result = manager.consume_stream_window(1, 100000);
    assert!(result.is_err());
}

#[test]
fn test_multiple_streams() {
    let mut manager = StreamManager::new();

    // Create multiple streams with different IDs
    manager.create_stream(1).unwrap();
    manager.create_stream(3).unwrap();
    manager.create_stream(5).unwrap();

    assert_eq!(manager.active_stream_count(), 3);

    let active = manager.active_streams();
    assert!(active.contains(&1));
    assert!(active.contains(&3));
    assert!(active.contains(&5));
}

#[test]
fn stream_manager_test_reset_stream() {
    let mut manager = StreamManager::new();

    manager.create_stream(1).unwrap();
    manager.reset_stream(1).unwrap();

    assert_eq!(manager.stream_state(1), Some(StreamLifecycle::Reset));
    assert_eq!(manager.active_stream_count(), 0);
}

#[test]
fn manager_windows_and_limits() {
    let mut m = StreamManager::new();
    for id in 0..100u32 {
        m.create_stream(2 * id + 1).unwrap();
    }
    assert_eq!(m.create_stream(1001).unwrap_err(), "Max concurrent streams reached: 100 (limit: 100)");
    assert_eq!(m.consume_connection_window(70000).unwrap_err(), "Connection window exhausted: need 70000, have 65535");
    m.consume_connection_window(535).unwrap();
    m.restore_connection_window(10);
    assert_eq!(m.stats().connection_window, 65010);
    m.consume_stream_window(1, 65535).unwrap();
    assert_eq!(m.consume_stream_window(1, 1).unwrap_err(), "Stream 1 window exhausted: need 1, have 0");
    assert_eq!(m.consume_stream_window(2, 1).unwrap_err(), "Stream 2 not found");
    m.restore_stream_window(1, 5).unwrap();
    m.consume_stream_window(1, 5).unwrap();
    m.close_stream(1).unwrap();
    assert_eq!(m.stream_state(1), Some(StreamLifecycle::Closed));
    assert_eq!(m.active_stream_count(), 99);
    m.reset_stream(3).unwrap();
    assert_eq!(m.stream_state(3), Some(StreamLifecycle::Reset));
    assert!(m.reset_stream(2).is_err());
    assert_eq!(m.active_streams().len(), 98);
}
