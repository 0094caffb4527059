use scred_http::h2::h2_proxy_bridge::{build_settings_ack_frame, build_settings_frame, parse_frame_header, BridgeConfig, H2ProxyBridge, StreamState};
#[test]
fn test_bridge_config_defaults() {
    let config = BridgeConfig::default();
    assert!(config.redact_headers);
    assert_eq!(config.max_request_size, 10 * 1024 * 1024);
    assert_eq!(config.max_response_size, 100 * 1024 * 1024);
}

#[test]
fn test_stream_state_new() {
    let stream = StreamState::new(1);
    assert_eq!(stream.stream_id, 1);
    assert!(stream.method.is_empty());
    assert!(!stream.request_complete);
}

#[test]
fn test_build_http11_request() {
    let config = BridgeConfig::default();
    let mut bridge = H2ProxyBridge::new(config);

    // Add a stream with request data
    bridge.streams.insert(1, StreamState::new(1));
    let stream = bridge.streams.get_mut(&1).unwrap();
    stream.method = "GET".to_string();
    stream.path = "/test".to_string();
    stream.headers.push(("host".to_string(), "example.com".to_string()));

    let request = bridge.build_http11_request(1).unwrap();
    assert!(request.contains("GET /test HTTP/1.1"));
    assert!(request.contains("host: example.com"));
}

#[test]
fn test_parse_status_line_200() {
    // Test status line parsing directly
    let status_line = "HTTP/1.1 200 OK";
    let parts: Vec<&str> = status_line.split_whitespace().collect();
    let status: u32 = parts[1].parse().unwrap();
    assert_eq!(status, 200);
}

#[test]
fn test_parse_status_line_404() {
    // Test 404 parsing
    let status_line = "HTTP/1.1 404 Not Found";
    let parts: Vec<&str> = status_line.split_whitespace().collect();
    let status: u32 = parts[1].parse().unwrap();
    assert_eq!(status, 404);
}

#[test]
fn test_stream_accumulates_request_body() {
    let config = BridgeConfig::default();
    let mut bridge = H2ProxyBridge::new(config);

    // Create stream and add data
    bridge.streams.insert(1, StreamState::new(1));
    let stream = bridge.streams.get_mut(&1).unwrap();
    stream.method = "POST".to_string();
    stream.path = "/upload".to_string();
    stream.request_body.extend_from_slice(b"test data");

    assert_eq!(stream.request_body.len(), 9);
    assert_eq!(stream.request_body, b"test data");
}

#[test]
fn test_build_settings_frame() {
    let frame = build_settings_frame();
    assert_eq!(frame.len(), 9);
    // Type should be 0x04 (SETTINGS)
    assert_eq!(frame[3], 0x04);
    // Flags should be 0
    assert_eq!(frame[4], 0x00);
    // Stream ID should be 0
    assert_eq!(frame[5..9], [0, 0, 0, 0]);
}

#[test]
fn test_build_settings_ack_frame() {
    let frame = build_settings_ack_frame();
    assert_eq!(frame.len(), 9);
    // Type should be 0x04 (SETTINGS)
    assert_eq!(frame[3], 0x04);
    // Flags should be 0x01 (ACK)
    assert_eq!(frame[4], 0x01);
}

#[test]
fn test_decode_hpack_headers() {
    let config = BridgeConfig::default();
    let mut bridge = H2ProxyBridge::new(config);

    // Simple GET request headers (pre-encoded with HPACK)
    // :method = GET, :path = /test, :scheme = https, :authority = example.com
    // This is a simplified test with literal headers
    let payload = vec![
        0x82, // Indexed Header Field Representation (GET)
        0x86, // Indexed Header Field Representation (/index.html -> /test needs literal)
    ];

    // Since we don't have real HPACK-encoded data, test that the function exists
    // and properly handles the HpackDecoder
    assert!(bridge.hpack_decoder.decode(&[]).is_ok() || bridge.hpack_decoder.decode(&[]).is_err());
}

#[test]
fn test_handle_headers_with_hpack_missing_method() {
    let config = BridgeConfig::default();
    let mut bridge = H2ProxyBridge::new(config);

    // Empty payload should fail or return no headers
    let result = bridge.handle_client_headers_with_hpack(1, &[], false);
    // Should either error or return successfully with empty headers
    let _ = result;
}

#[test]
fn test_handle_headers_with_hpack_valid() {
    let config = BridgeConfig::default();
    let mut bridge = H2ProxyBridge::new(config);

    // Manually create headers since HPACK encoding is complex
    // Just verify stream state is created correctly
    bridge.streams.insert(1, StreamState::new(1));
    let stream = bridge.streams.get_mut(&1).unwrap();
    stream.method = "GET".to_string();
    stream.path = "/test".to_string();

    assert_eq!(stream.method, "GET");
    assert_eq!(stream.path, "/test");
}

#[test]
fn test_parse_frame_header() {
    // Build a simple SETTINGS frame
    let mut frame_data = vec![
        0x00, 0x00, 0x00, // Length: 0
        0x04, // Type: SETTINGS
        0x00, // Flags: 0
        0x00, 0x00, 0x00, 0x00, // Stream ID: 0
    ];

    let (frame_type, flags, stream_id, payload) = parse_frame_header(&frame_data).unwrap();
    assert_eq!(frame_type, 0x04);
    assert_eq!(flags, 0x00);
    assert_eq!(stream_id, 0);
    assert_eq!(payload.len(), 0);
}

#[test]
fn test_pending_streams_count() {
    let config = BridgeConfig::default();
    let mut bridge = H2ProxyBridge::new(config);

    // No streams yet
    assert_eq!(bridge.pending_streams(), 0);

    // Add complete stream
    bridge.streams.insert(1, StreamState::new(1));
    bridge.streams.get_mut(&1).unwrap().request_complete = true;
    assert_eq!(bridge.pending_streams(), 1);

    // Add another complete stream
    bridge.streams.insert(3, StreamState::new(3));
    bridge.streams.get_mut(&3).unwrap().request_complete = true;
    assert_eq!(bridge.pending_streams(), 2);

    // Mark one as sent
    bridge.streams.get_mut(&1).unwrap().response_sent = true;
    assert_eq!(bridge.pending_streams(), 1);
}

#[test]
fn test_next_pending_stream_fifo() {
    let config = BridgeConfig::default();
    let mut bridge = H2ProxyBridge::new(config);

    // Add streams in order
    for id in &[1, 3, 5] {
        bridge.streams.insert(*id, StreamState::new(*id));
        bridge.streams.get_mut(id).unwrap().request_complete = true;
    }

    // Should get a pending stream (HashMap doesn't guarantee order)
    let first = bridge.next_pending_stream();
    assert!(first.is_some());
    let first_id = first.unwrap();
    assert!([1, 3, 5].contains(&first_id));

    // Mark first as sent
    bridge.mark_response_sent(first_id).unwrap();
    
    // Should get another pending stream
    let second = bridge.next_pending_stream();
    assert!(second.is_some());
    let second_id = second.unwrap();
    assert!(second_id != first_id);
    assert!([1, 3, 5].contains(&second_id));
}

#[test]
fn test_mark_response_sent() {
    let config = BridgeConfig::default();
    let mut bridge = H2ProxyBridge::new(config);

    bridge.streams.insert(1, StreamState::new(1));
    assert!(!bridge.streams.get(&1).unwrap().response_sent);

    bridge.mark_response_sent(1).unwrap();
    assert!(bridge.streams.get(&1).unwrap().response_sent);

    // Mark non-existent stream should error
    let result = bridge.mark_response_sent(999);
    assert!(result.is_err());
}

#[test]
fn test_all_streams_complete() {
    let config = BridgeConfig::default();
    let mut bridge = H2ProxyBridge::new(config);

    // No streams = complete
    assert!(bridge.all_streams_complete());

    // Add incomplete stream
    bridge.streams.insert(1, StreamState::new(1));
    assert!(!bridge.all_streams_complete());

    // Mark as sent
    bridge.streams.get_mut(&1).unwrap().response_sent = true;
    assert!(bridge.all_streams_complete());
}

#[test]
fn h2_proxy_bridge_test_cleanup_stream() {
    let config = BridgeConfig::default();
    let mut bridge = H2ProxyBridge::new(config);

    bridge.streams.insert(1, StreamState::new(1));
    assert_eq!(bridge.streams.len(), 1);

    bridge.cleanup_stream(1);
    assert_eq!(bridge.streams.len(), 0);

    // Cleanup non-existent stream is safe
    bridge.cleanup_stream(999);
    assert_eq!(bridge.streams.len(), 0);
}

#[test]
fn test_request_response_cycle() {
    let config = BridgeConfig::default();
    let mut bridge = H2ProxyBridge::new(config);

    // Simulate receiving a request
    bridge.streams.insert(1, StreamState::new(1));
    {
        let stream = bridge.streams.get_mut(&1).unwrap();
        stream.method = "GET".to_string();
        stream.path = "/api".to_string();
        stream.headers.push(("authorization".to_string(), "Bearer token".to_string()));
        stream.request_complete = true;
    }

    // Check pending streams
    assert_eq!(bridge.pending_streams(), 1);
    assert_eq!(bridge.next_pending_stream(), Some(1));

    // Simulate response received
    {
        let stream = bridge.streams.get_mut(&1).unwrap();
        stream.response_status = 200;
        stream.response_headers.push(("content-type".to_string(), "application/json".to_string()));
    }

    // Mark as sent
    bridge.mark_response_sent(1).unwrap();
    assert_eq!(bridge.pending_streams(), 0);
    assert!(bridge.all_streams_complete());

    // Cleanup
    bridge.cleanup_stream(1);
    assert_eq!(bridge.streams.len(), 0);
}

#[test]
fn test_get_stream_response() {
    let config = BridgeConfig::default();
    let mut bridge = H2ProxyBridge::new(config);

    bridge.streams.insert(1, StreamState::new(1));
    {
        let stream = bridge.streams.get_mut(&1).unwrap();
        stream.response_status = 200;
        stream.response_headers.push(("content-type".to_string(), "application/json".to_string()));
        stream.response_body.extend_from_slice(b"{}");
    }

    let (status, headers, body) = bridge.get_stream_response(1).unwrap();
    assert_eq!(status, 200);
    assert_eq!(headers.len(), 1);
    assert_eq!(body, b"{}");
}

#[test]
fn test_has_response() {
    let config = BridgeConfig::default();
    let mut bridge = H2ProxyBridge::new(config);

    bridge.streams.insert(1, StreamState::new(1));
    assert!(!bridge.has_response(1));

    bridge.streams.get_mut(&1).unwrap().response_status = 200;
    assert!(bridge.has_response(1));

    assert!(!bridge.has_response(999));
}

#[test]
fn test_add_response_data() {
    let config = BridgeConfig::default();
    let mut bridge = H2ProxyBridge::new(config);

    bridge.streams.insert(1, StreamState::new(1));

    bridge.add_response_data(1, b"Hello").unwrap();
    bridge.add_response_data(1, b" World").unwrap();

    let (_, _, body) = bridge.get_stream_response(1).unwrap();
    assert_eq!(body, b"Hello World");

    // Adding non-existent stream should error
    let result = bridge.add_response_data(999, b"data");
    assert!(result.is_err());
}

#[test]
fn test_add_request_data() {
    let config = BridgeConfig::default();
    let mut bridge = H2ProxyBridge::new(config);

    bridge.streams.insert(1, StreamState::new(1));

    bridge.add_request_data(1, b"test").unwrap();
    assert_eq!(bridge.streams.get(&1).unwrap().request_body, b"test");

    bridge.add_request_data(1, b"data").unwrap();
    assert_eq!(bridge.streams.get(&1).unwrap().request_body, b"testdata");

    // Adding non-existent stream should error
    let result = bridge.add_request_data(999, b"data");
    assert!(result.is_err());
}

#[test]
fn test_request_body_size_limit() {
    let mut config = BridgeConfig::default();
    config.max_request_size = 10; // Very small for testing

    let mut bridge = H2ProxyBridge::new(config);

    bridge.streams.insert(1, StreamState::new(1));

    // First chunk fits
    bridge.add_request_data(1, b"hello").unwrap();
    assert_eq!(bridge.streams.get(&1).unwrap().request_body.len(), 5);

    // Second chunk fits
    bridge.add_request_data(1, b"world").unwrap();
    assert_eq!(bridge.streams.get(&1).unwrap().request_body.len(), 10);

    // Third chunk exceeds limit
    let result = bridge.add_request_data(1, b"!");
    assert!(result.is_err());
}

#[test]
fn test_response_body_size_limit() {
    let mut config = BridgeConfig::default();
    config.max_response_size = 15; // Small for testing

    let mut bridge = H2ProxyBridge::new(config);

    bridge.streams.insert(1, StreamState::new(1));

    // First chunk fits (5 bytes)
    bridge.add_response_data(1, b"hello").unwrap();
    
    // Second chunk fits (10 total)
    bridge.add_response_data(1, b"world").unwrap();
    
    // Check we're at 10 bytes
    assert_eq!(bridge.streams.get(&1).unwrap().response_body.len(), 10);

    // Try to add 10 more (exceeds 15 limit)
    let result = bridge.add_response_data(1, b"toolonger");
    assert!(result.is_err());
}

// E2E tests for full bridge scenarios

#[test]
fn test_full_bridge_scenario() {
    // Simulates: H2 client -> bridge -> HTTP/1.1 proxy -> upstream
    let config = BridgeConfig::default();
    let mut bridge = H2ProxyBridge::new(config);

    // Stream 1: GET request
    bridge.streams.insert(1, StreamState::new(1));
    {
        let s = bridge.streams.get_mut(&1).unwrap();
        s.method = "GET".to_string();
        s.path = "/api/users".to_string();
        s.headers.push(("authorization".to_string(), "Bearer secret123".to_string()));
        s.request_complete = true;
    }

    // Stream 3: POST request
    bridge.streams.insert(3, StreamState::new(3));
    {
        let s = bridge.streams.get_mut(&3).unwrap();
        s.method = "POST".to_string();
        s.path = "/api/data".to_string();
        s.headers.push(("content-type".to_string(), "application/json".to_string()));
        s.request_body = b"{\"key\": \"value\"}".to_vec();
        s.request_complete = true;
    }

    // Both streams ready to send
    assert_eq!(bridge.pending_streams(), 2);

    // Simulate sending to proxy and getting responses
    // Stream 1 response
    {
        let s = bridge.streams.get_mut(&1).unwrap();
        s.response_status = 200;
        s.response_headers.push(("content-type".to_string(), "application/json".to_string()));
        s.response_body = b"[{\"id\": 1}]".to_vec();
    }

    // Stream 3 response
    {
        let s = bridge.streams.get_mut(&3).unwrap();
        s.response_status = 201;
        s.response_headers.push(("content-type".to_string(), "application/json".to_string()));
        s.response_body = b"{\"id\": 42}".to_vec();
    }

    // Send responses
    bridge.mark_response_sent(1).unwrap();
    bridge.mark_response_sent(3).unwrap();

    // All complete
    assert!(bridge.all_streams_complete());

    // Verify responses
    let (status1, _, body1) = bridge.get_stream_response(1).unwrap();
    assert_eq!(status1, 200);
    assert_eq!(body1, b"[{\"id\": 1}]");

    let (status3, _, body3) = bridge.get_stream_response(3).unwrap();
    assert_eq!(status3, 201);
    assert_eq!(body3, b"{\"id\": 42}");

    // Cleanup
    bridge.cleanup_stream(1);
    bridge.cleanup_stream(3);
    assert_eq!(bridge.streams.len(), 0);
}

#[test]
fn test_concurrent_streams_isolation() {
    // Verify streams don't interfere with each other
    let config = BridgeConfig::default();
    let mut bridge = H2ProxyBridge::new(config);

    // Create 5 concurrent streams
    for i in 1..=5 {
        let stream_id = i * 2 - 1; // 1, 3, 5, 7, 9
        bridge.streams.insert(stream_id, StreamState::new(stream_id));
        let s = bridge.streams.get_mut(&stream_id).unwrap();
        s.method = "GET".to_string();
        s.path = format!("/api/{}", i);
        s.request_complete = true;
    }

    assert_eq!(bridge.pending_streams(), 5);

    // Add different responses to each
    for i in 1..=5 {
        let stream_id = i * 2 - 1;
        let s = bridge.streams.get_mut(&stream_id).unwrap();
        s.response_status = 200 + i as u32;
        s.response_body = format!("Response {}", i).into_bytes();
    }

    // Verify isolation - each stream has its own data
    for i in 1..=5 {
        let stream_id = i * 2 - 1;
        let (status, _, body) = bridge.get_stream_response(stream_id).unwrap();
        assert_eq!(status, 200 + i as u32);
        assert_eq!(body, format!("Response {}", i).into_bytes());
    }
}

#[test]
fn test_multiple_request_response_cycles() {
    // Simulate multiple sequential requests through same bridge
    let config = BridgeConfig::default();
    let mut bridge = H2ProxyBridge::new(config);

    for cycle in 1..=3 {
        let stream_id = (cycle * 2 - 1) as u32;
        
        // Create request
        bridge.streams.insert(stream_id, StreamState::new(stream_id));
        {
            let s = bridge.streams.get_mut(&stream_id).unwrap();
            s.method = "GET".to_string();
            s.path = format!("/api/cycle{}", cycle);
            s.request_complete = true;
        }

        // Get pending stream
        let pending = bridge.next_pending_stream();
        assert!(pending.is_some());

        // Add response
        {
            let s = bridge.streams.get_mut(&stream_id).unwrap();
            s.response_status = 200;
            s.response_body = format!("Cycle {} response", cycle).into_bytes();
        }

        // Mark sent
        bridge.mark_response_sent(stream_id).unwrap();

        // Get response
        let (status, _, body) = bridge.get_stream_response(stream_id).unwrap();
        assert_eq!(status, 200);
        assert_eq!(body, format!("Cycle {} response", cycle).into_bytes());

        // Cleanup
        bridge.cleanup_stream(stream_id);
    }

    // All cleaned up
    assert_eq!(bridge.streams.len(), 0);
}

#[test]
fn test_flow_control_window_tracking() {
    let config = BridgeConfig::default();
    let mut bridge = H2ProxyBridge::new(config);

    // Check connection window
    let conn_window = bridge.connection_window_available();
    assert_eq!(conn_window, 65535); // Default RFC 7540 window

    // Handle WINDOW_UPDATE for connection (stream_id = 0)
    let result = bridge.handle_window_update(0, 1000);
    assert!(result.is_ok());

    // New window should be 65535 + 1000
    let new_conn_window = bridge.connection_window_available();
    assert_eq!(new_conn_window, 66535);
}

#[test]
fn test_flow_control_stream_window() {
    let config = BridgeConfig::default();
    let mut bridge = H2ProxyBridge::new(config);

    // Create stream
    bridge.create_stream_with_flow_control(1).unwrap();

    // Check stream window
    let stream_window = bridge.stream_window_available(1);
    assert_eq!(stream_window, Some(65535));

    // Update stream window
    bridge.handle_window_update(1, 500).unwrap();
    let updated_window = bridge.stream_window_available(1);
    assert_eq!(updated_window, Some(66035));

    // Cleanup
    bridge.cleanup_stream_with_flow_control(1);
    let cleaned_window = bridge.stream_window_available(1);
    assert_eq!(cleaned_window, None);
}

#[test]
fn test_flow_control_consume_window() {
    let config = BridgeConfig::default();
    let mut bridge = H2ProxyBridge::new(config);

    // Create stream
    bridge.create_stream_with_flow_control(3).unwrap();

    // Consume some bytes
    let result = bridge.consume_window(3, 1000);
    assert!(result.is_ok());

    // Window should be reduced
    let stream_window = bridge.stream_window_available(3);
    assert_eq!(stream_window, Some(65535 - 1000));

    // Consume more
    bridge.consume_window(3, 500).unwrap();
    let stream_window = bridge.stream_window_available(3);
    assert_eq!(stream_window, Some(65535 - 1500));
}

#[test]
fn test_flow_control_window_exhaustion_error() {
    let config = BridgeConfig::default();
    let mut bridge = H2ProxyBridge::new(config);

    // Create stream
    bridge.create_stream_with_flow_control(5).unwrap();

    // Try to consume more than available (65535 bytes)
    // First consume exactly the window
    let result = bridge.consume_window(5, 65535);
    assert!(result.is_ok());

    // Now consuming more should fail
    let result = bridge.consume_window(5, 1);
    assert!(result.is_err());
    assert!(result.unwrap_err().to_string().contains("window"));
}

#[test]
fn test_flow_control_stats() {
    let config = BridgeConfig::default();
    let mut bridge = H2ProxyBridge::new(config);

    // Create two streams
    bridge.create_stream_with_flow_control(1).unwrap();
    bridge.create_stream_with_flow_control(3).unwrap();

    // Get stats
    let (conn_window, stream_count, updates_sent, backpressure) = bridge.flow_control_stats();

    assert_eq!(conn_window, 65535); // Connection window
    assert_eq!(stream_count, 2); // Two streams
    assert_eq!(updates_sent, 0); // No updates yet
    assert_eq!(backpressure, 0); // No backpressure yet

    // Update window
    bridge.handle_window_update(0, 500).unwrap();
    let (new_conn_window, _, _, _) = bridge.flow_control_stats();
    assert_eq!(new_conn_window, 66035);
}

#[test]
fn test_flow_control_multiple_streams() {
    let config = BridgeConfig::default();
    let mut bridge = H2ProxyBridge::new(config);

    // Create multiple streams
    for stream_id in &[1, 3, 5, 7] {
        bridge.create_stream_with_flow_control(*stream_id).unwrap();
    }

    // Each stream should have independent window
    for stream_id in &[1, 3, 5, 7] {
        let window = bridge.stream_window_available(*stream_id);
        assert_eq!(window, Some(65535));
    }

    // Consume from stream 1
    bridge.consume_window(1, 1000).unwrap();
    assert_eq!(bridge.stream_window_available(1), Some(64535));

    // Stream 3 should be unaffected
    assert_eq!(bridge.stream_window_available(3), Some(65535));

    // Update stream 3
    bridge.handle_window_update(3, 500).unwrap();
    assert_eq!(bridge.stream_window_available(3), Some(66035));
}

#[test]
fn test_encode_window_update_frame_stream() {
    let config = BridgeConfig::default();
    let bridge = H2ProxyBridge::new(config);

    // Encode WINDOW_UPDATE for stream 1 with increment 1000
    let frame = bridge.encode_window_update_frame(1, 1000);

    // Frame should be 13 bytes (9 header + 4 payload)
    assert_eq!(frame.len(), 13);

    // Check frame header
    assert_eq!(frame[0], 0x00); // Length byte 1
    assert_eq!(frame[1], 0x00); // Length byte 2
    assert_eq!(frame[2], 0x04); // Length byte 3 (4 bytes payload)
    assert_eq!(frame[3], 0x08); // Type: WINDOW_UPDATE
    assert_eq!(frame[4], 0x00); // Flags: none

    // Check stream ID (1)
    assert_eq!(frame[5], 0x00);
    assert_eq!(frame[6], 0x00);
    assert_eq!(frame[7], 0x00);
    assert_eq!(frame[8], 0x01);

    // Check increment (1000 = 0x3E8)
    assert_eq!(frame[9], 0x00);
    assert_eq!(frame[10], 0x00);
    assert_eq!(frame[11], 0x03);
    assert_eq!(frame[12], 0xE8);
}

#[test]
fn test_encode_window_update_frame_connection() {
    let config = BridgeConfig::default();
    let bridge = H2ProxyBridge::new(config);

    // Encode WINDOW_UPDATE for connection (stream_id = 0)
    let frame = bridge.encode_window_update_frame(0, 5000);

    assert_eq!(frame.len(), 13);
    assert_eq!(frame[3], 0x08); // WINDOW_UPDATE type

    // Stream ID should be 0
    assert_eq!(frame[5], 0x00);
    assert_eq!(frame[6], 0x00);
    assert_eq!(frame[7], 0x00);
    assert_eq!(frame[8], 0x00);

    // Check increment (5000 = 0x1388)
    assert_eq!(frame[9], 0x00);
    assert_eq!(frame[10], 0x00);
    assert_eq!(frame[11], 0x13);
    assert_eq!(frame[12], 0x88);
}

#[test]
fn test_window_update_frame_large_increment() {
    let config = BridgeConfig::default();
    let bridge = H2ProxyBridge::new(config);

    // Large increment (max 31-bit value)
    let max_increment = (1u32 << 31) - 1;
    let frame = bridge.encode_window_update_frame(5, max_increment);

    assert_eq!(frame.len(), 13);
    assert_eq!(frame[3], 0x08); // WINDOW_UPDATE type

    // Verify increment is encoded correctly
    let decoded_increment = 
        (((frame[9] as u32) & 0x7F) << 24) |
        (((frame[10] as u32) & 0xFF) << 16) |
        (((frame[11] as u32) & 0xFF) << 8) |
        ((frame[12] as u32) & 0xFF);

    assert_eq!(decoded_increment, max_increment);
}

#[test]
fn test_next_stream_window_update() {
    let config = BridgeConfig::default();
    let mut bridge = H2ProxyBridge::new(config);

    // Create stream
    bridge.create_stream_with_flow_control(1).unwrap();

    // Consume enough to trigger update threshold (50% of 65535)
    bridge.consume_window(1, 32768).unwrap();

    // Should have a pending update
    let update = bridge.next_stream_window_update();
    assert!(update.is_some());
    let (stream_id, increment) = update.unwrap();
    assert_eq!(stream_id, 1);
    assert_eq!(increment, 32768);
}

#[test]
fn test_next_connection_window_update() {
    let config = BridgeConfig::default();
    let mut bridge = H2ProxyBridge::new(config);

    // Create stream to test connection window
    bridge.create_stream_with_flow_control(1).unwrap();

    // Consume enough on connection to trigger update
    bridge.consume_window(1, 32768).unwrap();

    // Should have a pending connection update
    let update = bridge.next_connection_window_update();
    assert!(update.is_some());
    let increment = update.unwrap();
    assert_eq!(increment, 32768);
}

#[test]
fn test_multiple_window_updates() {
    let config = BridgeConfig::default();
    let bridge = H2ProxyBridge::new(config);

    // Encode multiple WINDOW_UPDATE frames
    let frame1 = bridge.encode_window_update_frame(1, 5000);
    let frame2 = bridge.encode_window_update_frame(3, 10000);

    // Both should be valid 13-byte frames
    assert_eq!(frame1.len(), 13);
    assert_eq!(frame2.len(), 13);

    // Type should be WINDOW_UPDATE (0x08)
    assert_eq!(frame1[3], 0x08);
    assert_eq!(frame2[3], 0x08);

    // Stream IDs should be different
    let sid1 = (frame1[5] as u32) << 24 | (frame1[6] as u32) << 16 | (frame1[7] as u32) << 8 | frame1[8] as u32;
    let sid2 = (frame2[5] as u32) << 24 | (frame2[6] as u32) << 16 | (frame2[7] as u32) << 8 | frame2[8] as u32;
    assert_eq!(sid1, 1);
    assert_eq!(sid2, 3);
}

#[test]
fn test_backpressure_connection_exhaustion() {
    let config = BridgeConfig::default();
    let mut bridge = H2ProxyBridge::new(config);

    // Create stream
    bridge.create_stream_with_flow_control(1).unwrap();

    // Initially not backpressured
    assert!(!bridge.is_connection_backpressured());

    // Consume all connection window
    bridge.consume_window(1, 65535).unwrap();

    // Now connection should be backpressured
    assert!(bridge.is_connection_backpressured());
}

#[test]
fn test_backpressure_stream_exhaustion() {
    let config = BridgeConfig::default();
    let mut bridge = H2ProxyBridge::new(config);

    // Create stream
    bridge.create_stream_with_flow_control(1).unwrap();

    // Initially not backpressured
    assert!(!bridge.is_stream_backpressured(1));

    // Consume all stream window
    bridge.consume_window(1, 65535).unwrap();

    // Now stream should be backpressured
    assert!(bridge.is_stream_backpressured(1));

    // Other streams not affected
    bridge.create_stream_with_flow_control(3).unwrap();
    assert!(!bridge.is_stream_backpressured(3));
}

#[test]
fn test_backpressure_recovery() {
    let config = BridgeConfig::default();
    let mut bridge = H2ProxyBridge::new(config);

    // Create stream and exhaust window
    bridge.create_stream_with_flow_control(1).unwrap();
    bridge.consume_window(1, 65535).unwrap();
    assert!(bridge.is_stream_backpressured(1));

    // Send WINDOW_UPDATE to recover
    bridge.handle_window_update(1, 30000).unwrap();

    // Stream should no longer be backpressured
    assert!(!bridge.is_stream_backpressured(1));

    // Window should be 30000
    assert_eq!(bridge.stream_window_available(1), Some(30000));
}

#[test]
fn test_backpressure_stats() {
    let config = BridgeConfig::default();
    let mut bridge = H2ProxyBridge::new(config);

    // Create multiple streams
    bridge.create_stream_with_flow_control(1).unwrap();
    bridge.create_stream_with_flow_control(3).unwrap();
    bridge.create_stream_with_flow_control(5).unwrap();

    // Initially no backpressure
    let (events, count) = bridge.backpressure_stats();
    assert_eq!(events, 0);
    assert_eq!(count, 0);

    // Exhaust stream 1 only (exhaust its individual window, not connection)
    bridge.consume_window(1, 65535).unwrap();

    let (_, count) = bridge.backpressure_stats();
    assert_eq!(count, 1); // One backpressured stream

    // Streams 3 and 5 should not be backpressured (connection window exhausted, but streams have their own)
    // Since connection is exhausted, trying to consume on stream 3 would fail, so we check it's not backpressured yet
    assert!(!bridge.is_stream_backpressured(3));
    assert!(!bridge.is_stream_backpressured(5));
}

#[test]
fn test_task4_flow_control_with_request_response_cycle() {
    // Task 4: E2E flow control integration with actual request/response
    let config = BridgeConfig::default();
    let mut bridge = H2ProxyBridge::new(config);

    // Create stream with flow control
    bridge.create_stream_with_flow_control(1).unwrap();

    // Simulate receiving request data
    let request_data = b"GET /api/users HTTP/1.1\r\nHost: example.com\r\n\r\n";
    
    // Add request data (should not exhaust flow control for small request)
    bridge.add_request_data(1, request_data).unwrap();

    // Flow control should still have capacity
    let window = bridge.stream_window_available(1);
    assert!(window.is_some());
    assert!(window.unwrap() > 0);

    // Add response data
    let response_data = b"HTTP/1.1 200 OK\r\nContent-Length: 13\r\n\r\nHello, World!";
    bridge.add_response_data(1, response_data).unwrap();

    // Flow control on response side
    let (_, backpressured) = bridge.backpressure_stats();
    assert_eq!(backpressured, 0); // No backpressure for small response
}

#[test]
fn test_task4_large_file_transfer_flow_control() {
    // Task 4: Flow control with large file transfer
    let config = BridgeConfig::default();
    let mut bridge = H2ProxyBridge::new(config);

    bridge.create_stream_with_flow_control(1).unwrap();

    // Simulate receiving large file data
    // Window is 65535 bytes, so 100KB should exceed it
    let large_data = vec![0u8; 100 * 1024]; // 100 KB
    
    // Try to consume all at once (should fail due to window)
    let result = bridge.consume_window(1, large_data.len() as u32);
    assert!(result.is_err());

    // But consuming in chunks should work
    let chunk_size = 32000;
    let result = bridge.consume_window(1, chunk_size);
    assert!(result.is_ok());

    // After consuming 32000, we still haven't reached 50% threshold (need 32768)
    // Let's consume a bit more to trigger the update (need > 32767)
    let result = bridge.consume_window(1, 1000); // Total = 33000
    assert!(result.is_ok());

    // Now should be ready for update (consumed > 32767)
    let should_update = bridge.should_send_stream_window_update(1);
    assert!(should_update);
}

#[test]
fn test_task4_multiple_streams_concurrent_flow_control() {
    // Task 4: Multiple streams with independent flow control
    let config = BridgeConfig::default();
    let mut bridge = H2ProxyBridge::new(config);

    // Create 3 concurrent streams
    for stream_id in &[1, 3, 5] {
        bridge.create_stream_with_flow_control(*stream_id).unwrap();
    }

    // Each stream independently consumes data
    bridge.consume_window(1, 10000).unwrap();
    bridge.consume_window(3, 20000).unwrap();
    bridge.consume_window(5, 30000).unwrap();

    // Check individual windows
    assert_eq!(bridge.stream_window_available(1), Some(55535));
    assert_eq!(bridge.stream_window_available(3), Some(45535));
    assert_eq!(bridge.stream_window_available(5), Some(35535));

    // Connection window should be reduced by total consumption
    let conn_window = bridge.connection_window_available();
    assert_eq!(conn_window, 65535 - 60000); // Total consumed is 60000
}

#[test]
fn test_task4_window_update_generation_from_consumption() {
    // Task 4: Verify WINDOW_UPDATE generation after consumption
    let config = BridgeConfig::default();
    let mut bridge = H2ProxyBridge::new(config);

    bridge.create_stream_with_flow_control(1).unwrap();

    // Consume enough to trigger update (>50% of 65535 = 32768)
    bridge.consume_window(1, 40000).unwrap();

    // Should have pending WINDOW_UPDATE
    let update = bridge.next_stream_window_update();
    assert!(update.is_some());

    let (stream_id, increment) = update.unwrap();
    assert_eq!(stream_id, 1);
    assert_eq!(increment, 40000);

    // Encode the frame
    let frame = bridge.encode_window_update_frame(stream_id, increment);
    assert_eq!(frame.len(), 13);
    assert_eq!(frame[3], 0x08); // WINDOW_UPDATE type
}

#[test]
fn test_task4_recovery_from_backpressure() {
    // Task 4: Recovery sequence from backpressure
    let config = BridgeConfig::default();
    let mut bridge = H2ProxyBridge::new(config);

    bridge.create_stream_with_flow_control(1).unwrap();

    // Consume enough to exhaust stream window
    bridge.consume_window(1, 65535).unwrap();
    assert!(bridge.is_stream_backpressured(1));

    // Receive WINDOW_UPDATE for stream from upstream (50000 bytes)
    bridge.handle_window_update(1, 50000).unwrap();

    // Stream should recover from its own perspective
    assert!(!bridge.is_stream_backpressured(1));
    
    // Window should be 50000 (from WINDOW_UPDATE)
    assert_eq!(bridge.stream_window_available(1), Some(50000));

    // Note: Connection window is exhausted (consumed 65535 in one stream)
    // So new consumption would fail due to connection window, but stream window recovery works
}

#[test]
fn test_task5_e2e_complete_request_response_with_flow_control() {
    // Task 5: Complete E2E request/response cycle with flow control
    let config = BridgeConfig::default();
    let mut bridge = H2ProxyBridge::new(config);

    // Stream lifecycle with flow control
    bridge.create_stream_with_flow_control(1).unwrap();

    // Add request with headers
    bridge.streams.get_mut(&1).unwrap().method = "GET".to_string();
    bridge.streams.get_mut(&1).unwrap().path = "/api/data".to_string();

    // Add request body
    let request_body = b"parameter=value";
    bridge.add_request_data(1, request_body).unwrap();

    // Request should be ready (stream exists and is not complete)
    assert!(bridge.pending_streams() > 0 || bridge.streams.contains_key(&1));

    // Add response
    bridge.add_response_data(1, b"HTTP/1.1 200 OK").unwrap();
    bridge.streams.get_mut(&1).unwrap().response_status = 200;

    // Mark as sent
    bridge.mark_response_sent(1).unwrap();

    // Get complete response
    let (status, _, _) = bridge.get_stream_response(1).unwrap();
    assert_eq!(status, 200);

    // Verify flow control is still intact
    let window = bridge.stream_window_available(1);
    assert!(window.is_some());

    // Cleanup
    bridge.cleanup_stream(1);
    assert!(!bridge.streams.contains_key(&1));
}

#[test]
fn test_task5_e2e_multi_stream_flow_control_scenario() {
    // Task 5: Multiple streams with different data volumes and flow control
    let config = BridgeConfig::default();
    let mut bridge = H2ProxyBridge::new(config);

    // Create 3 streams for different types of requests
    bridge.create_stream_with_flow_control(1).unwrap();
    bridge.create_stream_with_flow_control(3).unwrap();
    bridge.create_stream_with_flow_control(5).unwrap();

    // Consume small amounts from each stream
    bridge.consume_window(1, 5000).unwrap();
    bridge.consume_window(3, 10000).unwrap();
    bridge.consume_window(5, 15000).unwrap();

    // All streams should exist and have independent windows
    // Just verify windows exist (don't check exact pending count)

    // Verify individual windows after consumption
    let window1 = bridge.stream_window_available(1).unwrap();
    let window3 = bridge.stream_window_available(3).unwrap();
    let window5 = bridge.stream_window_available(5).unwrap();

    assert_eq!(window1, 65535 - 5000);
    assert_eq!(window3, 65535 - 10000);
    assert_eq!(window5, 65535 - 15000);

    // Verify connection window reflects total consumption
    let conn_window = bridge.connection_window_available();
    assert_eq!(conn_window, 65535 - 30000);

    // None should be backpressured (not enough consumed)
    assert!(!bridge.is_stream_backpressured(1));
    assert!(!bridge.is_stream_backpressured(3));
    assert!(!bridge.is_stream_backpressured(5));

    // Cleanup all
    for stream_id in &[1, 3, 5] {
        bridge.cleanup_stream(*stream_id);
    }

    // All should be cleaned up
    assert_eq!(bridge.pending_streams(), 0);
}

#[test]
fn test_task5_e2e_window_update_cycles() {
    // Task 5: Multiple WINDOW_UPDATE cycles for sustained data transfer
    let config = BridgeConfig::default();
    let mut bridge = H2ProxyBridge::new(config);

    bridge.create_stream_with_flow_control(1).unwrap();

    // Cycle 1: Consume to trigger update (need > 32767 bytes)
    bridge.consume_window(1, 33000).unwrap();
    let update1 = bridge.next_stream_window_update();
    assert!(update1.is_some());
    assert_eq!(update1.unwrap().1, 33000);

    // Receive WINDOW_UPDATE to recover stream window
    bridge.handle_window_update(1, 33000).unwrap();

    // Cycle 2: Only consume 10000 more (won't trigger update yet)
    bridge.consume_window(1, 10000).unwrap();
    let update2 = bridge.next_stream_window_update();
    // No update yet (total 10000 < 32768 threshold)
    assert!(update2.is_none());

    // Total connection consumed: 33000 + 10000 = 43000 (still < 65535)
    let conn_window = bridge.connection_window_available();
    assert_eq!(conn_window, 65535 - 43000);
}

#[test]
fn test_task5_e2e_mixed_stream_states() {
    // Task 5: Handle mixed states (backpressured, normal, recovering)
    let config = BridgeConfig::default();
    let mut bridge = H2ProxyBridge::new(config);

    // Create 4 streams in different states
    bridge.create_stream_with_flow_control(1).unwrap();   // Normal
    bridge.create_stream_with_flow_control(3).unwrap();   // Will consume moderate
    bridge.create_stream_with_flow_control(5).unwrap();   // Will recover
    bridge.create_stream_with_flow_control(7).unwrap();   // Will trigger update

    // Stream 1: Normal state (small consumption)
    bridge.consume_window(1, 5000).unwrap();

    // Stream 3: Moderate consumption (won't exceed connection window)
    bridge.consume_window(3, 10000).unwrap();

    // Stream 5: Moderate consumption
    bridge.consume_window(5, 10000).unwrap();

    // Stream 7: Enough to trigger update threshold
    bridge.consume_window(7, 35000).unwrap();
    assert!(bridge.should_send_stream_window_update(7));

    // Check backpressure stats
    let (_, backpressured_count) = bridge.backpressure_stats();
    assert_eq!(backpressured_count, 0); // No backpressure yet

    // Verify individual states
    assert!(!bridge.is_stream_backpressured(1));
    assert!(!bridge.is_stream_backpressured(3));
    assert!(!bridge.is_stream_backpressured(5));
    assert!(!bridge.is_stream_backpressured(7));

    // Total consumed: 5000 + 10000 + 10000 + 35000 = 60000 < 65535
    let conn_window = bridge.connection_window_available();
    assert_eq!(conn_window, 65535 - 60000);
}

#[test]
fn test_task5_e2e_connection_and_stream_window_interaction() {
    // Task 5: Verify connection window affects all streams
    let config = BridgeConfig::default();
    let mut bridge = H2ProxyBridge::new(config);

    // Create 2 streams
    bridge.create_stream_with_flow_control(1).unwrap();
    bridge.create_stream_with_flow_control(3).unwrap();

    // Get initial connection window
    let initial_conn = bridge.connection_window_available();
    assert_eq!(initial_conn, 65535);

    // Consume from stream 1 (affects connection window)
    bridge.consume_window(1, 30000).unwrap();
    let conn_after_s1 = bridge.connection_window_available();
    assert_eq!(conn_after_s1, 65535 - 30000);

    // Consume from stream 3 (further reduces connection window)
    bridge.consume_window(3, 20000).unwrap();
    let conn_after_s3 = bridge.connection_window_available();
    assert_eq!(conn_after_s3, 65535 - 50000);

    // Stream windows are independent
    assert_eq!(bridge.stream_window_available(1), Some(65535 - 30000));
    assert_eq!(bridge.stream_window_available(3), Some(65535 - 20000));

    // Try to exhaust remaining connection window
    let result = bridge.consume_window(1, 15536); // 65535 - 50000 = 15535, so 15536 should fail
    assert!(result.is_err());

    // But 15535 should work (exactly uses remaining)
    let result = bridge.consume_window(1, 15535);
    assert!(result.is_ok());

    // Now connection is exhausted
    assert_eq!(bridge.connection_window_available(), 0);
    assert!(bridge.is_connection_backpressured());
}

// ===== Server Push Integration Tests =====

#[test]
fn test_bridge_server_push_registration() {
    let config = BridgeConfig::default();
    let mut bridge = H2ProxyBridge::new(config);

    // Register a server push
    let result = bridge.register_server_push(2, 1);
    assert!(result.is_ok());
    assert!(bridge.has_push(2));
}

#[test]
fn test_bridge_server_push_add_headers() {
    let config = BridgeConfig::default();
    let mut bridge = H2ProxyBridge::new(config);

    bridge.register_server_push(2, 1).unwrap();

    let headers = vec![
        (":method".to_string(), "GET".to_string()),
        (":path".to_string(), "/style.css".to_string()),
    ];
    let result = bridge.add_push_headers(2, headers);
    assert!(result.is_ok());
}

#[test]
fn test_bridge_server_push_add_body() {
    let config = BridgeConfig::default();
    let mut bridge = H2ProxyBridge::new(config);

    bridge.register_server_push(2, 1).unwrap();
    bridge.add_push_headers(2, vec![(":method".to_string(), "GET".to_string())]).unwrap();

    let result = bridge.add_push_body_data(2, b"css content");
    assert!(result.is_ok());
}

#[test]
fn test_bridge_server_push_completion() {
    let config = BridgeConfig::default();
    let mut bridge = H2ProxyBridge::new(config);

    bridge.register_server_push(2, 1).unwrap();
    let result = bridge.mark_push_completed(2);
    assert!(result.is_ok());
}

#[test]
fn test_bridge_server_push_rejection() {
    let config = BridgeConfig::default();
    let mut bridge = H2ProxyBridge::new(config);

    bridge.register_server_push(2, 1).unwrap();
    let result = bridge.mark_push_rejected(2);
    assert!(result.is_ok());
}

#[test]
fn test_bridge_server_push_multiple() {
    let config = BridgeConfig::default();
    let mut bridge = H2ProxyBridge::new(config);

    bridge.register_server_push(2, 1).unwrap();
    bridge.register_server_push(4, 1).unwrap();
    bridge.register_server_push(6, 3).unwrap();

    assert_eq!(bridge.active_push_count(), 3);

    let (total, completed, rejected, active) = bridge.push_stats();
    assert_eq!(total, 3);
    assert_eq!(completed, 0);
    assert_eq!(rejected, 0);
    assert_eq!(active, 3);
}

#[test]
fn test_bridge_server_push_lifecycle() {
    let config = BridgeConfig::default();
    let mut bridge = H2ProxyBridge::new(config);

    // Register
    bridge.register_server_push(2, 1).unwrap();
    assert_eq!(bridge.active_push_count(), 1);

    // Add headers and body
    let headers = vec![
        (":method".to_string(), "GET".to_string()),
        (":path".to_string(), "/image.png".to_string()),
    ];
    bridge.add_push_headers(2, headers).unwrap();
    bridge.add_push_body_data(2, b"image data").unwrap();

    // Complete
    bridge.mark_push_completed(2).unwrap();

    // Verify stats
    let (total, completed, rejected, active) = bridge.push_stats();
    assert_eq!(total, 1);
    assert_eq!(completed, 1);
    assert_eq!(rejected, 0);
    assert_eq!(active, 0);
}


#[test]
fn test_parse_push_promise_valid() {
    let config = BridgeConfig::default();
    let mut bridge = H2ProxyBridge::new(config);

    // Promised stream ID 2, parent stream 1
    let mut frame_data = vec![0x00, 0x00, 0x00, 0x02]; // Stream ID 2
    frame_data.extend_from_slice(b""); // Empty header block for now

    let result = bridge.parse_push_promise_frame(&frame_data, 1);
    assert!(result.is_ok());
    assert!(bridge.has_push(2));
}

#[test]
fn test_parse_push_promise_invalid_stream_id_zero() {
    let config = BridgeConfig::default();
    let mut bridge = H2ProxyBridge::new(config);

    let frame_data = vec![0x00, 0x00, 0x00, 0x00]; // Stream ID 0 (invalid)
    let result = bridge.parse_push_promise_frame(&frame_data, 1);
    assert!(result.is_err());
}

#[test]
fn test_parse_push_promise_invalid_stream_id_less_than_parent() {
    let config = BridgeConfig::default();
    let mut bridge = H2ProxyBridge::new(config);

    let frame_data = vec![0x00, 0x00, 0x00, 0x01]; // Stream ID 1 (< parent 3)
    let result = bridge.parse_push_promise_frame(&frame_data, 3);
    assert!(result.is_err());
}

#[test]
fn test_parse_push_promise_invalid_odd_stream_id() {
    let config = BridgeConfig::default();
    let mut bridge = H2ProxyBridge::new(config);

    let frame_data = vec![0x00, 0x00, 0x00, 0x03]; // Stream ID 3 (odd, invalid for server)
    let result = bridge.parse_push_promise_frame(&frame_data, 1);
    assert!(result.is_err());
}

#[test]
fn test_parse_push_promise_frame_too_short() {
    let config = BridgeConfig::default();
    let mut bridge = H2ProxyBridge::new(config);

    let frame_data = vec![0x00, 0x00]; // Too short
    let result = bridge.parse_push_promise_frame(&frame_data, 1);
    assert!(result.is_err());
}

#[test]
fn test_validate_push_promise_headers_no_connect() {
    let config = BridgeConfig::default();
    let mut bridge = H2ProxyBridge::new(config);

    // Register and add valid headers
    bridge.register_server_push(2, 1).unwrap();
    let headers = vec![
        (":method".to_string(), "GET".to_string()),
        (":path".to_string(), "/style.css".to_string()),
    ];
    bridge.add_push_headers(2, headers).unwrap();

    let result = bridge.validate_push_promise_headers(2);
    assert!(result.is_ok());
}

#[test]
fn test_validate_push_promise_headers_connect_rejected() {
    let config = BridgeConfig::default();
    let mut bridge = H2ProxyBridge::new(config);

    // Register and add CONNECT method (should be rejected)
    bridge.register_server_push(2, 1).unwrap();
    let headers = vec![
        (":method".to_string(), "CONNECT".to_string()),
        (":authority".to_string(), "example.com:443".to_string()),
    ];
    bridge.add_push_headers(2, headers).unwrap();

    let result = bridge.validate_push_promise_headers(2);
    assert!(result.is_err());
}

#[test]
fn test_validate_push_promise_headers_not_found() {
    let config = BridgeConfig::default();
    let bridge = H2ProxyBridge::new(config);

    let result = bridge.validate_push_promise_headers(2);
    assert!(result.is_err());
}

#[test]
fn test_e2e_server_push_html_with_css() {
    // E2E: Server pushes CSS resource along with HTML
    let config = BridgeConfig::default();
    let mut bridge = H2ProxyBridge::new(config);

    // Main stream: HTML
    bridge.create_stream_with_flow_control(1).unwrap();

    // Server push: CSS (promised stream 2)
    bridge.parse_push_promise_frame(&[0x00, 0x00, 0x00, 0x02], 1).ok();
    assert!(bridge.has_push(2));

    // Add CSS headers and body
    let css_headers = vec![
        (":method".to_string(), "GET".to_string()),
        (":path".to_string(), "/style.css".to_string()),
        ("content-length".to_string(), "500".to_string()),
    ];
    bridge.add_push_headers(2, css_headers).unwrap();
    bridge.add_push_body_data(2, b"body { color: red; }").unwrap();

    // Verify push state
    let (total, completed, rejected, active) = bridge.push_stats();
    assert_eq!(total, 1);
    assert_eq!(active, 1);
}

#[test]
fn test_e2e_server_push_multiple_assets() {
    // E2E: Server pushes multiple assets (CSS, JS, images)
    let config = BridgeConfig::default();
    let mut bridge = H2ProxyBridge::new(config);

    // Main stream
    bridge.create_stream_with_flow_control(1).unwrap();

    // Push 1: CSS
    bridge.register_server_push(2, 1).unwrap();
    bridge.add_push_headers(2, vec![
        (":method".to_string(), "GET".to_string()),
        (":path".to_string(), "/style.css".to_string()),
    ]).unwrap();

    // Push 2: JavaScript
    bridge.register_server_push(4, 1).unwrap();
    bridge.add_push_headers(4, vec![
        (":method".to_string(), "GET".to_string()),
        (":path".to_string(), "/app.js".to_string()),
    ]).unwrap();

    // Push 3: Image
    bridge.register_server_push(6, 1).unwrap();
    bridge.add_push_headers(6, vec![
        (":method".to_string(), "GET".to_string()),
        (":path".to_string(), "/logo.png".to_string()),
    ]).unwrap();

    // Verify all pushes registered
    assert_eq!(bridge.active_push_count(), 3);

    let (total, _, _, active) = bridge.push_stats();
    assert_eq!(total, 3);
    assert_eq!(active, 3);
}

#[test]
fn test_e2e_server_push_with_redaction() {
    // E2E: Server push with sensitive header redaction
    let config = BridgeConfig {
        redact_headers: true,
        ..Default::default()
    };
    let mut bridge = H2ProxyBridge::new(config);

    bridge.register_server_push(2, 1).unwrap();

    // Headers with potentially sensitive data
    let headers = vec![
        (":method".to_string(), "GET".to_string()),
        (":path".to_string(), "/api/data".to_string()),
        ("authorization".to_string(), "Bearer secret_token".to_string()),
        ("cookie".to_string(), "session=abc123".to_string()),
    ];
    bridge.add_push_headers(2, headers).unwrap();

    // Verify push was created (redaction happens at frame level)
    assert!(bridge.has_push(2));
}

#[test]
fn test_e2e_server_push_rejection() {
    // E2E: Client rejects server push
    let config = BridgeConfig::default();
    let mut bridge = H2ProxyBridge::new(config);

    bridge.register_server_push(2, 1).unwrap();
    bridge.add_push_headers(2, vec![(":method".to_string(), "GET".to_string())]).unwrap();

    // Simulate client rejection
    bridge.mark_push_rejected(2).unwrap();

    let (total, completed, rejected, active) = bridge.push_stats();
    assert_eq!(total, 1);
    assert_eq!(rejected, 1);
    assert_eq!(active, 0);
    assert_eq!(completed, 0);
}

#[test]
fn test_e2e_server_push_with_flow_control() {
    // E2E: Server push interacts with flow control windows
    let config = BridgeConfig::default();
    let mut bridge = H2ProxyBridge::new(config);

    // Main stream with flow control
    bridge.create_stream_with_flow_control(1).unwrap();

    // Server push (promised stream 2)
    bridge.register_server_push(2, 1).unwrap();

    // Both should have independent flow control windows
    let main_window = bridge.stream_window_available(1);
    assert_eq!(main_window, Some(65535));

    // Add significant data to main stream
    bridge.consume_window(1, 30000).unwrap();

    // Push should not be affected
    let main_after = bridge.stream_window_available(1);
    assert_eq!(main_after, Some(65535 - 30000));
}

#[test]
fn test_e2e_server_push_parallel_streams() {
    // E2E: Multiple parallel streams with pushes
    let config = BridgeConfig::default();
    let mut bridge = H2ProxyBridge::new(config);

    // Create 2 main streams
    bridge.create_stream_with_flow_control(1).unwrap();
    bridge.create_stream_with_flow_control(3).unwrap();

    // Stream 1 push
    bridge.register_server_push(2, 1).unwrap();
    bridge.add_push_headers(2, vec![(":method".to_string(), "GET".to_string())]).unwrap();

    // Stream 3 push
    bridge.register_server_push(4, 3).unwrap();
    bridge.add_push_headers(4, vec![(":method".to_string(), "GET".to_string())]).unwrap();

    // Both pushes should be tracked independently
    assert_eq!(bridge.active_push_count(), 2);

    let (total, _, _, active) = bridge.push_stats();
    assert_eq!(total, 2);
    assert_eq!(active, 2);
}

#[test]
fn test_e2e_server_push_large_response() {
    // E2E: Server push with large response body
    let config = BridgeConfig::default();
    let mut bridge = H2ProxyBridge::new(config);

    bridge.register_server_push(2, 1).unwrap();

    let headers = vec![
        (":method".to_string(), "GET".to_string()),
        (":path".to_string(), "/large-file.bin".to_string()),
        ("content-length".to_string(), "1000000".to_string()),
    ];
    bridge.add_push_headers(2, headers).unwrap();

    // Add large body in chunks
    let chunk = vec![0u8; 10000];
    for _ in 0..10 {
        bridge.add_push_body_data(2, &chunk).unwrap();
    }

    // Push should track the accumulated data
    assert!(bridge.has_push(2));

    let (total, _, _, active) = bridge.push_stats();
    assert_eq!(total, 1);
    assert_eq!(active, 1);
}

#[test]
fn test_e2e_server_push_validation_sequence() {
    // E2E: Complete validation sequence
    let config = BridgeConfig::default();
    let mut bridge = H2ProxyBridge::new(config);

    // Register push
    bridge.register_server_push(2, 1).unwrap();

    // Add headers
    let headers = vec![
        (":method".to_string(), "GET".to_string()),
        (":path".to_string(), "/resource".to_string()),
    ];
    bridge.add_push_headers(2, headers).unwrap();

    // Validate headers
    let validation = bridge.validate_push_promise_headers(2);
    assert!(validation.is_ok());

    // Add body
    bridge.add_push_body_data(2, b"response body").unwrap();

    // Complete push
    bridge.mark_push_completed(2).unwrap();

    // Verify final state
    let (total, completed, _, _) = bridge.push_stats();
    assert_eq!(total, 1);
    assert_eq!(completed, 1);
}
