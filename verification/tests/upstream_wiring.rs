use scred_http::h2::upstream_wiring::UpstreamWiring;
use std::collections::HashMap;

#[test]
fn test_upstream_wiring_creation() {
    let wiring = UpstreamWiring::new();
    assert_eq!(wiring.forwarding_state.len(), 0);
    assert_eq!(wiring.total_requests_forwarded, 0);
}

#[test]
fn test_register_stream() {
    let mut wiring = UpstreamWiring::new();
    wiring.register_stream(1);

    assert!(wiring.forwarding_state.contains_key(&1));
    let state = wiring.forwarding_state.get(&1).unwrap();
    assert_eq!(state.client_stream_id, 1);
    assert!(!state.request_complete);
}

#[test]
fn test_buffer_request() {
    let mut wiring = UpstreamWiring::new();
    wiring.register_stream(1);

    let mut headers = HashMap::new();
    headers.insert(":method".to_string(), "GET".to_string());
    headers.insert(":path".to_string(), "/api".to_string());

    wiring.buffer_request_headers(1, headers.clone());
    wiring.buffer_request_body(1, b"test body".to_vec()).unwrap();

    let (stored_headers, body) = wiring.get_complete_request(1).unwrap();
    assert_eq!(stored_headers.get(":method"), Some(&"GET".to_string()));
    assert_eq!(body, b"test body");
}

#[test]
fn test_mark_request_complete() {
    let mut wiring = UpstreamWiring::new();
    wiring.register_stream(1);

    assert!(!wiring
        .forwarding_state
        .get(&1)
        .unwrap()
        .request_complete);

    wiring.mark_request_complete(1).unwrap();

    assert!(wiring
        .forwarding_state
        .get(&1)
        .unwrap()
        .request_complete);
}

#[test]
fn test_is_request_ready() {
    let mut wiring = UpstreamWiring::new();
    wiring.register_stream(1);

    assert!(!wiring.is_request_ready(1));

    let mut headers = HashMap::new();
    headers.insert(":method".to_string(), "GET".to_string());
    wiring.buffer_request_headers(1, headers);

    assert!(!wiring.is_request_ready(1)); // Still need END_STREAM

    wiring.mark_request_complete(1).unwrap();

    assert!(wiring.is_request_ready(1));
}

#[test]
fn test_buffer_response() {
    let mut wiring = UpstreamWiring::new();
    wiring.register_stream(1);

    wiring
        .buffer_response_data(1, b"response body".to_vec())
        .unwrap();

    let response = wiring.get_complete_response(1).unwrap();
    assert_eq!(response, b"response body");
}

#[test]
fn upstream_wiring_test_cleanup_stream() {
    let mut wiring = UpstreamWiring::new();
    wiring.register_stream(1);

    let mut headers = HashMap::new();
    headers.insert(":method".to_string(), "GET".to_string());
    wiring.buffer_request_headers(1, headers);
    wiring.buffer_response_data(1, b"response".to_vec()).unwrap();

    assert!(wiring.forwarding_state.contains_key(&1));

    wiring.cleanup_stream(1);

    assert!(!wiring.forwarding_state.contains_key(&1));
    assert!(!wiring.request_headers.contains_key(&1));
    assert!(!wiring.response_buffers.contains_key(&1));
}

#[test]
fn test_statistics() {
    let mut wiring = UpstreamWiring::new();
    wiring.register_stream(1);
    wiring.register_stream(3);

    let mut headers = HashMap::new();
    headers.insert(":method".to_string(), "GET".to_string());
    wiring.buffer_request_headers(1, headers.clone());

    wiring.buffer_response_data(3, b"response".to_vec()).unwrap();

    let stats = wiring.stats();
    assert_eq!(stats.active_streams, 2);
    assert_eq!(stats.buffered_requests, 1);
    assert_eq!(stats.buffered_responses, 1);
}

#[test]
fn missing_buffers_report_errors() {
    let wiring = UpstreamWiring::new();
    assert_eq!(wiring.get_complete_request(5).unwrap_err(), "No headers for stream 5");
    assert_eq!(wiring.get_complete_response(7).unwrap_err(), "No response buffer for stream 7");
}

#[test]
fn bodies_accumulate_and_response_ready() {
    let mut wiring = UpstreamWiring::new();
    wiring.register_stream(3);
    wiring.buffer_request_headers(3, HashMap::new());
    wiring.buffer_request_body(3, b"ab".to_vec()).unwrap();
    wiring.buffer_request_body(3, b"cd".to_vec()).unwrap();
    let (_, body) = wiring.get_complete_request(3).unwrap();
    assert_eq!(body, b"abcd");
    wiring.buffer_response_data(3, b"x".to_vec()).unwrap();
    assert!(!wiring.is_response_ready(3));
    wiring.mark_response_complete(3).unwrap();
    assert!(wiring.is_response_ready(3));
    // Marking an unregistered stream changes nothing.
    wiring.mark_request_complete(9).unwrap();
    assert!(!wiring.forwarding_state.contains_key(&9));
}

#[test]
fn request_without_body_is_empty() {
    let mut wiring = UpstreamWiring::new();
    wiring.buffer_request_headers(1, HashMap::new());
    let (headers, body) = wiring.get_complete_request(1).unwrap();
    assert!(headers.is_empty());
    assert!(body.is_empty());
}
