use scred_http::h2::stream_state::StreamRedactionState;



#[test]
fn test_stream_state_creation() {
    let state = StreamRedactionState::new(1);
    assert_eq!(state.stream_id, 1);
    assert!(!state.end_stream);
    assert!(!state.headers_complete);
}

#[test]
fn test_add_headers() {
    let mut state = StreamRedactionState::new(1);

    let mut headers = http::HeaderMap::new();
    headers.insert(
        http::header::CONTENT_TYPE,
        http::header::HeaderValue::from_static("application/json"),
    );

    state.add_headers(headers).unwrap();
    assert!(state.headers_complete);
}

#[test]
fn test_stream_complete() {
    let mut state = StreamRedactionState::new(1);

    let mut headers = http::HeaderMap::new();
    headers.insert(
        http::header::CONTENT_TYPE,
        http::header::HeaderValue::from_static("text/plain"),
    );
    state.add_headers(headers).unwrap();

    state.mark_end_stream();
    assert!(state.is_complete());
}

#[test]
fn redaction_input_needs_a_complete_stream() {
    let mut state = StreamRedactionState::new(9);
    assert_eq!(state.redaction_input().unwrap_err(), "Stream 9 not complete (headers_complete=false, end_stream=false)");
    let mut headers = http::HeaderMap::new();
    headers.insert(http::header::CONTENT_TYPE, http::header::HeaderValue::from_static("a/b"));
    headers.append(http::header::ACCEPT, http::header::HeaderValue::from_static("x"));
    headers.append(http::header::ACCEPT, http::header::HeaderValue::from_static("y"));
    state.add_headers(headers.clone()).unwrap();
    assert_eq!(state.add_headers(headers).unwrap_err(), "Stream 9 duplicate headers");
    state.add_body_chunk(b"ab".to_vec()).unwrap();
    state.add_body_chunk(b"cd".to_vec()).unwrap();
    state.mark_end_stream();
    assert_eq!(state.add_body_chunk(b"e".to_vec()).unwrap_err(), "Stream 9 data after END_STREAM");
    let (hs, body) = state.redaction_input().unwrap();
    assert_eq!(body, b"abcd".to_vec());
    assert_eq!(hs.len(), 2);
    assert!(hs.contains(&("accept".to_string(), "y".to_string())));
    let st = state.stats();
    assert_eq!((st.headers_count, st.body_chunks, st.total_body_bytes), (2, 2, 4));
    assert_eq!(st.to_string(), "Stream 9: 2 headers, 2 chunks, 4 bytes, end_stream=true");
}
