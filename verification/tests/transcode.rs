use scred_http::h2::transcode::{transcode_h2_data, H2Transcoder, TranscodeState};
use scred_http::h2::transcode::status_from_header;

#[test]
fn transcode_test_transcoder_creation() {
    let transcoder = H2Transcoder::new();
    assert_eq!(*transcoder.state(), TranscodeState::WaitingForHeaders);
    assert!(!transcoder.is_complete());
}

#[test]
fn transcode_test_transcoder_default() {
    let transcoder = H2Transcoder::default();
    assert_eq!(*transcoder.state(), TranscodeState::WaitingForHeaders);
}

#[test]
fn test_transcode_state_progression() {
    let mut transcoder = H2Transcoder::new();

    // Create minimal headers for testing
    // Note: :status is a pseudo-header in HTTP/2 but we can't use it directly
    // in a HeaderMap since it starts with ':'. This test just checks state progression.
    let mut headers = http::HeaderMap::new();
    // Use a regular header for this basic test
    headers.insert("content-type", http::HeaderValue::from_static("text/plain"));

    // In a real scenario, the headers would come from http2 crate with :status already parsed
    // This test just validates state machine progression
    let result = transcoder.on_headers(&headers);
    // May fail due to missing :status, which is expected
    if result.is_ok() {
        assert_eq!(*transcoder.state(), TranscodeState::HeadersTranscoded);

        // Process data
        let data_result = transcoder.on_data(b"test");
        assert!(data_result.is_ok());
        assert_eq!(*transcoder.state(), TranscodeState::StreamingData);

        // Mark complete
        let end_result = transcoder.on_end_stream();
        assert!(end_result.is_ok());
        assert!(transcoder.is_complete());
    }
}

#[test]
fn test_on_data_without_headers() {
    let mut transcoder = H2Transcoder::new();
    let result = transcoder.on_data(b"test");
    assert!(result.is_err());
}

#[test]
fn test_transcode_h2_data() {
    let input = b"hello world";
    let output = transcode_h2_data(input);
    assert_eq!(output, input);
}

#[test]
fn on_headers_reports_missing_status() {
    let mut transcoder = H2Transcoder::new();
    let headers = http::HeaderMap::new();
    let err = transcoder.on_headers(&headers).unwrap_err();
    assert_eq!(err, "Missing or invalid :status in HTTP/2 response");
    assert_eq!(*transcoder.state(), TranscodeState::WaitingForHeaders);
}

#[test]
fn state_errors_name_the_state() {
    let mut transcoder = H2Transcoder::new();
    assert_eq!(transcoder.on_data(b"x").unwrap_err(), "Invalid state for data: WaitingForHeaders");
    transcoder.on_end_stream().unwrap();
    assert!(transcoder.is_complete());
    let headers = http::HeaderMap::new();
    assert_eq!(transcoder.on_headers(&headers).unwrap_err(), "Invalid state for headers: Complete");
}

#[test]
fn status_from_header_values() {
    assert_eq!(status_from_header(Some(Some("204".to_string()))), Ok(204));
    assert_eq!(status_from_header(Some(Some("+200".to_string()))), Ok(200));
    assert!(status_from_header(Some(Some("70000".to_string()))).is_err());
    assert!(status_from_header(Some(None)).is_err());
    assert!(status_from_header(None).is_err());
}
