use scred_http::h2::header_redactor::HeaderRedactor;
use scred_http::h2::hpack_encoder::HpackEncoder;



#[test]
fn test_sensitive_header_detection() {
    let redactor = HeaderRedactor::new(1);

    // Exact matches
    assert!(redactor.is_sensitive_header("authorization"));
    assert!(redactor.is_sensitive_header("Authorization"));
    assert!(redactor.is_sensitive_header("cookie"));
    assert!(redactor.is_sensitive_header("x-api-key"));

    // Non-sensitive
    assert!(!redactor.is_sensitive_header("content-type"));
    assert!(!redactor.is_sensitive_header("accept"));
    assert!(!redactor.is_sensitive_header("user-agent"));

    // Pattern matches
    assert!(redactor.is_sensitive_header("x-my-secret-key"));
    assert!(redactor.is_sensitive_header("x-custom-token"));
}

#[test]
fn test_header_redactor_creation() {
    let redactor = HeaderRedactor::new(42);

    assert_eq!(redactor.stream_id(), 42);
    let stats = redactor.stats();
    assert_eq!(stats.stream_id, 42);
    assert_eq!(stats.headers_redacted, 0);
    assert_eq!(stats.patterns_found, 0);
    assert_eq!(stats.bytes_redacted, 0);
}

#[test]
fn test_stats_tracking() {
    let redactor = HeaderRedactor::new(99);

    let stats = redactor.stats();
    assert_eq!(stats.stream_id, 99);

    // Stats should be independent per stream
    let redactor2 = HeaderRedactor::new(100);
    let stats2 = redactor2.stats();
    assert_eq!(stats2.stream_id, 100);
}

#[test]
fn test_multiple_stream_isolation() {

    let r1 = HeaderRedactor::new(1);
    let r2 = HeaderRedactor::new(3);
    let r3 = HeaderRedactor::new(5);

    // Streams should have independent state
    assert_eq!(r1.stream_id(), 1);
    assert_eq!(r2.stream_id(), 3);
    assert_eq!(r3.stream_id(), 5);

    // Stats should be separate
    let s1 = r1.stats();
    let s2 = r2.stats();
    assert_ne!(s1.stream_id, s2.stream_id);
}

#[test]
fn redaction_round_trip_counts_changes() {
    let mut r = HeaderRedactor::new(7);
    let block = HpackEncoder::encode_request_headers("GET", "/", "example.com").unwrap();
    let fields = r.decode_headers(&block).unwrap();
    assert!(fields.iter().any(|(n, _)| n == ":method"));
    let mut fields = fields;
    fields.push(("Authorization".to_string(), "Bearer abcdef".to_string()));
    fields.push(("x-trace".to_string(), "1".to_string()));
    let redacted: Vec<Option<String>> = fields
        .iter()
        .map(|(n, v)| if r.is_sensitive_header(n) { Some(if n == "Authorization" { "Bearer xx".to_string() } else { v.clone() }) } else { None })
        .collect();
    let out = r.encode_redacted(fields, redacted).unwrap();
    assert!(!out.is_empty());
    let st = r.stats();
    assert_eq!(st.headers_redacted, 2);
    assert_eq!(st.patterns_found, 1);
    assert_eq!(st.bytes_redacted, 4);
    let mut check = HeaderRedactor::new(8);
    let back = check.decode_headers(&out).unwrap();
    assert!(back.contains(&("Authorization".to_string(), "Bearer xx".to_string())));
    assert!(back.contains(&("x-trace".to_string(), "1".to_string())));
}

#[test]
fn decode_errors_are_reported() {
    let mut r = HeaderRedactor::new(1);
    let e = r.decode_headers(&[0x40, 0x85]).unwrap_err();
    assert!(e.starts_with("HPACK decode failed: "));
}
