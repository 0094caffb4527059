use scred_http::h2::per_stream_redactor::PerStreamRedactor;



#[test]
fn test_per_stream_redactor_creation() {
    let redactor = PerStreamRedactor::new(1);

    assert_eq!(redactor.stream_id, 1);
    assert!(!redactor.finalized);
    assert_eq!(redactor.bytes_redacted, 0);
}

#[test]
fn test_per_stream_redactor_stats() {
    let redactor = PerStreamRedactor::new(1);

    let stats = redactor.stats();
    assert_eq!(stats.stream_id, 1);
    assert_eq!(stats.bytes_redacted, 0);
    assert!(!stats.finalized);
}

#[test]
fn test_redact_header_value() {
    let redactor = PerStreamRedactor::new(1);

    let header_value = "x-api-key: secret123";
    let redacted = redactor.redact_header_value(header_value);

    // Should be redacted (if pattern matches)
    // For now, just verify it works without panic
    assert!(!redacted.is_empty());
}



#[test]
fn finalization_is_guarded() {
    let mut r = PerStreamRedactor::new(4);
    assert!(r.check_chunk().is_ok());
    r.record_chunk(10, 2);
    assert!(r.check_finalize().is_ok());
    r.record_finalize(1);
    assert_eq!(r.check_chunk().unwrap_err(), "Stream 4: Cannot redact after finalization");
    assert_eq!(r.check_finalize().unwrap_err(), "Stream 4: Already finalized");
    assert_eq!(r.redact_header_value("v"), "v");
    assert_eq!(r.stats().to_string(), "Stream 4: 10 bytes, 3 patterns, finalized=true");
}

#[test]
fn test_cannot_redact_after_finalize() {
    let mut redactor = PerStreamRedactor::new(1);
    if redactor.check_finalize().is_ok() {
        redactor.record_finalize(0);
    }
    let result = redactor.check_chunk();
    assert!(result.is_err());
}

#[test]
fn test_cannot_finalize_twice() {
    let mut redactor = PerStreamRedactor::new(1);
    if redactor.check_finalize().is_ok() {
        redactor.record_finalize(0);
    }
    let result = redactor.check_finalize();
    assert!(result.is_err());
}
