use scred_http::h2::header_validation::{HeaderBlockValidator, PseudoHeader, MAX_HEADER_BLOCK_SIZE};

#[test]
fn test_validate_field_basic() {
    assert!(HeaderBlockValidator::validate_field("content-type", "text/html").is_ok());
    assert!(HeaderBlockValidator::validate_field("x-custom-header", "value").is_ok());
}

#[test]
fn test_validate_field_empty_name() {
    let result = HeaderBlockValidator::validate_field("", "value");
    assert!(result.is_err());
}

#[test]
fn test_validate_field_uppercase() {
    let result = HeaderBlockValidator::validate_field("Content-Type", "text/html");
    assert!(result.is_err());
}

#[test]
fn test_validate_field_pseudo_header_valid() {
    assert!(HeaderBlockValidator::validate_field(":method", "GET").is_ok());
    assert!(HeaderBlockValidator::validate_field(":scheme", "https").is_ok());
    assert!(HeaderBlockValidator::validate_field(":path", "/").is_ok());
}

#[test]
fn test_validate_field_pseudo_header_invalid() {
    let result = HeaderBlockValidator::validate_field(":invalid", "value");
    assert!(result.is_err());
}

#[test]
fn test_validate_block_size_valid() {
    assert!(HeaderBlockValidator::validate_block_size(1000).is_ok());
    assert!(HeaderBlockValidator::validate_block_size(MAX_HEADER_BLOCK_SIZE).is_ok());
}

#[test]
fn test_validate_block_size_too_large() {
    let result = HeaderBlockValidator::validate_block_size(MAX_HEADER_BLOCK_SIZE + 1);
    assert!(result.is_err());
}

#[test]
fn test_validate_header_list_valid() {
    let headers = vec![
        (":method".to_string(), "GET".to_string()),
        (":scheme".to_string(), "https".to_string()),
        (":path".to_string(), "/".to_string()),
        ("content-type".to_string(), "text/html".to_string()),
    ];

    let result = HeaderBlockValidator::validate_header_list(&headers);
    assert!(result.valid);
    assert_eq!(result.field_count, 4);
}

#[test]
fn test_validate_header_list_duplicate_pseudo() {
    let headers = vec![
        (":method".to_string(), "GET".to_string()),
        (":method".to_string(), "POST".to_string()),
    ];

    let result = HeaderBlockValidator::validate_header_list(&headers);
    assert!(!result.valid);
}

#[test]
fn test_validate_request_headers_valid_get() {
    let headers = vec![
        (":method".to_string(), "GET".to_string()),
        (":scheme".to_string(), "https".to_string()),
        (":path".to_string(), "/index.html".to_string()),
        (":authority".to_string(), "example.com".to_string()),
    ];

    assert!(HeaderBlockValidator::validate_request_headers(&headers).is_ok());
}

#[test]
fn test_validate_request_headers_valid_post() {
    let headers = vec![
        (":method".to_string(), "POST".to_string()),
        (":scheme".to_string(), "https".to_string()),
        (":path".to_string(), "/api/data".to_string()),
    ];

    assert!(HeaderBlockValidator::validate_request_headers(&headers).is_ok());
}

#[test]
fn test_validate_request_headers_valid_connect() {
    let headers = vec![(":method".to_string(), "CONNECT".to_string())];

    assert!(HeaderBlockValidator::validate_request_headers(&headers).is_ok());
}

#[test]
fn test_validate_request_headers_missing_method() {
    let headers = vec![
        (":scheme".to_string(), "https".to_string()),
        (":path".to_string(), "/".to_string()),
    ];

    assert!(HeaderBlockValidator::validate_request_headers(&headers).is_err());
}

#[test]
fn test_validate_request_headers_invalid_method() {
    let headers = vec![
        (":method".to_string(), "INVALID".to_string()),
        (":scheme".to_string(), "https".to_string()),
        (":path".to_string(), "/".to_string()),
    ];

    assert!(HeaderBlockValidator::validate_request_headers(&headers).is_err());
}

#[test]
fn test_validate_request_headers_empty_path() {
    let headers = vec![
        (":method".to_string(), "GET".to_string()),
        (":scheme".to_string(), "https".to_string()),
        (":path".to_string(), "".to_string()),
    ];

    assert!(HeaderBlockValidator::validate_request_headers(&headers).is_err());
}

#[test]
fn test_validate_response_headers_valid() {
    let headers = vec![
        (":status".to_string(), "200".to_string()),
        ("content-type".to_string(), "text/html".to_string()),
    ];

    assert!(HeaderBlockValidator::validate_response_headers(&headers).is_ok());
}

#[test]
fn test_validate_response_headers_missing_status() {
    let headers = vec![("content-type".to_string(), "text/html".to_string())];

    assert!(HeaderBlockValidator::validate_response_headers(&headers).is_err());
}

#[test]
fn test_validate_response_headers_invalid_status() {
    let headers = vec![(":status".to_string(), "OK".to_string())];

    assert!(HeaderBlockValidator::validate_response_headers(&headers).is_err());
}

#[test]
fn test_validate_response_headers_request_pseudo() {
    let headers = vec![
        (":status".to_string(), "200".to_string()),
        (":method".to_string(), "GET".to_string()),
    ];

    assert!(HeaderBlockValidator::validate_response_headers(&headers).is_err());
}

#[test]
fn test_pseudo_header_names() {
    assert_eq!(PseudoHeader::Method.name(), ":method");
    assert_eq!(PseudoHeader::Scheme.name(), ":scheme");
    assert_eq!(PseudoHeader::Status.name(), ":status");
}

#[test]
fn test_pseudo_header_request_only() {
    assert!(PseudoHeader::Method.is_request_only());
    assert!(PseudoHeader::Scheme.is_request_only());
    assert!(!PseudoHeader::Status.is_request_only());
}

#[test]
fn test_pseudo_header_response_only() {
    assert!(PseudoHeader::Status.is_response_only());
    assert!(!PseudoHeader::Method.is_response_only());
}
