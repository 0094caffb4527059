use scred_http::http_headers::{header_read_step, parse_header_bytes, parse_headers_from_text, HeaderReadStep};

#[test]
fn response_headers_are_read() {
    let raw = "HTTP/1.1 200 OK\r\nContent-Length: 100\r\nContent-Type: text/plain\r\n\r\n";
    let h = parse_header_bytes(raw.as_bytes(), true);
    assert_eq!(h.content_length, Some(100));
    assert_eq!(h.content_type, Some("text/plain".to_string()));
    assert_eq!(h.raw_headers, "Content-Length: 100\r\nContent-Type: text/plain\r\n\r\n");
}

#[test]
fn request_headers_are_read() {
    let raw = "Host: example.com\r\nUser-Agent: test\r\nAccept: */*\r\n\r\n";
    let h = parse_headers_from_text(raw, false);
    assert_eq!(h.get("host"), Some("example.com".to_string()));
    assert_eq!(h.get("USER-AGENT"), Some("test".to_string()));
    assert!(h.raw_headers.contains("Host:"));
    assert_eq!(h.headers.len(), 3);
    assert!(h.is_keep_alive());
}

#[test]
fn chunked_and_connection_flags() {
    let h = parse_headers_from_text("HTTP/1.1 200 OK\r\nTransfer-Encoding: Chunked\r\nConnection: Close\r\n\r\n", true);
    assert!(h.is_chunked());
    assert!(!h.is_keep_alive());
    let h2 = parse_headers_from_text("HTTP/1.1 200 OK\r\nContent-Length: abc\r\nno colon here\r\n\r\nX: after", true);
    assert_eq!(h2.content_length, None);
    assert_eq!(h2.headers.len(), 1);
    assert!(!h2.is_chunked());
    assert_eq!(h2.get("x"), None);
}

#[test]
fn empty_block_with_status_line() {
    let h = parse_headers_from_text("", true);
    assert!(h.headers.is_empty());
    assert_eq!(h.raw_headers, "\r\n\r\n");
}

#[test]
fn header_reading_steps() {
    assert_eq!(header_read_step(b"A: b\r\n\r\n"), HeaderReadStep::Complete);
    assert_eq!(header_read_step(b"A: b\r\n"), HeaderReadStep::Continue);
    assert_eq!(header_read_step(&vec![b'a'; 262145]), HeaderReadStep::TooLarge);
    assert_eq!(header_read_step(&vec![b'a'; 262144]), HeaderReadStep::Continue);
}
