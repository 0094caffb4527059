use scred_http::http_line_reader::LineAccumulator;

fn read_line(bytes: &[u8]) -> Option<String> {
    let mut acc = LineAccumulator::new();
    for &b in bytes {
        acc.push_byte(b);
        if acc.done {
            return Some(acc.line);
        }
    }
    None
}

#[test]
fn test_read_request_line() {
    assert_eq!(read_line(b"GET / HTTP/1.1\r\nHost: x\r\n"), Some("GET / HTTP/1.1".to_string()));
}

#[test]
fn test_read_response_line() {
    assert_eq!(read_line(b"HTTP/1.1 200 OK\r\n"), Some("HTTP/1.1 200 OK".to_string()));
}

#[test]
fn test_read_request_line_eof() {
    assert_eq!(read_line(b"GET / HTTP/1.1"), None);
}

#[test]
fn test_read_line_bare_newline_and_latin1() {
    assert_eq!(read_line(b"a\rb\n"), Some("a\rb".to_string()));
    assert_eq!(read_line(&[0xE9, b'\n']), Some("\u{e9}".to_string()));
}
