use scred_http::connect::{parse_host_port, parse_connect_line, error_response, connect_established_response};

#[test]
fn test_parse_host_port_valid() {
    let (host, port) = parse_host_port("example.com:443").unwrap();
    assert_eq!(host, "example.com");
    assert_eq!(port, 443);
}

#[test]
fn test_parse_host_port_with_subdomain() {
    let (host, port) = parse_host_port("api.example.com:8443").unwrap();
    assert_eq!(host, "api.example.com");
    assert_eq!(port, 8443);
}

#[test]
fn test_parse_host_port_localhost() {
    let (host, port) = parse_host_port("localhost:3000").unwrap();
    assert_eq!(host, "localhost");
    assert_eq!(port, 3000);
}

#[test]
fn test_parse_host_port_invalid_port() {
    let result = parse_host_port("example.com:invalid");
    assert!(result.is_err());
}

#[test]
fn test_parse_host_port_missing_port() {
    let result = parse_host_port("example.com");
    assert!(result.is_err());
}

#[test]
fn host_port_splits_at_last_colon() {
    let (host, port) = parse_host_port("[::1]:8080").unwrap();
    assert_eq!(host, "[::1]");
    assert_eq!(port, 8080);
    assert_eq!(parse_host_port("h:70000").unwrap_err(), "Invalid port number");
    assert_eq!(parse_host_port("nocolon").unwrap_err(), "Expected host:port format");
}

#[test]
fn connect_line_is_read() {
    let req = parse_connect_line("CONNECT example.com:443 HTTP/1.1\r\n").unwrap();
    assert_eq!(req.host, "example.com");
    assert_eq!(req.port, 443);
    assert_eq!(parse_connect_line("GET / HTTP/1.1").unwrap_err(), "Expected CONNECT request");
    assert_eq!(parse_connect_line("CONNECT host-without-port HTTP/1.1").unwrap_err(), "Expected host:port format");
}

#[test]
fn connect_answers() {
    assert_eq!(connect_established_response(), b"HTTP/1.1 200 Connection Established\r\n\r\n".to_vec());
    assert_eq!(error_response(502, "Bad Gateway"), "HTTP/1.1 502 Bad Gateway\r\nContent-Length: 0\r\n\r\n");
}
