use scred_http::http_proxy_handler::{extract_header_value, inject_proxy_headers, parse_proxy_url, HttpProxyConfig};
use scred_http::{header_rewriter, location_rewriter};

#[test]
fn test_parse_url_with_port() {
    let (host, port, path) = parse_proxy_url("http://example.com:8080/api/test").unwrap();
    assert_eq!(host, "example.com");
    assert_eq!(port, 8080);
    assert_eq!(path, "/api/test");
}

#[test]
fn test_parse_url_without_port() {
    let (host, port, path) = parse_proxy_url("http://example.com/api").unwrap();
    assert_eq!(host, "example.com");
    assert_eq!(port, 80);
    assert_eq!(path, "/api");
}

#[test]
fn test_parse_url_root_path() {
    let (host, port, path) = parse_proxy_url("http://example.com").unwrap();
    assert_eq!(host, "example.com");
    assert_eq!(port, 80);
    assert_eq!(path, "/");
}

#[test]
fn test_extract_header_value() {
    let headers = "Host: example.com\r\nContent-Length: 100\r\n";
    assert_eq!(
        extract_header_value(headers, "content-length"),
        Some("100".to_string())
    );
    assert_eq!(extract_header_value(headers, "host"), Some("example.com".to_string()));
}


#[test]
fn test_host_header_rewriting() {
    let mut headers = "Host: localhost:9999\r\nUser-Agent: curl\r\n".to_string();
    
    // Before: Host: localhost:9999
    assert_eq!(
        header_rewriter::extract_header_value(&headers, "Host"),
        Some("localhost:9999".to_string())
    );
    
    // Rewrite to upstream target
    header_rewriter::replace_header_value(&mut headers, "Host", "httpbin.org");
    
    // After: Host: httpbin.org
    assert_eq!(
        header_rewriter::extract_header_value(&headers, "Host"),
        Some("httpbin.org".to_string())
    );
    
    // Other headers preserved
    assert_eq!(
        header_rewriter::extract_header_value(&headers, "User-Agent"),
        Some("curl".to_string())
    );
}

#[test]
fn test_host_header_injection_if_missing() {
    let mut headers = "User-Agent: curl\r\n".to_string();
    
    // Before: no Host header
    assert_eq!(
        header_rewriter::extract_header_value(&headers, "Host"),
        None
    );
    
    // Inject Host header
    header_rewriter::inject_header_if_missing(&mut headers, "Host", "httpbin.org");
    
    // After: Host: httpbin.org
    assert_eq!(
        header_rewriter::extract_header_value(&headers, "Host"),
        Some("httpbin.org".to_string())
    );
}

#[test]
fn test_host_header_not_overwritten_if_present() {
    let mut headers = "Host: already-present.com\r\nUser-Agent: curl\r\n".to_string();
    
    // Before: Host: already-present.com
    assert_eq!(
        header_rewriter::extract_header_value(&headers, "Host"),
        Some("already-present.com".to_string())
    );
    
    // Inject should do nothing if already present
    header_rewriter::inject_header_if_missing(&mut headers, "Host", "httpbin.org");
    
    // After: still Host: already-present.com
    assert_eq!(
        header_rewriter::extract_header_value(&headers, "Host"),
        Some("already-present.com".to_string())
    );
}


#[test]
fn test_location_absolute_uri_should_rewrite() {
    let location = "https://httpbin.org/redirect/1";
    let upstream_host = "httpbin.org";
    
    assert!(location_rewriter::should_rewrite_location(location, upstream_host));
}

#[test]
fn test_location_absolute_path_should_not_rewrite() {
    let location = "/other/path";
    let upstream_host = "httpbin.org";
    
    assert!(!location_rewriter::should_rewrite_location(location, upstream_host));
}

#[test]
fn test_location_rewrite_to_proxy() {
    let location = "https://httpbin.org/redirect/1?next=/get";
    let result = location_rewriter::rewrite_location_to_proxy(location, "http", "localhost:9999");
    
    assert_eq!(result, "http://localhost:9999/redirect/1?next=/get");
}

#[test]
fn test_location_different_upstream_should_not_rewrite() {
    let location = "https://example.com/path";
    let upstream_host = "httpbin.org";
    
    assert!(!location_rewriter::should_rewrite_location(location, upstream_host));
}

#[test]
fn parse_url_https_and_bad_port() {
    let (host, port, path) = parse_proxy_url("https://secure.example:8443").unwrap();
    assert_eq!((host.as_str(), port, path.as_str()), ("secure.example", 8443, "/"));
    assert_eq!(parse_proxy_url("http://h:99999/x").unwrap_err(), "Invalid port");
    assert_eq!(parse_proxy_url("http://h:/x").unwrap_err(), "Invalid port");
    let (host, port, path) = parse_proxy_url("plain/p?q=1").unwrap();
    assert_eq!((host.as_str(), port, path.as_str()), ("plain", 80, "/p?q=1"));
}

#[test]
fn handler_extract_header_value_uses_second_colon_piece() {
    let headers = "Location: http://a:8080/x\r\nX-Empty\r\n";
    assert_eq!(extract_header_value(headers, "location"), Some("http".to_string()));
    assert_eq!(extract_header_value(headers, "missing"), None);
}

#[test]
fn inject_proxy_headers_lines() {
    let config = HttpProxyConfig::default();
    let out = inject_proxy_headers("HTTP/1.1 200 OK\r\nA: b\r\n\r\nbody", 0, "HTTP/1.1 200 OK\r\nA: b\r\n\r\nbody", &config).unwrap();
    assert_eq!(out, "HTTP/1.1 200 OK\r\nVia: 1.1 scred-proxy\r\nX-SCRED-Redacted: false (no secrets found)\r\nA: b\r\n\r\nbody\r\n");
    let cfg = HttpProxyConfig { add_via_header: false, add_scred_header: true };
    let out = inject_proxy_headers("HTTP/1.1 200 OK\r\n\r\nxx", 2, "HTTP/1.1 200 OK\r\n\r\nxxxx", &cfg).unwrap();
    assert_eq!(out, "HTTP/1.1 200 OK\r\nX-SCRED-Redacted: true (2 bytes redacted, 2 patterns found)\r\n\r\nxx\r\n");
}

#[test]
fn header_rewriter_edge_cases() {
    let mut headers = "GET / HTTP/1.1\r\nUser-Agent: x\r\n\r\n".to_string();
    header_rewriter::inject_header_if_missing(&mut headers, "Host", "h.example");
    assert_eq!(headers, "GET / HTTP/1.1\r\nUser-Agent: x\r\nHost: h.example\r\n\r\n");
    let mut headers = "A: 1".to_string();
    header_rewriter::inject_header_if_missing(&mut headers, "Host", "h");
    assert_eq!(headers, "A: 1\r\nHost: h\r\n\r\n");
    let mut headers = "host: a\r\nHOST: b\r\n".to_string();
    header_rewriter::replace_header_value(&mut headers, "Host", "c");
    assert_eq!(headers, "Host: c\r\nHOST: b\r\n");
    assert_eq!(header_rewriter::extract_header_value("X: a:b\r\n", "x"), Some("a:b".to_string()));
}

#[test]
fn location_rewriter_ports_and_hosts() {
    assert!(location_rewriter::is_absolute_uri("ftp://x"));
    assert!(!location_rewriter::is_absolute_uri("/x"));
    assert_eq!(location_rewriter::extract_host_from_uri("https://h:443/p"), Some("h:443".to_string()));
    assert_eq!(location_rewriter::extract_host_from_uri("https:///p"), None);
    assert_eq!(location_rewriter::extract_host_from_uri("nope"), None);
    assert!(location_rewriter::should_rewrite_location("https://HttpBin.org:443/x", "httpbin.org"));
    assert!(!location_rewriter::should_rewrite_location("https://httpbin.org:80/x", "httpbin.org:443"));
    assert!(location_rewriter::should_rewrite_location("https://httpbin.org:443/x", "httpbin.org:443"));
    assert_eq!(location_rewriter::rewrite_location_to_proxy("https://h", "http", "p:1"), "http://p:1/");
    assert_eq!(location_rewriter::rewrite_location_to_proxy("/rel", "http", "p:1"), "http://p:1/");
}
