use scred_http::fixed_upstream::FixedUpstream;

#[test]
fn parse_https_root() {
    let upstream = FixedUpstream::parse("https://httpbin.org").unwrap();
    assert_eq!(upstream.scheme, "https");
    assert_eq!(upstream.host, "httpbin.org");
    assert_eq!(upstream.port, 443);
    assert_eq!(upstream.base_path, "/");
}

#[test]
fn parse_http_with_base_path() {
    let upstream = FixedUpstream::parse("http://example.com:8080/api").unwrap();
    assert_eq!(upstream.host, "example.com");
    assert_eq!(upstream.port, 8080);
    assert_eq!(upstream.base_path, "/api");
}

#[test]
fn rewrite_request_line_root_base() {
    let upstream = FixedUpstream::parse("https://httpbin.org").unwrap();
    let line = upstream.rewrite_request_line("GET /anything HTTP/1.1").unwrap();
    assert_eq!(line, "GET /anything HTTP/1.1");
}

#[test]
fn rewrite_request_line_with_base_path() {
    let upstream = FixedUpstream::parse("https://httpbin.org/base").unwrap();
    let line = upstream.rewrite_request_line("GET /anything HTTP/1.1").unwrap();
    assert_eq!(line, "GET /base/anything HTTP/1.1");
}

#[test]
fn upstream_url_errors() {
    assert_eq!(FixedUpstream::parse("example.com").unwrap_err(), "upstream URL must include scheme (http:// or https://)");
    assert_eq!(FixedUpstream::parse("ftp://example.com").unwrap_err(), "unsupported upstream scheme: ftp");
    assert_eq!(FixedUpstream::parse("http://example.com:http/").unwrap_err(), "invalid upstream port");
    assert_eq!(FixedUpstream::parse("https:///path").unwrap_err(), "upstream host cannot be empty");
}

#[test]
fn upstream_base_path_and_authority() {
    let u = FixedUpstream::parse("http://h:81/a/b///").unwrap();
    assert_eq!(u.base_path, "/a/b");
    assert_eq!(u.authority(), "h:81");
    let u2 = FixedUpstream::parse("https://h/").unwrap();
    assert_eq!(u2.base_path, "/");
    assert_eq!(u2.port, 443);
    let u3 = FixedUpstream::parse("http://:8080/x").unwrap();
    assert_eq!(u3.host, ":8080");
    assert_eq!(u3.port, 80);
}

#[test]
fn request_line_rewrites() {
    let u = FixedUpstream::parse("https://h/base/").unwrap();
    assert_eq!(u.rewrite_request_line("GET / HTTP/1.1").unwrap(), "GET /base HTTP/1.1");
    assert_eq!(u.rewrite_request_line("GET http://x/y HTTP/1.1").unwrap(), "GET http://x/y HTTP/1.1");
    assert_eq!(u.rewrite_request_line("GET  /a").unwrap_err(), "invalid request line");
}
