use scred_http::proxy_resolver::{check_connect_answer, connect_request, parse_no_proxy_list, proxy_address, MitmConfig, NoProxyEntry};

fn make_config(no_proxy: Vec<&str>) -> MitmConfig {
    MitmConfig {
        http_proxy: None,
        https_proxy: None,
        no_proxy_list: no_proxy.iter().map(|s| {
            match *s {
                "*" => NoProxyEntry::All,
                "localhost" => NoProxyEntry::Localhost,
                s if s.starts_with(".") => NoProxyEntry::Suffix(s.to_string()),
                s if s.contains('/') => NoProxyEntry::IpRange(s.to_string()),
                s => NoProxyEntry::Host(s.to_string()),
            }
        }).collect(),
    }
}

#[test]
fn test_should_bypass_proxy_all() {
    let config = make_config(vec!["*"]);
    assert!(config.should_bypass_proxy("anything.com"));
    assert!(config.should_bypass_proxy("localhost"));
}

#[test]
fn test_should_bypass_proxy_localhost() {
    let config = make_config(vec!["localhost"]);
    assert!(config.should_bypass_proxy("localhost"));
    assert!(config.should_bypass_proxy("127.0.0.1"));
    assert!(config.should_bypass_proxy("::1"));
    assert!(!config.should_bypass_proxy("example.com"));
}

#[test]
fn test_should_bypass_proxy_host() {
    let config = make_config(vec!["example.com"]);
    assert!(config.should_bypass_proxy("example.com"));
    assert!(config.should_bypass_proxy("EXAMPLE.COM"));
    assert!(!config.should_bypass_proxy("other.com"));
}

#[test]
fn test_should_bypass_proxy_suffix() {
    let config = make_config(vec![".example.com"]);
    assert!(config.should_bypass_proxy("api.example.com"));
    assert!(config.should_bypass_proxy("sub.api.example.com"));
    assert!(!config.should_bypass_proxy("example.com"));
    assert!(!config.should_bypass_proxy("other.com"));
}

#[test]
fn test_should_bypass_proxy_no_entries() {
    let config = make_config(vec![]);
    assert!(!config.should_bypass_proxy("anything.com"));
}

#[test]
fn test_no_proxy_entry_debug() {
    let all = NoProxyEntry::All;
    let host = NoProxyEntry::Host("example.com".to_string());
    assert!(!format!("{:?}", all).is_empty());
    assert!(!format!("{:?}", host).is_empty());
}

#[test]
fn test_parse_no_proxy_list_empty() {
    let result = parse_no_proxy_list("");
    assert!(result.is_empty());
}

#[test]
fn test_parse_no_proxy_list_wildcard() {
    let result = parse_no_proxy_list("*");
    assert_eq!(result.len(), 1);
    assert!(matches!(result[0], NoProxyEntry::All));
}

#[test]
fn test_parse_no_proxy_list_localhost() {
    let result = parse_no_proxy_list("localhost");
    assert_eq!(result.len(), 1);
    assert!(matches!(result[0], NoProxyEntry::Localhost));
}

#[test]
fn test_parse_no_proxy_list_domain() {
    let result = parse_no_proxy_list(".example.com");
    assert_eq!(result.len(), 1);
    assert!(matches!(result[0], NoProxyEntry::Suffix(_)));
}

#[test]
fn test_parse_no_proxy_list_hostname() {
    let result = parse_no_proxy_list("internal-service");
    assert_eq!(result.len(), 1);
    assert!(matches!(result[0], NoProxyEntry::Host(_)));
}

#[test]
fn test_parse_no_proxy_list_multiple() {
    let result = parse_no_proxy_list("localhost, .example.com, internal-service");
    assert_eq!(result.len(), 3);
}

#[test]
fn test_parse_no_proxy_list_ip_range() {
    let result = parse_no_proxy_list("10/8");
    assert_eq!(result.len(), 1);
    assert!(matches!(result[0], NoProxyEntry::IpRange(_)));
}

#[test]
fn test_parse_no_proxy_list_127_0_0_1() {
    let result = parse_no_proxy_list("127.0.0.1");
    assert_eq!(result.len(), 1);
    assert!(matches!(result[0], NoProxyEntry::Localhost));
}

#[test]
fn test_parse_no_proxy_list_ipv6() {
    let result = parse_no_proxy_list("::1");
    assert_eq!(result.len(), 1);
    assert!(matches!(result[0], NoProxyEntry::Localhost));
}

#[test]
fn from_env_values_filters_empty() {
    let config = MitmConfig::from_env_values(Some(String::new()), Some("http://p:3128".to_string()), None);
    assert!(config.http_proxy.is_none());
    assert_eq!(config.https_proxy.as_deref(), Some("http://p:3128"));
    assert!(config.no_proxy_list.is_empty());
    assert!(config.has_proxy());
    let stats = config.stats();
    assert!(!stats.http_proxy_set && stats.https_proxy_set && stats.no_proxy_count == 0);
}

#[test]
fn get_proxy_for_prefers_https_then_http() {
    let config = MitmConfig::from_env_values(
        Some("http://h:1".to_string()),
        None,
        Some(" localhost , .corp.net,,".to_string()),
    );
    assert_eq!(config.no_proxy_list.len(), 2);
    assert_eq!(config.get_proxy_for("example.com", true).as_deref(), Some("http://h:1"));
    assert_eq!(config.get_proxy_for("example.com", false).as_deref(), Some("http://h:1"));
    assert!(config.get_proxy_for("localhost", true).is_none());
    assert!(config.get_proxy_for("a.corp.net", false).is_none());
}

#[test]
fn suffix_entry_without_dot_matches_subdomains_and_itself() {
    let list = parse_no_proxy_list("example.com");
    assert!(matches!(list[0], NoProxyEntry::Suffix(_)));
    let config = MitmConfig { http_proxy: None, https_proxy: None, no_proxy_list: list };
    assert!(config.should_bypass_proxy("example.com"));
    assert!(config.should_bypass_proxy("api.example.com"));
    assert!(!config.should_bypass_proxy("example.org"));
}

#[test]
fn connect_helpers() {
    assert_eq!(proxy_address("http://proxy.local:8080"), "proxy.local:8080");
    assert_eq!(proxy_address("proxy.local:8080"), "proxy.local:8080");
    assert_eq!(
        connect_request("example.com", 443),
        "CONNECT example.com:443 HTTP/1.1\r\nHost: example.com:443\r\nProxy-Connection: keep-alive\r\n\r\n"
    );
    assert!(check_connect_answer(b"HTTP/1.1 200 Connection established\r\n\r\n", "h", 1).is_ok());
    assert_eq!(
        check_connect_answer(b"HTTP/1.1 403 Forbidden\r\nX: y\r\n", "h", 443).unwrap_err(),
        "Proxy blocked CONNECT to h:443 - HTTP/1.1 403 Forbidden"
    );
    assert_eq!(check_connect_answer(b"", "h", 1).unwrap_err(), "Proxy closed connection");
}
