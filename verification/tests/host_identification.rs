use scred_http::host_identification::{parse_host_header, HostIdentification, HostSource, HostSources};
use std::collections::HashMap;

#[test]
fn test_host_identification_from_connect() {
    let sources = HostSources {
        connect_host: Some(("example.com".to_string(), 443)),
        sni_host: None,
        http_host: None,
        cert_cn: None,
    };

    let identification = HostIdentification::from_sources(&sources).unwrap();
    assert_eq!(identification.host, "example.com");
    assert_eq!(identification.port, 443);
    assert_eq!(identification.source, HostSource::ConnectRequest);
    assert!(identification.sources_consistent);
}

#[test]
fn test_host_identification_from_sni() {
    let sources = HostSources {
        connect_host: None,
        sni_host: Some("example.com".to_string()),
        http_host: None,
        cert_cn: None,
    };

    let identification = HostIdentification::from_sources(&sources).unwrap();
    assert_eq!(identification.host, "example.com");
    assert_eq!(identification.port, 443);
    assert_eq!(identification.source, HostSource::ServerNameIndication);
}

#[test]
fn test_host_identification_priority() {
    // CONNECT should take priority over SNI
    let sources = HostSources {
        connect_host: Some(("connect.com".to_string(), 443)),
        sni_host: Some("sni.com".to_string()),
        http_host: None,
        cert_cn: None,
    };

    let identification = HostIdentification::from_sources(&sources).unwrap();
    assert_eq!(identification.host, "connect.com");
    assert_eq!(identification.source, HostSource::ConnectRequest);
    assert!(!identification.sources_consistent); // Mismatch
}

#[test]
fn test_parse_host_header_with_port() {
    let (host, port) = parse_host_header("example.com:8080").unwrap();
    assert_eq!(host, "example.com");
    assert_eq!(port, 8080);
}

#[test]
fn test_parse_host_header_no_port() {
    let (host, port) = parse_host_header("example.com").unwrap();
    assert_eq!(host, "example.com");
    assert_eq!(port, 443);
}

#[test]
fn test_host_identification_fallback_to_cert() {
    let sources = HostSources {
        connect_host: None,
        sni_host: None,
        http_host: None,
        cert_cn: Some("example.com".to_string()),
    };

    let identification = HostIdentification::from_sources(&sources).unwrap();
    assert_eq!(identification.host, "example.com");
    assert_eq!(identification.source, HostSource::CertificateCN);
}

#[test]
fn test_host_identification_no_sources() {
    let sources = HostSources::default();
    assert!(HostIdentification::from_sources(&sources).is_err());
}

#[test]
fn test_address_formatting() {
    let id = HostIdentification {
        host: "example.com".to_string(),
        port: 443,
        source: HostSource::ConnectRequest,
        alt_sources: HashMap::new(),
        sources_consistent: true,
    };

    assert_eq!(id.address(), "example.com:443");
}

#[test]
fn host_header_bad_port_is_refused() {
    let e = parse_host_header("example.com:99999").unwrap_err();
    assert_eq!(e, "Invalid port in Host header: 99999");
}

#[test]
fn host_header_two_colons_is_refused() {
    let e = parse_host_header("a:1:2").unwrap_err();
    assert_eq!(e, "Invalid Host header format: a:1:2");
}

#[test]
fn alt_sources_record_every_present_source() {
    let sources = HostSources {
        connect_host: Some(("a.com".to_string(), 8443)),
        sni_host: Some("a.com".to_string()),
        http_host: Some(("a.com".to_string(), 8443)),
        cert_cn: Some("a.com".to_string()),
    };
    let id = HostIdentification::from_sources(&sources).unwrap();
    assert_eq!(id.port, 8443);
    assert!(id.sources_consistent);
    assert_eq!(id.alt_sources.len(), 4);
    assert_eq!(id.alt_sources.get("connect").unwrap(), "a.com:8443");
    assert_eq!(id.alt_sources.get("sni").unwrap(), "a.com");
    assert_eq!(id.alt_sources.get("http_host").unwrap(), "a.com:8443");
    assert_eq!(id.alt_sources.get("cert_cn").unwrap(), "a.com");
}

#[test]
fn cert_cn_mismatch_is_inconsistent() {
    let sources = HostSources {
        connect_host: None,
        sni_host: None,
        http_host: Some(("h.com".to_string(), 80)),
        cert_cn: Some("other.com".to_string()),
    };
    let id = HostIdentification::from_sources(&sources).unwrap();
    assert_eq!(id.host, "h.com");
    assert_eq!(id.port, 80);
    assert_eq!(id.source, HostSource::HttpHostHeader);
    assert!(!id.sources_consistent);
}

#[test]
fn no_source_error_text() {
    let e = HostIdentification::from_sources(&HostSources::default()).unwrap_err();
    assert_eq!(e, "No host identification source available");
}

#[test]
fn log_line_and_source_names() {
    let id = HostIdentification {
        host: "x.org".to_string(),
        port: 8080,
        source: HostSource::ServerNameIndication,
        alt_sources: HashMap::new(),
        sources_consistent: false,
    };
    assert_eq!(id.log_identification(), "Host identification: x.org:8080 (source: TLS SNI, consistent: false)");
    assert_eq!(HostSource::Unknown.to_string(), "Unknown");
    assert_eq!(HostSource::CertificateCN.to_string(), "Certificate CN");
}
