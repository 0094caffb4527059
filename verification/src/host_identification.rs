use vstd::prelude::*;
use std::collections::HashMap;
use crate::string_map::{map_insert, holds_texts};
use crate::text::{str_eq, split_char, split_spec, views, parse_u16, parse_u16_spec, decimal, push_decimal, concat_str};

verus! {

/// Where a connection's target host was learned.
#[derive(Debug, Clone, Copy, PartialEq, Eq, Structural)]
pub enum HostSource {
    ConnectRequest,
    ServerNameIndication,
    HttpHostHeader,
    CertificateCN,
    Unknown,
}

/// How a host source is named in messages.
pub open spec fn source_name(s: HostSource) -> Seq<char> {
    match s {
        HostSource::ConnectRequest => "CONNECT request"@,
        HostSource::ServerNameIndication => "TLS SNI"@,
        HostSource::HttpHostHeader => "HTTP Host header"@,
        HostSource::CertificateCN => "Certificate CN"@,
        HostSource::Unknown => "Unknown"@,
    }
}

impl HostSource {
    /// The source's name in messages.
    pub fn to_string(&self) -> (r: String)
        ensures
            r@ == source_name(*self),
    {
        match self {
            HostSource::ConnectRequest => String::from_str("CONNECT request"),
            HostSource::ServerNameIndication => String::from_str("TLS SNI"),
            HostSource::HttpHostHeader => String::from_str("HTTP Host header"),
            HostSource::CertificateCN => String::from_str("Certificate CN"),
            HostSource::Unknown => String::from_str("Unknown"),
        }
    }
}

/// The host information gathered for a connection.
#[derive(Debug, Clone)]
pub struct HostSources {
    pub connect_host: Option<(String, u16)>,
    pub sni_host: Option<String>,
    pub http_host: Option<(String, u16)>,
    pub cert_cn: Option<String>,
}

impl Default for HostSources {
    fn default() -> (s: Self)
        ensures
            s.connect_host is None && s.sni_host is None && s.http_host is None && s.cert_cn is None,
    {
        HostSources { connect_host: None, sni_host: None, http_host: None, cert_cn: None }
    }
}

/// The host chosen for a connection, by priority: CONNECT, then SNI (port 443), then the
/// Host header, then the certificate CN (port 443).
#[derive(Debug, Clone, PartialEq, Eq)]
pub struct HostIdentification {
    pub host: String,
    pub port: u16,
    pub source: HostSource,
    pub alt_sources: HashMap<String, String>,
    pub sources_consistent: bool,
}

/// The host, port and source that the priority order picks, if any source is present.
pub open spec fn selected(s: HostSources) -> Option<(Seq<char>, u16, HostSource)> {
    match s.connect_host {
        Some((h, p)) => Some((h@, p, HostSource::ConnectRequest)),
        None => match s.sni_host {
            Some(h) => Some((h@, 443u16, HostSource::ServerNameIndication)),
            None => match s.http_host {
                Some((h, p)) => Some((h@, p, HostSource::HttpHostHeader)),
                None => match s.cert_cn {
                    Some(h) => Some((h@, 443u16, HostSource::CertificateCN)),
                    None => None,
                },
            },
        },
    }
}

/// The host text of a `(host, port)` source.
pub open spec fn host_of(o: Option<(String, u16)>) -> Option<Seq<char>> {
    match o {
        Some((h, _)) => Some(h@),
        None => None,
    }
}

/// The text of a host-name source.
pub open spec fn text_of(o: Option<String>) -> Option<Seq<char>> {
    match o {
        Some(h) => Some(h@),
        None => None,
    }
}

/// Two sources agree unless both are present and differ.
pub open spec fn agree(a: Option<Seq<char>>, b: Option<Seq<char>>) -> bool {
    match (a, b) {
        (Some(x), Some(y)) => x == y,
        _ => true,
    }
}

/// Whether the sources agree: CONNECT, SNI and Host header name the same host where
/// present, and the certificate CN names the chosen host.
pub open spec fn consistent(primary: Seq<char>, s: HostSources) -> bool {
    &&& agree(host_of(s.connect_host), text_of(s.sni_host))
    &&& agree(host_of(s.connect_host), host_of(s.http_host))
    &&& agree(text_of(s.sni_host), host_of(s.http_host))
    &&& agree(text_of(s.cert_cn), Some(primary))
}

/// The text of each present source, keyed `connect`, `sni`, `http_host`, `cert_cn`.
pub open spec fn alt_view(s: HostSources) -> Map<Seq<char>, Seq<char>> {
    let m0 = Map::<Seq<char>, Seq<char>>::empty();
    let m1 = match s.connect_host { Some((h, p)) => m0.insert("connect"@, h@ + ":"@ + decimal(p as nat)), None => m0 };
    let m2 = match s.sni_host { Some(h) => m1.insert("sni"@, h@), None => m1 };
    let m3 = match s.http_host { Some((h, p)) => m2.insert("http_host"@, h@ + ":"@ + decimal(p as nat)), None => m2 };
    match s.cert_cn { Some(h) => m3.insert("cert_cn"@, h@), None => m3 }
}

fn host_port_text(h: &String, p: u16) -> (r: String)
    ensures
        r@ == h@ + ":"@ + decimal(p as nat),
{
    let mut t = concat_str(h.as_str(), ":");
    push_decimal(&mut t, p as u64);
    t
}

impl HostIdentification {
    /// Chooses the host from the gathered sources (see `selected`), records every source
    /// present, and checks that they agree; an error when no source is present.
    pub fn from_sources(sources: &HostSources) -> (r: Result<Self, String>)
        ensures
            match selected(*sources) {
                Some((h, p, src)) => r matches Ok(id) && id.host@ == h && id.port == p && id.source == src
                    && id.sources_consistent == consistent(h, *sources)
                    && holds_texts(id.alt_sources@, alt_view(*sources)),
                None => r matches Err(e) && e@ == "No host identification source available"@,
            },
    {
        let (host, port, source) = match &sources.connect_host {
            Some((h, p)) => (h.clone(), *p, HostSource::ConnectRequest),
            None => match &sources.sni_host {
                Some(h) => (h.clone(), 443u16, HostSource::ServerNameIndication),
                None => match &sources.http_host {
                    Some((h, p)) => (h.clone(), *p, HostSource::HttpHostHeader),
                    None => match &sources.cert_cn {
                        Some(h) => (h.clone(), 443u16, HostSource::CertificateCN),
                        None => {
                            return Err(String::from_str("No host identification source available"));
                        },
                    },
                },
            },
        };
        proof {
            reveal_strlit("connect");
            reveal_strlit("sni");
            reveal_strlit("http_host");
            reveal_strlit("cert_cn");
        }
        let mut alt_sources: HashMap<String, String> = HashMap::new();
        let ghost mut expected = Map::<Seq<char>, Seq<char>>::empty();
        if let Some((h, p)) = &sources.connect_host {
            let k = String::from_str("connect");
            let v = host_port_text(h, *p);
            proof { lemma_holds_texts_insert(alt_sources@, expected, k, v); }
            map_insert(&mut alt_sources, k, v);
            proof { expected = expected.insert(k@, v@); }
        }
        if let Some(h) = &sources.sni_host {
            let k = String::from_str("sni");
            let v = h.clone();
            proof {
                assert(k@.len() != "connect"@.len()); lemma_holds_texts_insert(alt_sources@, expected, k, v); }
            map_insert(&mut alt_sources, k, v);
            proof { expected = expected.insert(k@, v@); }
        }
        if let Some((h, p)) = &sources.http_host {
            let k = String::from_str("http_host");
            let v = host_port_text(h, *p);
            proof {
                assert(k@.len() != "connect"@.len() && k@.len() != "sni"@.len()); lemma_holds_texts_insert(alt_sources@, expected, k, v); }
            map_insert(&mut alt_sources, k, v);
            proof { expected = expected.insert(k@, v@); }
        }
        if let Some(h) = &sources.cert_cn {
            let k = String::from_str("cert_cn");
            let v = h.clone();
            proof {
                assert(k@[1] != "connect"@[1] && k@.len() != "sni"@.len() && k@.len() != "http_host"@.len()); lemma_holds_texts_insert(alt_sources@, expected, k, v); }
            map_insert(&mut alt_sources, k, v);
            proof { expected = expected.insert(k@, v@); }
        }
        assert(expected == alt_view(*sources));
        let sources_consistent = Self::validate_sources(host.as_str(), sources);
        Ok(HostIdentification { host, port, source, alt_sources, sources_consistent })
    }

    /// Whether the sources agree (see `consistent`).
    fn validate_sources(primary_host: &str, sources: &HostSources) -> (r: bool)
        ensures
            r == consistent(primary_host@, *sources),
    {
        let mut ok = true;
        if let (Some((c, _)), Some(n)) = (&sources.connect_host, &sources.sni_host) {
            if !str_eq(c.as_str(), n.as_str()) {
                ok = false;
            }
        }
        if let (Some((c, _)), Some((h, _))) = (&sources.connect_host, &sources.http_host) {
            if !str_eq(c.as_str(), h.as_str()) {
                ok = false;
            }
        }
        if let (Some(n), Some((h, _))) = (&sources.sni_host, &sources.http_host) {
            if !str_eq(n.as_str(), h.as_str()) {
                ok = false;
            }
        }
        if let Some(cn) = &sources.cert_cn {
            if !str_eq(cn.as_str(), primary_host) {
                ok = false;
            }
        }
        ok
    }

    /// `host:port`.
    pub fn address(&self) -> (r: String)
        ensures
            r@ == self.host@ + ":"@ + decimal(self.port as nat),
    {
        host_port_text(&self.host, self.port)
    }

    /// The line that describes the identification in the log.
    pub fn log_identification(&self) -> (r: String)
        ensures
            r@ == "Host identification: "@ + self.host@ + ":"@ + decimal(self.port as nat) + " (source: "@
                + source_name(self.source) + ", consistent: "@ + (if self.sources_consistent { "true"@ } else { "false"@ })
                + ")"@,
    {
        let mut r = String::from_str("Host identification: ");
        r.append(self.address().as_str());
        r.append(" (source: ");
        r.append(self.source.to_string().as_str());
        r.append(", consistent: ");
        r.append(if self.sources_consistent { "true" } else { "false" });
        r.append(")");
        r
    }
}

/// Inserting a pair under a new text keeps the correspondence.
proof fn lemma_holds_texts_insert(m: Map<String, String>, t: Map<Seq<char>, Seq<char>>, k: String, v: String)
    requires
        holds_texts(m, t),
        !t.contains_key(k@),
    ensures
        holds_texts(m.insert(k, v), t.insert(k@, v@)),
        forall|k2: String| #[trigger] m.contains_key(k2) ==> k2@ != k@,
{
    let m2 = m.insert(k, v);
    let t2 = t.insert(k@, v@);
    assert forall|x: Seq<char>| #[trigger] t2.contains_key(x) implies exists|s: String| m2.contains_key(s) && s@ == x by {
        if x == k@ {
            assert(m2.contains_key(k));
        } else {
            let s = choose|s: String| m.contains_key(s) && s@ == x;
            assert(m2.contains_key(s));
        }
    }
}

/// What a Host header value gives: a bare host (port 443), or `host:port`; a port that is
/// not a 16-bit number, or more than one colon, is refused.
pub open spec fn host_header_spec(v: Seq<char>) -> Result<(Seq<char>, u16), Seq<char>> {
    let parts = split_spec(v, ':');
    if parts.len() == 1 {
        Ok((parts[0], 443u16))
    } else if parts.len() == 2 {
        match parse_u16_spec(parts[1]) {
            Some(p) => Ok((parts[0], p)),
            None => Err("Invalid port in Host header: "@ + parts[1]),
        }
    } else {
        Err("Invalid Host header format: "@ + v)
    }
}

/// Parses a Host header value (see `host_header_spec`).
pub fn parse_host_header(header_value: &str) -> (r: Result<(String, u16), String>)
    ensures
        match host_header_spec(header_value@) {
            Ok((h, p)) => r matches Ok((rh, rp)) && rh@ == h && rp == p,
            Err(m) => r matches Err(e) && e@ == m,
        },
{
    let parts = split_char(header_value, ':');
    assert(parts@.len() > 0 ==> parts@[0]@ == views(parts@)[0]);
    assert(parts@.len() > 1 ==> parts@[1]@ == views(parts@)[1]);
    if parts.len() == 1 {
        Ok((parts[0].clone(), 443))
    } else if parts.len() == 2 {
        match parse_u16(parts[1].as_str()) {
            Some(p) => Ok((parts[0].clone(), p)),
            None => Err(concat_str("Invalid port in Host header: ", parts[1].as_str())),
        }
    } else {
        Err(concat_str("Invalid Host header format: ", header_value))
    }
}

/// SNI is read by the TLS layer; this finds none in a ClientHello.
pub fn extract_sni_from_clienthello(data: &[u8]) -> (r: Option<String>)
    ensures
        r is None,
{
    None
}

} // verus!
