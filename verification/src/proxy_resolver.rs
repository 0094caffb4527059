use vstd::prelude::*;
use crate::text::{
    str_eq, starts_with_char, contains_char, ends_with_str, eq_ignore_ascii_case, concat_str, trim,
    trim_spec, split_char, split_spec, ascii_lower, views, find_str, first_occurrence, first_line,
    first_line_of, decimal, push_decimal, utf8_lossy, utf8_lossy_text,
};

verus! {

/// An entry of a `no_proxy` list.
#[derive(Debug, Clone)]
pub enum NoProxyEntry {
    Host(String),
    Suffix(String),
    IpRange(String),
    Localhost,
    All,
}

/// An entry of a `no_proxy` list by its characters.
pub enum NoProxyView {
    Host(Seq<char>),
    Suffix(Seq<char>),
    IpRange(Seq<char>),
    Localhost,
    All,
}

impl View for NoProxyEntry {
    type V = NoProxyView;

    open spec fn view(&self) -> NoProxyView {
        match self {
            NoProxyEntry::Host(h) => NoProxyView::Host(h@),
            NoProxyEntry::Suffix(s) => NoProxyView::Suffix(s@),
            NoProxyEntry::IpRange(r) => NoProxyView::IpRange(r@),
            NoProxyEntry::Localhost => NoProxyView::Localhost,
            NoProxyEntry::All => NoProxyView::All,
        }
    }
}

/// Whether a host names this machine's loopback.
pub open spec fn is_loopback_name(t: Seq<char>) -> bool {
    t == "localhost"@ || t == "127.0.0.1"@ || t == "::1"@
}

/// The kind of a trimmed, non-empty `no_proxy` item: `*` for all hosts, a loopback name,
/// a domain (it holds a dot), an address range (it holds a slash), or a host name.
pub open spec fn classify(t: Seq<char>) -> NoProxyView {
    if t == "*"@ {
        NoProxyView::All
    } else if is_loopback_name(t) {
        NoProxyView::Localhost
    } else if (t.len() > 0 && t[0] == '.') || t.contains('.') {
        NoProxyView::Suffix(t)
    } else if t.contains('/') {
        NoProxyView::IpRange(t)
    } else {
        NoProxyView::Host(t)
    }
}

/// The entries of the comma-separated items `pieces`: each item trimmed, empty ones left out.
pub open spec fn no_proxy_entries(pieces: Seq<Seq<char>>) -> Seq<NoProxyView>
    decreases pieces.len(),
{
    if pieces.len() == 0 {
        Seq::empty()
    } else {
        let prev = no_proxy_entries(pieces.drop_last());
        let t = trim_spec(pieces.last());
        if t.len() == 0 { prev } else { prev.push(classify(t)) }
    }
}

/// The entries of a `no_proxy` value.
pub open spec fn parse_no_proxy_spec(s: Seq<char>) -> Seq<NoProxyView> {
    no_proxy_entries(split_spec(s, ','))
}

/// Whether an entry exempts `host` from the proxy.
pub open spec fn entry_matches(e: NoProxyView, host: Seq<char>) -> bool {
    match e {
        NoProxyView::All => true,
        NoProxyView::Localhost => is_loopback_name(host),
        NoProxyView::Host(h) => host.map_values(|c: char| ascii_lower(c)) == h.map_values(|c: char| ascii_lower(c)),
        NoProxyView::Suffix(s) => s.is_suffix_of(host) || (seq!['.'] + s).is_suffix_of(host),
        NoProxyView::IpRange(r) => host == r,
    }
}

/// The entry for a trimmed, non-empty item.
fn classify_entry(t: String) -> (e: NoProxyEntry)
    ensures
        e@ == classify(t@),
{
    if str_eq(t.as_str(), "*") {
        NoProxyEntry::All
    } else if str_eq(t.as_str(), "localhost") || str_eq(t.as_str(), "127.0.0.1") || str_eq(t.as_str(), "::1") {
        NoProxyEntry::Localhost
    } else if starts_with_char(t.as_str(), '.') || contains_char(t.as_str(), '.') {
        NoProxyEntry::Suffix(t)
    } else if contains_char(t.as_str(), '/') {
        NoProxyEntry::IpRange(t)
    } else {
        NoProxyEntry::Host(t)
    }
}

/// Parses a `no_proxy` value: comma-separated hosts, domains and address ranges.
pub fn parse_no_proxy_list(no_proxy_str: &str) -> (r: Vec<NoProxyEntry>)
    ensures
        r@.map_values(|e: NoProxyEntry| e@) == parse_no_proxy_spec(no_proxy_str@),
{
    let pieces = split_char(no_proxy_str, ',');
    let ghost pv = views(pieces@);
    let mut entries: Vec<NoProxyEntry> = Vec::new();
    let mut i: usize = 0;
    while i < pieces.len()
        invariant
            i <= pieces@.len(),
            pv == views(pieces@),
            entries@.map_values(|e: NoProxyEntry| e@) == no_proxy_entries(pv.take(i as int)),
        decreases pieces@.len() - i,
    {
        assert(pv.take(i + 1).drop_last() =~= pv.take(i as int));
        assert(pv.take(i + 1).last() == pieces@[i as int]@);
        let entry = trim(pieces[i].as_str());
        let ghost before = entries@.map_values(|e: NoProxyEntry| e@);
        if !entry.as_str().is_empty() {
            let e = classify_entry(entry);
            entries.push(e);
            assert(entries@.map_values(|e: NoProxyEntry| e@) =~= before.push(e@));
        } else {
            assert(entry@.len() == 0);
        }
        i += 1;
    }
    assert(pv.take(i as int) =~= pv);
    entries
}

/// The proxy settings that client tools read from the environment.
#[derive(Debug, Clone)]
pub struct MitmConfig {
    pub http_proxy: Option<String>,
    pub https_proxy: Option<String>,
    pub no_proxy_list: Vec<NoProxyEntry>,
}

/// An optional string by its characters.
pub open spec fn opt_view(o: Option<String>) -> Option<Seq<char>> {
    match o {
        Some(s) => Some(s@),
        None => None,
    }
}

/// A set value: present and not empty.
pub open spec fn non_empty(o: Option<Seq<char>>) -> Option<Seq<char>> {
    match o {
        Some(s) => if s.len() == 0 { None } else { Some(s) },
        None => None,
    }
}

/// Keeps a value only when it is not empty.
fn keep_non_empty(o: Option<String>) -> (r: Option<String>)
    ensures
        opt_view(r) == non_empty(opt_view(o)),
{
    match o {
        Some(s) => if s.as_str().is_empty() { None } else { Some(s) },
        None => None,
    }
}

impl MitmConfig {
    /// The settings from the values of `http_proxy`, `https_proxy` and `no_proxy` (each
    /// `None` when unset): empty proxy values count as unset, an unset `no_proxy` as empty.
    pub fn from_env_values(http_proxy: Option<String>, https_proxy: Option<String>, no_proxy: Option<String>) -> (c: Self)
        ensures
            opt_view(c.http_proxy) == non_empty(opt_view(http_proxy)),
            opt_view(c.https_proxy) == non_empty(opt_view(https_proxy)),
            c.no_proxy_list@.map_values(|e: NoProxyEntry| e@) == parse_no_proxy_spec(match no_proxy {
                Some(s) => s@,
                None => Seq::<char>::empty(),
            }),
    {
        let no_proxy_str = match no_proxy {
            Some(s) => s,
            None => String::new(),
        };
        MitmConfig {
            http_proxy: keep_non_empty(http_proxy),
            https_proxy: keep_non_empty(https_proxy),
            no_proxy_list: parse_no_proxy_list(no_proxy_str.as_str()),
        }
    }

    /// Whether some `no_proxy` entry exempts `host`.
    pub open spec fn bypasses(&self, host: Seq<char>) -> bool {
        exists|i: int| 0 <= i < self.no_proxy_list@.len() && entry_matches(#[trigger] self.no_proxy_list@[i]@, host)
    }

    /// Whether some `no_proxy` entry exempts `host` from the proxy.
    pub fn should_bypass_proxy(&self, host: &str) -> (r: bool)
        ensures
            r == self.bypasses(host@),
    {
        let mut i: usize = 0;
        while i < self.no_proxy_list.len()
            invariant
                i <= self.no_proxy_list@.len(),
                forall|j: int| 0 <= j < i ==> !entry_matches(#[trigger] self.no_proxy_list@[j]@, host@),
            decreases self.no_proxy_list@.len() - i,
        {
            let m = match &self.no_proxy_list[i] {
                NoProxyEntry::All => true,
                NoProxyEntry::Localhost => str_eq(host, "localhost") || str_eq(host, "127.0.0.1") || str_eq(host, "::1"),
                NoProxyEntry::Host(h) => eq_ignore_ascii_case(host, h.as_str()),
                NoProxyEntry::Suffix(suffix) => {
                    let dotted = concat_str(".", suffix.as_str());
                    proof { reveal_strlit("."); }
                    ends_with_str(host, suffix.as_str()) || ends_with_str(host, dotted.as_str())
                },
                NoProxyEntry::IpRange(cidr) => str_eq(host, cidr.as_str()),
            };
            if m {
                assert(entry_matches(self.no_proxy_list@[i as int]@, host@));
                return true;
            }
            i += 1;
        }
        false
    }

    /// The proxy for a target: none when the target is exempt; for HTTPS the HTTPS proxy,
    /// else the HTTP one; for HTTP the HTTP proxy; an empty value counts as none.
    pub fn get_proxy_for(&self, target_host: &str, is_https: bool) -> (r: Option<String>)
        ensures
            opt_view(r) == if self.bypasses(target_host@) {
                None
            } else {
                non_empty(if is_https {
                    match opt_view(self.https_proxy) {
                        Some(v) => Some(v),
                        None => opt_view(self.http_proxy),
                    }
                } else {
                    opt_view(self.http_proxy)
                })
            },
    {
        if self.should_bypass_proxy(target_host) {
            return None;
        }
        let proxy_value = if is_https {
            match &self.https_proxy {
                Some(v) => Some(v.clone()),
                None => match &self.http_proxy {
                    Some(v) => Some(v.clone()),
                    None => None,
                },
            }
        } else {
            match &self.http_proxy {
                Some(v) => Some(v.clone()),
                None => None,
            }
        };
        keep_non_empty(proxy_value)
    }

    /// Whether an HTTP or HTTPS proxy is set.
    pub fn has_proxy(&self) -> (r: bool)
        ensures
            r == (self.http_proxy is Some || self.https_proxy is Some),
    {
        self.http_proxy.is_some() || self.https_proxy.is_some()
    }

    /// Which proxies are set and how many `no_proxy` entries there are.
    pub fn stats(&self) -> (s: ProxyStats)
        ensures
            s.http_proxy_set == self.http_proxy is Some,
            s.https_proxy_set == self.https_proxy is Some,
            s.no_proxy_count == self.no_proxy_list@.len(),
    {
        ProxyStats {
            http_proxy_set: self.http_proxy.is_some(),
            https_proxy_set: self.https_proxy.is_some(),
            no_proxy_count: self.no_proxy_list.len(),
        }
    }
}

/// Which proxies are set and how many `no_proxy` entries there are.
#[derive(Debug)]
pub struct ProxyStats {
    pub http_proxy_set: bool,
    pub https_proxy_set: bool,
    pub no_proxy_count: usize,
}

/// The address to dial for a proxy URL: what follows the first `://` up to the next one,
/// or the whole text without a scheme.
pub open spec fn proxy_address_spec(p: Seq<char>) -> Seq<char> {
    match first_occurrence(p, "://"@) {
        Some(i) => {
            let rest = p.skip(i + 3);
            match first_occurrence(rest, "://"@) {
                Some(j) => rest.take(j),
                None => rest,
            }
        },
        None => p,
    }
}

/// The address to dial for a proxy URL (see `proxy_address_spec`).
pub fn proxy_address(proxy_addr: &str) -> (r: String)
    ensures
        r@ == proxy_address_spec(proxy_addr@),
{
    let v = crate::text::chars_of(proxy_addr);
    proof { reveal_strlit("://"); }
    match find_str(proxy_addr, "://") {
        Some(i) => {
            let n = v.len();
            assert(i + 3 <= n);
            let rest = crate::text::string_of_chars(&v, i + 3, n);
            assert(rest@ =~= proxy_addr@.skip(i + 3));
            match find_str(rest.as_str(), "://") {
                Some(j) => {
                    let rv = crate::text::chars_of(rest.as_str());
                    crate::text::string_of_chars(&rv, 0, j)
                },
                None => rest,
            }
        },
        None => crate::text::string_of_chars(&v, 0, v.len()),
    }
}

/// The CONNECT request for a tunnel to `target_host:target_port`.
pub open spec fn connect_request_spec(target_host: Seq<char>, target_port: u16) -> Seq<char> {
    let hp = target_host + ":"@ + decimal(target_port as nat);
    "CONNECT "@ + hp + " HTTP/1.1\r\nHost: "@ + hp + "\r\nProxy-Connection: keep-alive\r\n\r\n"@
}

/// The CONNECT request for a tunnel to `target_host:target_port`.
pub fn connect_request(target_host: &str, target_port: u16) -> (r: String)
    ensures
        r@ == connect_request_spec(target_host@, target_port),
{
    let mut r = String::from_str("CONNECT ");
    r.append(target_host);
    r.append(":");
    push_decimal(&mut r, target_port as u64);
    r.append(" HTTP/1.1\r\nHost: ");
    r.append(target_host);
    r.append(":");
    push_decimal(&mut r, target_port as u64);
    r.append("\r\nProxy-Connection: keep-alive\r\n\r\n");
    r
}

/// What a proxy's answer to CONNECT means: the tunnel is up when the text holds "200";
/// otherwise the refusal names the target and the answer's first line.
pub open spec fn connect_answer_spec(answer: Seq<char>, target_host: Seq<char>, target_port: u16) -> Result<(), Seq<char>> {
    if first_occurrence(answer, "200"@) is Some {
        Ok(())
    } else {
        Err("Proxy blocked CONNECT to "@ + target_host + ":"@ + decimal(target_port as nat) + " - "@ + first_line(answer))
    }
}

/// Checks a proxy's answer to CONNECT (the bytes read, decoded leniently as UTF-8); an
/// empty answer means the proxy closed the connection.
pub fn check_connect_answer(answer: &[u8], target_host: &str, target_port: u16) -> (r: Result<(), String>)
    ensures
        answer@.len() == 0 ==> (r matches Err(e) && e@ == "Proxy closed connection"@),
        answer@.len() > 0 ==> match connect_answer_spec(utf8_lossy_text(answer@), target_host@, target_port) {
            Ok(()) => r is Ok,
            Err(m) => r matches Err(e) && e@ == m,
        },
{
    if answer.len() == 0 {
        return Err(String::from_str("Proxy closed connection"));
    }
    let response = utf8_lossy(answer);
    if find_str(response.as_str(), "200").is_some() {
        return Ok(());
    }
    let status_line = first_line_of(response.as_str());
    let mut msg = String::from_str("Proxy blocked CONNECT to ");
    msg.append(target_host);
    msg.append(":");
    push_decimal(&mut msg, target_port as u64);
    msg.append(" - ");
    msg.append(status_line.as_str());
    Err(msg)
}

} // verus!
