use vstd::prelude::*;
use crate::text::{find_str, chars_of, string_of_chars, first_occurrence, occurs_at, rfind_char, last_index,
    contains_char, starts_with_char, views};
use crate::dns_cache::{DnsCache, EntryView};
use crate::dns_resolver::{DnsResolver, strip_scheme_spec};

verus! {

/// Settings of the DNS cache.
#[derive(Clone, Debug)]
pub struct CachedDnsConfig {
    /// Seconds a cached lookup lives (60 by default).
    pub ttl_secs: u64,
    /// Whether lookups are cached (yes by default).
    pub enabled: bool,
}

impl Default for CachedDnsConfig {
    fn default() -> (c: Self)
        ensures
            c.ttl_secs == 60,
            c.enabled,
    {
        CachedDnsConfig { ttl_secs: 60, enabled: true }
    }
}

/// The hostname of a `host:port` address: a bracketed IPv6 address up to its `]`; else what
/// precedes the last `:` when that holds no `:` or starts with `[`; else the whole address.
pub open spec fn extract_hostname_spec(a: Seq<char>) -> Seq<char> {
    match first_occurrence(a, "]"@) {
        Some(b) => a.take(b + 1),
        None => match last_index(a, ':') {
            Some(c) => {
                let host = a.take(c);
                if !host.contains(':') || (host.len() > 0 && host[0] == '[') { host } else { a }
            },
            None => a,
        },
    }
}

/// What a connection to an address should do about DNS.
#[derive(Debug)]
pub enum DnsPlan {
    /// Caching is off: resolve and connect to the address as given.
    Direct,
    /// The addresses of `target` (host and port) are cached: try them in order; if all
    /// fail, resolve `target` afresh.
    Cached { hostname: String, target: String, addresses: Vec<String> },
    /// Nothing usable is cached for `target`: resolve it, then record what it resolved to
    /// under `target`.
    Lookup { hostname: String, target: String },
}

/// A DNS resolver that remembers what hostnames resolved to.
pub struct CachedDnsResolver {
    pub cache: DnsCache,
    pub config: CachedDnsConfig,
}

impl CachedDnsResolver {
    /// The resolver is well formed when its cache is, with the configured lifetime.
    pub open spec fn wf(self) -> bool {
        self.cache.wf() && self.cache.ttl_secs == self.config.ttl_secs
    }

    /// A resolver with an empty cache.
    pub fn new(config: CachedDnsConfig) -> (r: Self)
        ensures
            r.wf(),
            r.config == config,
            r.cache.view() == Map::<Seq<char>, EntryView>::empty(),
    {
        CachedDnsResolver { cache: DnsCache::new(config.ttl_secs), config }
    }

    /// A resolver with the default settings (60 s lifetime, caching on).
    pub fn default() -> (r: Self)
        ensures
            r.wf(),
            r.config.ttl_secs == 60,
            r.config.enabled,
            r.cache.view() == Map::<Seq<char>, EntryView>::empty(),
    {
        Self::new(CachedDnsConfig::default())
    }

    /// The address without its scheme (see `strip_scheme_spec`).
    pub fn strip_scheme(addr: &str) -> (r: String)
        ensures
            r@ == strip_scheme_spec(addr@),
    {
        DnsResolver::strip_scheme(addr)
    }

    /// The hostname of an address (see `extract_hostname_spec`).
    pub fn extract_hostname(addr: &str) -> (r: String)
        ensures
            r@ == extract_hostname_spec(addr@),
    {
        proof { reveal_strlit("]"); }
        let v = chars_of(addr);
        match find_str(addr, "]") {
            Some(b) => {
                assert(occurs_at(addr@, "]"@, b as int));
                assert("]"@.len() == 1);
                let n = v.len();
                assert(b + 1 <= n);
                let r = string_of_chars(&v, 0, b + 1);
                assert(r@ =~= addr@.take(b + 1));
                return r;
            },
            None => {},
        }
        assert(first_occurrence(addr@, "]"@) is None);
        let n = v.len();
        match rfind_char(addr, ':') {
            Some(c) => {
                let host = string_of_chars(&v, 0, c);
                assert(host@ =~= addr@.take(c as int));
                assert(last_index(addr@, ':') is Some);
                let ghost i = last_index(addr@, ':')->0;
                assert(i == c);
                if !contains_char(host.as_str(), ':') || starts_with_char(host.as_str(), '[') {
                    host
                } else {
                    String::from_str(addr)
                }
            },
            None => String::from_str(addr),
        }
    }

    /// What to do to connect to `addr` at clock reading `now_ms`: with caching off, connect
    /// directly; else look the address without scheme (host and port) up in the cache, which
    /// drops an expired entry. The plan names the hostname too.
    pub fn plan(&mut self, addr: &str, now_ms: u64) -> (p: DnsPlan)
        requires
            old(self).wf(),
        ensures
            final(self).wf(),
            final(self).config == old(self).config,
            !old(self).config.enabled ==> p is Direct && final(self).cache.view() == old(self).cache.view(),
            old(self).config.enabled ==> {
                let target = strip_scheme_spec(addr@);
                let host = extract_hostname_spec(target);
                match old(self).cache.view().get(target) {
                    Some(e) => if now_ms < e.1 {
                        &&& p matches DnsPlan::Cached { hostname, target: t, addresses }
                        &&& hostname@ == host && t@ == target && views(addresses@) == e.0
                        &&& final(self).cache.view() == old(self).cache.view()
                    } else {
                        &&& p matches DnsPlan::Lookup { hostname, target: t }
                        &&& hostname@ == host && t@ == target
                        &&& final(self).cache.view() == old(self).cache.view().remove(target)
                    },
                    None => {
                        &&& p matches DnsPlan::Lookup { hostname, target: t }
                        &&& hostname@ == host && t@ == target
                        &&& final(self).cache.view() == old(self).cache.view()
                    },
                }
            },
    {
        if !self.config.enabled {
            return DnsPlan::Direct;
        }
        let target = Self::strip_scheme(addr);
        let hostname = Self::extract_hostname(target.as_str());
        match self.cache.get(target.as_str(), now_ms) {
            Some(addresses) => DnsPlan::Cached { hostname, target, addresses },
            None => DnsPlan::Lookup { hostname, target },
        }
    }

    /// Records what an address (host and port, as `plan` names it) resolved to at clock
    /// reading `now_ms` (an empty list is not recorded).
    pub fn record(&mut self, target: String, addresses: Vec<String>, now_ms: u64)
        requires
            old(self).wf(),
            now_ms + old(self).config.ttl_secs * 1000 <= u64::MAX,
        ensures
            final(self).wf(),
            final(self).config == old(self).config,
            addresses@.len() == 0 ==> final(self).cache.view() == old(self).cache.view(),
            addresses@.len() > 0 ==> final(self).cache.view() == old(self).cache.view().insert(target@,
                (views(addresses@), (now_ms + old(self).config.ttl_secs * 1000) as u64)),
    {
        self.cache.set(target, addresses, now_ms);
    }

    /// The number of hostnames cached.
    pub fn cache_size(&self) -> (n: usize)
        requires
            self.wf(),
        ensures
            n == self.cache.view().len(),
    {
        self.cache.size()
    }

    /// Forgets every cached lookup.
    pub fn clear_cache(&mut self)
        requires
            old(self).wf(),
        ensures
            final(self).wf(),
            final(self).config == old(self).config,
            final(self).cache.view() == Map::<Seq<char>, EntryView>::empty(),
    {
        self.cache.clear();
    }
}

} // verus!
