use vstd::prelude::*;
use crate::cached_dns_resolver::{CachedDnsResolver, CachedDnsConfig};
use crate::pooled_dns_resolver::{PooledDnsResolver, PoolConfig, Checkout};
use crate::dns_cache::EntryView;
use crate::connection_pool::{fresh_pred, MAX_IDLE_MS};

verus! {

/// A resolver that both caches DNS lookups and pools connections.
pub struct OptimizedDnsResolver<S> {
    pub cached: CachedDnsResolver,
    pub pooled: PooledDnsResolver<S>,
}

/// Figures of an `OptimizedDnsResolver`.
#[derive(Debug, Clone)]
pub struct OptimizedResolverStats {
    pub cache_size: usize,
    pub pool_size: usize,
}

impl<S> OptimizedDnsResolver<S> {
    pub open spec fn wf(self) -> bool {
        self.cached.wf() && self.pooled.wf()
    }

    /// The default settings: a 60 s DNS cache and 10 pooled connections per upstream, both on.
    pub fn new() -> (r: Self)
        ensures
            r.wf(),
            r.cached.config.ttl_secs == 60 && r.cached.config.enabled,
            r.pooled.config.max_connections == 10 && r.pooled.config.idle_timeout_secs == 30,
            r.pooled.config.enabled,
            r.cached.cache.view() == Map::<Seq<char>, EntryView>::empty(),
            r.pooled.pools@.len() == 0,
    {
        Self::with_config(CachedDnsConfig::default(), PoolConfig::default())
    }

    /// A resolver with the given settings, empty.
    pub fn with_config(dns_config: CachedDnsConfig, pool_config: PoolConfig) -> (r: Self)
        ensures
            r.wf(),
            r.cached.config == dns_config,
            r.pooled.config == pool_config,
            r.cached.cache.view() == Map::<Seq<char>, EntryView>::empty(),
            r.pooled.pools@.len() == 0,
    {
        OptimizedDnsResolver { cached: CachedDnsResolver::new(dns_config), pooled: PooledDnsResolver::new(pool_config) }
    }

    /// How to get a connection to `addr`: through the connection pool (see
    /// `PooledDnsResolver::checkout`).
    pub fn checkout(&mut self, addr: &str, now_ms: u64) -> (r: Checkout<S>)
        requires
            old(self).wf(),
        ensures
            final(self).wf(),
            final(self).cached == old(self).cached,
            final(self).pooled.config == old(self).pooled.config,
            !old(self).pooled.config.enabled ==> r is Direct && final(self).pooled.pools@ == old(self).pooled.pools@,
            old(self).pooled.config.enabled ==> {
                let n = old(self).pooled.pools@.len();
                exists|i: int| {
                    &&& 0 <= i < final(self).pooled.pools@.len()
                    &&& final(self).pooled.addrs()[i] == addr@
                    &&& (i < n ==> old(self).pooled.addrs()[i] == addr@ && final(self).pooled.pools@.len() == n)
                    &&& (i == n ==> final(self).pooled.pools@.len() == n + 1
                        && forall|j: int| 0 <= j < n ==> old(self).pooled.addrs()[j] != addr@)
                    &&& forall|j: int| 0 <= j < n && j != i ==> final(self).pooled.pools@[j] == old(self).pooled.pools@[j]
                    &&& {
                        let before = if i < n { old(self).pooled.pooled()[i] } else { Seq::empty() };
                        let kept = before.filter(fresh_pred::<S>(now_ms, MAX_IDLE_MS));
                        if kept.len() > 0 {
                            r == Checkout::Reused(kept[0].stream) && final(self).pooled.pooled()[i] == kept.drop_first()
                        } else {
                            r is Connect && final(self).pooled.pooled()[i].len() == 0
                        }
                    }
                }
            },
    {
        self.pooled.checkout(addr, now_ms)
    }

    /// The number of hostnames in the DNS cache; the pool figure is not tracked and is 0.
    pub fn stats(&self) -> (s: OptimizedResolverStats)
        requires
            self.wf(),
        ensures
            s.cache_size == self.cached.cache.view().len(),
            s.pool_size == 0,
    {
        OptimizedResolverStats { cache_size: self.cached.cache_size(), pool_size: 0 }
    }

    /// Empties the DNS cache.
    pub fn clear(&mut self)
        requires
            old(self).wf(),
        ensures
            final(self).wf(),
            final(self).cached.config == old(self).cached.config,
            final(self).cached.cache.view() == Map::<Seq<char>, EntryView>::empty(),
            final(self).pooled == old(self).pooled,
    {
        self.cached.clear_cache();
    }
}

impl<S> Default for OptimizedDnsResolver<S> {
    fn default() -> (r: Self)
        ensures
            r.wf(),
            r.cached.config.ttl_secs == 60 && r.cached.config.enabled,
            r.pooled.config.max_connections == 10 && r.pooled.config.idle_timeout_secs == 30,
            r.pooled.config.enabled,
            r.cached.cache.view() == Map::<Seq<char>, EntryView>::empty(),
            r.pooled.pools@.len() == 0,
    {
        Self::new()
    }
}

/// Builds an `OptimizedDnsResolver` setting by setting, from the defaults.
pub struct OptimizedDnsResolverBuilder {
    pub dns_config: CachedDnsConfig,
    pub pool_config: PoolConfig,
}

impl OptimizedDnsResolverBuilder {
    /// The default settings.
    pub fn new() -> (b: Self)
        ensures
            b.dns_config.ttl_secs == 60 && b.dns_config.enabled,
            b.pool_config.max_connections == 10 && b.pool_config.idle_timeout_secs == 30,
            b.pool_config.enabled,
    {
        OptimizedDnsResolverBuilder { dns_config: CachedDnsConfig::default(), pool_config: PoolConfig::default() }
    }

    /// Sets the DNS cache lifetime.
    pub fn dns_ttl(self, ttl_secs: u64) -> (b: Self)
        ensures
            b.dns_config.ttl_secs == ttl_secs,
            b.dns_config.enabled == self.dns_config.enabled,
            b.pool_config == self.pool_config,
    {
        let mut b = self;
        b.dns_config.ttl_secs = ttl_secs;
        b
    }

    /// Turns the DNS cache on or off.
    pub fn dns_enabled(self, enabled: bool) -> (b: Self)
        ensures
            b.dns_config.enabled == enabled,
            b.dns_config.ttl_secs == self.dns_config.ttl_secs,
            b.pool_config == self.pool_config,
    {
        let mut b = self;
        b.dns_config.enabled = enabled;
        b
    }

    /// Sets the number of connections pooled per upstream.
    pub fn pool_size(self, max_connections: usize) -> (b: Self)
        ensures
            b.pool_config.max_connections == max_connections,
            b.pool_config.idle_timeout_secs == self.pool_config.idle_timeout_secs,
            b.pool_config.enabled == self.pool_config.enabled,
            b.dns_config == self.dns_config,
    {
        let mut b = self;
        b.pool_config.max_connections = max_connections;
        b
    }

    /// Sets how long an unused pooled connection is kept.
    pub fn pool_timeout(self, timeout_secs: u64) -> (b: Self)
        ensures
            b.pool_config.idle_timeout_secs == timeout_secs,
            b.pool_config.max_connections == self.pool_config.max_connections,
            b.pool_config.enabled == self.pool_config.enabled,
            b.dns_config == self.dns_config,
    {
        let mut b = self;
        b.pool_config.idle_timeout_secs = timeout_secs;
        b
    }

    /// Turns connection pooling on or off.
    pub fn pool_enabled(self, enabled: bool) -> (b: Self)
        ensures
            b.pool_config.enabled == enabled,
            b.pool_config.max_connections == self.pool_config.max_connections,
            b.pool_config.idle_timeout_secs == self.pool_config.idle_timeout_secs,
            b.dns_config == self.dns_config,
    {
        let mut b = self;
        b.pool_config.enabled = enabled;
        b
    }

    /// The resolver with the settings made.
    pub fn build<S>(self) -> (r: OptimizedDnsResolver<S>)
        ensures
            r.wf(),
            r.cached.config == self.dns_config,
            r.pooled.config == self.pool_config,
            r.cached.cache.view() == Map::<Seq<char>, EntryView>::empty(),
            r.pooled.pools@.len() == 0,
    {
        OptimizedDnsResolver::with_config(self.dns_config, self.pool_config)
    }
}

impl Default for OptimizedDnsResolverBuilder {
    fn default() -> (b: Self)
        ensures
            b.dns_config.ttl_secs == 60 && b.dns_config.enabled,
            b.pool_config.max_connections == 10 && b.pool_config.idle_timeout_secs == 30,
            b.pool_config.enabled,
    {
        Self::new()
    }
}

} // verus!
