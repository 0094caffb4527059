use vstd::prelude::*;
use crate::text::str_eq;
use crate::pooled_dns_resolver::{PooledDnsResolver, PoolConfig};

verus! {

/// One connection-pooling resolver per upstream address, in the order they were made.
pub struct MultiUpstreamPool<S> {
    pub pools: Vec<(String, PooledDnsResolver<S>)>,
}

impl<S> MultiUpstreamPool<S> {
    /// The upstream addresses with a resolver.
    pub open spec fn addrs(self) -> Seq<Seq<char>> {
        self.pools@.map_values(|p: (String, PooledDnsResolver<S>)| p.0@)
    }

    /// No address has two resolvers.
    pub open spec fn wf(self) -> bool {
        forall|i: int, j: int| 0 <= i < j < self.pools@.len() ==> self.addrs()[i] != self.addrs()[j]
    }

    /// No resolvers yet.
    pub fn new() -> (p: Self)
        ensures
            p.wf(),
            p.pools@.len() == 0,
    {
        MultiUpstreamPool { pools: Vec::new() }
    }

    /// Where the resolver of `upstream_addr` stands: the existing one, else a new one with
    /// no pools, `max_connections` per pool, a 30 s idle timeout and pooling on.
    pub fn get_or_create(&mut self, upstream_addr: &str, max_connections: usize) -> (i: usize)
        requires
            old(self).wf(),
        ensures
            final(self).wf(),
            i < final(self).pools@.len(),
            final(self).addrs()[i as int] == upstream_addr@,
            (exists|j: int| 0 <= j < old(self).pools@.len() && old(self).addrs()[j] == upstream_addr@)
                ==> final(self).pools@ == old(self).pools@,
            !(exists|j: int| 0 <= j < old(self).pools@.len() && old(self).addrs()[j] == upstream_addr@) ==> {
                &&& final(self).pools@.drop_last() == old(self).pools@
                &&& i == old(self).pools@.len()
                &&& final(self).pools@[i as int].1.pools@.len() == 0
                &&& final(self).pools@[i as int].1.wf()
                &&& final(self).pools@[i as int].1.config == (PoolConfig {
                    max_connections, idle_timeout_secs: 30, enabled: true })
            },
    {
        let mut i: usize = 0;
        while i < self.pools.len()
            invariant
                i <= self.pools@.len(),
                self.pools@ == old(self).pools@,
                old(self).wf(),
                forall|j: int| 0 <= j < i ==> self.addrs()[j] != upstream_addr@,
            decreases self.pools@.len() - i,
        {
            if str_eq(self.pools[i].0.as_str(), upstream_addr) {
                assert(old(self).addrs()[i as int] == upstream_addr@);
                return i;
            }
            i += 1;
        }
        let n = self.pools.len();
        let resolver = PooledDnsResolver::new(PoolConfig { max_connections, idle_timeout_secs: 30, enabled: true });
        self.pools.push((String::from_str(upstream_addr), resolver));
        proof {
            assert(self.pools@.drop_last() =~= old(self).pools@);
            assert(forall|q: int| 0 <= q < n ==> #[trigger] self.addrs()[q] == old(self).addrs()[q]);
            assert forall|a: int, b: int| 0 <= a < b < self.pools@.len() implies self.addrs()[a] != self.addrs()[b] by {
                if b < n {
                    assert(old(self).addrs()[a] != old(self).addrs()[b]);
                }
            }
        }
        n
    }

    /// Drops every resolver.
    pub fn clear(&mut self)
        ensures
            final(self).wf(),
            final(self).pools@.len() == 0,
    {
        self.pools.clear();
    }

    /// The number of upstream addresses with a resolver.
    pub fn upstream_count(&self) -> (n: usize)
        ensures
            n == self.pools@.len(),
    {
        self.pools.len()
    }
}

impl<S> Default for MultiUpstreamPool<S> {
    fn default() -> (p: Self)
        ensures
            p.wf(),
            p.pools@.len() == 0,
    {
        Self::new()
    }
}

} // verus!
