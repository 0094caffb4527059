use vstd::prelude::*;
use crate::text::str_eq;
use crate::connection_pool::{ConnectionPool, PooledConnection, fresh_pred, MAX_IDLE_MS};

verus! {

/// Settings of connection pooling.
#[derive(Clone, Debug)]
pub struct PoolConfig {
    /// Connections kept per upstream address (10 by default).
    pub max_connections: usize,
    /// Seconds an unused connection is kept (30 by default).
    pub idle_timeout_secs: u64,
    /// Whether connections are pooled (yes by default).
    pub enabled: bool,
}

impl Default for PoolConfig {
    fn default() -> (c: Self)
        ensures
            c.max_connections == 10,
            c.idle_timeout_secs == 30,
            c.enabled,
    {
        PoolConfig { max_connections: 10, idle_timeout_secs: 30, enabled: true }
    }
}

/// Where a connection to an upstream address comes from.
pub enum Checkout<S> {
    /// Pooling is off: connect directly, and do not hand the connection back.
    Direct,
    /// A pooled connection to reuse.
    Reused(S),
    /// The pool has none: connect, then hand the connection back when done.
    Connect,
}

/// Connection pools, one per upstream address, in the order they were made.
pub struct PooledDnsResolver<S> {
    pub pools: Vec<(String, ConnectionPool<S>)>,
    pub config: PoolConfig,
}

impl<S> PooledDnsResolver<S> {
    /// The addresses with a pool.
    pub open spec fn addrs(self) -> Seq<Seq<char>> {
        self.pools@.map_values(|p: (String, ConnectionPool<S>)| p.0@)
    }

    /// The connections pooled for each address.
    pub open spec fn pooled(self) -> Seq<Seq<PooledConnection<S>>> {
        self.pools@.map_values(|p: (String, ConnectionPool<S>)| p.1.pool@)
    }

    /// No address has two pools, and every pool has the configured limits.
    pub open spec fn wf(self) -> bool {
        &&& forall|i: int, j: int| 0 <= i < j < self.pools@.len() ==> self.addrs()[i] != self.addrs()[j]
        &&& forall|i: int| 0 <= i < self.pools@.len() ==> {
            &&& (#[trigger] self.pools@[i]).1.max_connections == self.config.max_connections
            &&& self.pools@[i].1.max_idle_ms == MAX_IDLE_MS
        }
    }

    /// No pools yet.
    pub fn new(config: PoolConfig) -> (r: Self)
        ensures
            r.wf(),
            r.pools@.len() == 0,
            r.config == config,
    {
        PooledDnsResolver { pools: Vec::new(), config }
    }

    /// Where the pool of `addr` stands.
    fn position(&self, addr: &str) -> (r: Option<usize>)
        ensures
            match r {
                Some(i) => i < self.pools@.len() && self.addrs()[i as int] == addr@,
                None => forall|j: int| 0 <= j < self.pools@.len() ==> self.addrs()[j] != addr@,
            },
    {
        let mut i: usize = 0;
        while i < self.pools.len()
            invariant
                i <= self.pools@.len(),
                forall|j: int| 0 <= j < i ==> self.addrs()[j] != addr@,
            decreases self.pools@.len() - i,
        {
            if str_eq(self.pools[i].0.as_str(), addr) {
                return Some(i);
            }
            i += 1;
        }
        None
    }

    /// How to get a connection to `addr` at clock reading `now_ms`: with pooling off,
    /// connect directly; else take the oldest fresh connection of the address's pool (made
    /// empty when there is none, stale connections dropped), or connect anew.
    pub fn checkout(&mut self, addr: &str, now_ms: u64) -> (r: Checkout<S>)
        requires
            old(self).wf(),
        ensures
            final(self).wf(),
            final(self).config == old(self).config,
            !old(self).config.enabled ==> r is Direct && final(self).pools@ == old(self).pools@,
            old(self).config.enabled ==> {
                let n = old(self).pools@.len();
                exists|i: int| {
                    &&& 0 <= i < final(self).pools@.len()
                    &&& final(self).addrs()[i] == addr@
                    &&& (i < n ==> old(self).addrs()[i] == addr@ && final(self).pools@.len() == n)
                    &&& (i == n ==> final(self).pools@.len() == n + 1
                        && forall|j: int| 0 <= j < n ==> old(self).addrs()[j] != addr@)
                    &&& forall|j: int| 0 <= j < n && j != i ==> final(self).pools@[j] == old(self).pools@[j]
                    &&& {
                        let before = if i < n { old(self).pooled()[i] } else { Seq::empty() };
                        let kept = before.filter(fresh_pred::<S>(now_ms, MAX_IDLE_MS));
                        if kept.len() > 0 {
                            r == Checkout::Reused(kept[0].stream) && final(self).pooled()[i] == kept.drop_first()
                        } else {
                            r is Connect && final(self).pooled()[i].len() == 0
                        }
                    }
                }
            },
    {
        if !self.config.enabled {
            return Checkout::Direct;
        }
        let ghost old_pools = self.pools@;
        let i = match self.position(addr) {
            Some(i) => i,
            None => {
                let n = self.pools.len();
                let pool = ConnectionPool::new(String::from_str(addr), self.config.max_connections);
                self.pools.push((String::from_str(addr), pool));
                proof {
                    assert(pool.pool@.filter(fresh_pred::<S>(now_ms, MAX_IDLE_MS)).len() == 0) by {
                        reveal(Seq::filter);
                    }
                }
                assert(self.addrs()[n as int] == addr@);
                n
            },
        };
        let ghost mid = self.pools@;
        let (key, mut pool) = self.pools.remove(i);
        let ghost before = pool.pool@;
        assert(before == mid[i as int].1.pool@);
        let got = pool.get(now_ms);
        let e = (key, pool);
        let ghost ge = e;
        self.pools.insert(i, e);
        assert(self.pools@ =~= mid.update(i as int, ge));
        proof {
            assert(forall|a: int| 0 <= a < old_pools.len() ==> #[trigger] old(self).addrs()[a] == old_pools[a].0@);
            if i < old_pools.len() {
                assert(mid == old_pools);
                assert(before == old(self).pooled()[i as int]);
                assert forall|a: int, b: int| 0 <= a < b < mid.len() implies mid[a].0@ != mid[b].0@ by {
                    assert(old(self).addrs()[a] != old(self).addrs()[b]);
                }
            } else {
                assert(mid.drop_last() =~= old_pools);
                assert(before =~= Seq::<PooledConnection<S>>::empty());
                assert forall|a: int, b: int| 0 <= a < b < mid.len() implies mid[a].0@ != mid[b].0@ by {
                    if b < old_pools.len() {
                        assert(old(self).addrs()[a] != old(self).addrs()[b]);
                    } else {
                        assert(old(self).addrs()[a] != addr@);
                    }
                }
            }
            assert(mid[i as int].1.max_idle_ms == MAX_IDLE_MS);
            assert(self.pooled()[i as int] == ge.1.pool@);
            assert(forall|j: int| 0 <= j < mid.len() && j != i ==> self.pools@[j] == mid[j]);
            assert(forall|j: int| 0 <= j < mid.len() ==> #[trigger] self.addrs()[j] == mid[j].0@);
            assert(forall|j: int| 0 <= j < mid.len() ==> (#[trigger] mid[j]).1.max_connections == self.config.max_connections);
            assert(self.wf());
        }
        let r = match got {
            Some(s) => Checkout::Reused(s),
            None => Checkout::Connect,
        };
        proof {
            let ii = i as int;
            let n = old_pools.len();
            assert(forall|j: int| 0 <= j < n && j != ii ==> self.pools@[j] == old_pools[j]);
            assert(old_pools == old(self).pools@);
            let before2 = if ii < n { old(self).pooled()[ii] } else { Seq::empty() };
            assert(before2 == before);
            assert(self.pooled()[ii] == ge.1.pool@);
            assert(self.addrs()[ii] == addr@);
            assert(ii < n ==> old(self).addrs()[ii] == addr@ && self.pools@.len() == n);
            assert(ii == n ==> self.pools@.len() == n + 1 && forall|j: int| 0 <= j < n ==> old(self).addrs()[j] != addr@);
            let kept = before2.filter(fresh_pred::<S>(now_ms, MAX_IDLE_MS));
            if kept.len() > 0 {
                assert(r == Checkout::Reused(kept[0].stream));
                assert(self.pooled()[ii] == kept.drop_first());
            } else {
                assert(r is Connect);
                assert(self.pooled()[ii].len() == 0);
            }
        }
        r
    }

    /// Hands a connection back to the pool of `addr`, last used at `now_ms`; it is kept when
    /// that pool exists and is not full.
    pub fn checkin(&mut self, addr: &str, stream: S, now_ms: u64)
        requires
            old(self).wf(),
        ensures
            final(self).wf(),
            final(self).config == old(self).config,
            final(self).addrs() == old(self).addrs(),
            forall|j: int| 0 <= j < old(self).pools@.len() ==> {
                let before = old(self).pools@[j].1.pool@;
                #[trigger] final(self).pooled()[j] == if old(self).addrs()[j] == addr@
                    && before.len() < old(self).config.max_connections {
                    before.push(PooledConnection { stream, last_used_ms: now_ms })
                } else {
                    before
                }
            },
    {
        let ghost mid = self.pools@;
        match self.position(addr) {
            Some(i) => {
                let (key, mut pool) = self.pools.remove(i);
                pool.put(stream, now_ms);
                let e = (key, pool);
                let ghost ge = e;
                self.pools.insert(i, e);
                assert(self.pools@ =~= mid.update(i as int, ge));
                assert(self.addrs() =~= old(self).addrs());
                assert forall|j: int| 0 <= j < old(self).pools@.len() && j != i implies old(self).addrs()[j] != addr@ by {
                    assert(old(self).addrs()[i as int] == addr@);
                }
            },
            None => {},
        }
    }

    /// Drops the pooled connections of every address (nothing when pooling is off).
    pub fn cleanup_idle(&mut self)
        requires
            old(self).wf(),
        ensures
            final(self).wf(),
            final(self).config == old(self).config,
            final(self).addrs() == old(self).addrs(),
            !old(self).config.enabled ==> final(self).pools@ == old(self).pools@,
            old(self).config.enabled ==> forall|j: int| 0 <= j < old(self).pools@.len() ==> #[trigger] final(self).pooled()[j].len() == 0,
    {
        if !self.config.enabled {
            return;
        }
        let n = self.pools.len();
        let mut i: usize = 0;
        while i < n
            invariant
                n == self.pools@.len(),
                n == old(self).pools@.len(),
                i <= n,
                self.wf(),
                self.config == old(self).config,
                self.addrs() == old(self).addrs(),
                forall|j: int| 0 <= j < i ==> #[trigger] self.pooled()[j].len() == 0,
            decreases n - i,
        {
            let ghost mid = self.pools@;
            let ghost mid_pooled = self.pooled();
            let (key, mut pool) = self.pools.remove(i);
            pool.clear();
            let e = (key, pool);
            let ghost ge = e;
            self.pools.insert(i, e);
            assert(self.pools@ =~= mid.update(i as int, ge));
            assert(self.addrs() =~= old(self).addrs()) by {
                assert(forall|j: int| 0 <= j < n ==> #[trigger] self.addrs()[j] == mid[j].0@);
            }
            assert(self.pooled()[i as int] == ge.1.pool@);
            assert forall|j: int| 0 <= j < i implies #[trigger] self.pooled()[j].len() == 0 by {
                assert(self.pools@[j] == mid[j]);
                assert(mid_pooled[j].len() == 0);
                assert(mid_pooled[j] == mid[j].1.pool@);
            }
            i += 1;
        }
    }

    /// The number of connections pooled over all addresses.
    pub open spec fn total(s: Seq<Seq<PooledConnection<S>>>) -> nat
        decreases s.len(),
    {
        if s.len() == 0 { 0 } else { Self::total(s.drop_last()) + s.last().len() }
    }

    /// The number of connections pooled over all addresses.
    pub fn pool_size(&self) -> (n: usize)
        requires
            Self::total(self.pooled()) <= usize::MAX,
        ensures
            n == Self::total(self.pooled()),
    {
        let mut sum: usize = 0;
        let mut i: usize = 0;
        while i < self.pools.len()
            invariant
                i <= self.pools@.len(),
                Self::total(self.pooled()) <= usize::MAX,
                sum == Self::total(self.pooled().take(i as int)),
            decreases self.pools@.len() - i,
        {
            assert(self.pooled().take(i + 1).drop_last() =~= self.pooled().take(i as int));
            proof { Self::lemma_total_prefix(self.pooled(), i + 1); }
            sum = sum + self.pools[i].1.size();
            i += 1;
        }
        assert(self.pooled().take(i as int) =~= self.pooled());
        sum
    }

    proof fn lemma_total_prefix(s: Seq<Seq<PooledConnection<S>>>, k: int)
        requires
            0 <= k <= s.len(),
        ensures
            Self::total(s.take(k)) <= Self::total(s),
        decreases s.len(),
    {
        if k < s.len() {
            assert(s.drop_last().take(k) =~= s.take(k));
            Self::lemma_total_prefix(s.drop_last(), k);
        } else {
            assert(s.take(k) =~= s);
        }
    }

    /// The number of addresses with a pool.
    pub fn num_pools(&self) -> (n: usize)
        ensures
            n == self.pools@.len(),
    {
        self.pools.len()
    }
}

} // verus!
