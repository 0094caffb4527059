use vstd::prelude::*;

verus! {

/// Milliseconds a pooled connection may sit unused before it is dropped.
pub const MAX_IDLE_MS: u64 = 30000;

/// A pooled connection and the clock reading, in milliseconds, of its last use.
pub struct PooledConnection<S> {
    pub stream: S,
    pub last_used_ms: u64,
}

/// Milliseconds from `then` to `now`, zero when `now` is earlier.
pub open spec fn elapsed(now: u64, then: u64) -> int {
    if now >= then { now - then } else { 0 }
}

/// Whether a connection last used at `last_used` is still fresh at `now`.
pub open spec fn is_fresh(now: u64, last_used: u64, max_idle: u64) -> bool {
    !(elapsed(now, last_used) > max_idle)
}

/// The connections that are still fresh at `now`.
pub open spec fn fresh_pred<S>(now: u64, max_idle: u64) -> spec_fn(PooledConnection<S>) -> bool {
    |c: PooledConnection<S>| is_fresh(now, c.last_used_ms, max_idle)
}

/// Connections kept for reuse to one upstream address, oldest first. The clock is read by
/// the caller and handed in as milliseconds.
pub struct ConnectionPool<S> {
    pub pool: Vec<PooledConnection<S>>,
    pub addr: String,
    pub max_connections: usize,
    pub max_idle_ms: u64,
}

impl<S> ConnectionPool<S> {
    /// An empty pool for `addr` keeping at most `max_connections` connections, each for at
    /// most `MAX_IDLE_MS` unused.
    pub fn new(addr: String, max_connections: usize) -> (p: Self)
        ensures
            p.pool@.len() == 0,
            p.addr == addr,
            p.max_connections == max_connections,
            p.max_idle_ms == MAX_IDLE_MS,
    {
        ConnectionPool { pool: Vec::new(), addr, max_connections, max_idle_ms: MAX_IDLE_MS }
    }

    /// Drops the connections idle for longer than the limit at `now_ms`, then hands out
    /// the oldest one left, if any.
    pub fn get(&mut self, now_ms: u64) -> (r: Option<S>)
        ensures
            ({
                let kept = old(self).pool@.filter(fresh_pred::<S>(now_ms, old(self).max_idle_ms));
                if kept.len() > 0 {
                    r == Some(kept[0].stream) && final(self).pool@ == kept.drop_first()
                } else {
                    r is None && final(self).pool@.len() == 0
                }
            }),
            final(self).pool@.len() <= old(self).pool@.len(),
            final(self).addr == old(self).addr,
            final(self).max_connections == old(self).max_connections,
            final(self).max_idle_ms == old(self).max_idle_ms,
    {
        let ghost orig = self.pool@;
        let n0 = self.pool.len();
        let ghost pred = fresh_pred::<S>(now_ms, self.max_idle_ms);
        let mut i: usize = 0;
        let mut j: usize = 0;
        assert(orig.take(0).filter(pred) =~= Seq::<PooledConnection<S>>::empty()) by {
            reveal(Seq::filter);
        }
        assert(orig.skip(0) =~= orig);
        while i < self.pool.len()
            invariant
                j <= orig.len(),
                orig.len() == n0,
                i == orig.take(j as int).filter(pred).len(),
                self.pool@ == orig.take(j as int).filter(pred) + orig.skip(j as int),
                pred == fresh_pred::<S>(now_ms, self.max_idle_ms),
                self.addr == old(self).addr,
                self.max_connections == old(self).max_connections,
                self.max_idle_ms == old(self).max_idle_ms,
            decreases self.pool@.len() - i,
        {
            let ghost p = orig.take(j as int).filter(pred);
            assert(self.pool@.len() == i + orig.skip(j as int).len());
            assert(j < orig.len());
            assert(self.pool@[i as int] == orig[j as int]);
            assert(orig.take(j + 1) =~= orig.take(j as int).push(orig[j as int]));
            proof { orig.take(j as int).lemma_filter_push(orig[j as int], pred); }
            assert(orig.skip(j as int) =~= seq![orig[j as int]] + orig.skip(j + 1));
            let last = self.pool[i].last_used_ms;
            let elapsed_ms = if now_ms >= last { now_ms - last } else { 0 };
            if elapsed_ms > self.max_idle_ms {
                self.pool.remove(i);
                assert(self.pool@ =~= orig.take(j + 1).filter(pred) + orig.skip(j + 1));
            } else {
                assert(self.pool@ =~= orig.take(j + 1).filter(pred) + orig.skip(j + 1));
                i += 1;
            }
            j += 1;
        }
        assert(j == orig.len()) by {
            if j < orig.len() {
                assert(self.pool@.len() == i + orig.skip(j as int).len());
            }
        }
        assert(orig.take(j as int) =~= orig);
        assert(self.pool@ =~= orig.filter(pred));
        if self.pool.len() > 0 {
            let c = self.pool.remove(0);
            assert(self.pool@ =~= orig.filter(pred).drop_first());
            Some(c.stream)
        } else {
            None
        }
    }

    /// Keeps a connection for reuse, last used at `now_ms`, when the pool is not full;
    /// else the connection is dropped.
    pub fn put(&mut self, stream: S, now_ms: u64)
        ensures
            old(self).pool@.len() < old(self).max_connections ==> final(self).pool@ == old(self).pool@.push(
                PooledConnection { stream, last_used_ms: now_ms }),
            old(self).pool@.len() >= old(self).max_connections ==> final(self).pool@ == old(self).pool@,
            final(self).addr == old(self).addr,
            final(self).max_connections == old(self).max_connections,
            final(self).max_idle_ms == old(self).max_idle_ms,
            old(self).pool@.len() <= old(self).max_connections ==> final(self).pool@.len() <= final(self).max_connections,
    {
        if self.pool.len() < self.max_connections {
            self.pool.push(PooledConnection { stream, last_used_ms: now_ms });
        }
    }

    /// Drops every pooled connection.
    pub fn clear(&mut self)
        ensures
            final(self).pool@.len() == 0,
            final(self).addr == old(self).addr,
            final(self).max_connections == old(self).max_connections,
            final(self).max_idle_ms == old(self).max_idle_ms,
    {
        self.pool.clear();
    }

    /// The number of pooled connections.
    pub fn size(&self) -> (n: usize)
        ensures
            n == self.pool@.len(),
    {
        self.pool.len()
    }
}

} // verus!
