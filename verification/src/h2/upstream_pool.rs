use vstd::prelude::*;
use crate::text::{str_eq, push_decimal, decimal};

verus! {

/// An HTTP/2 connection to an upstream server, as the pool tracks it.
#[derive(Clone, Debug)]
pub struct UpstreamH2Connection {
    pub id: u32,
    pub hostname: String,
    pub port: u16,
    /// Streams open on the connection.
    pub active_streams: u32,
}

impl UpstreamH2Connection {
    /// A connection with no stream open.
    pub fn new(id: u32, hostname: String, port: u16) -> (c: Self)
        ensures
            c.id == id && c.hostname == hostname && c.port == port && c.active_streams == 0,
    {
        UpstreamH2Connection { id, hostname, port, active_streams: 0 }
    }

    /// The connection's identifier.
    pub fn id(&self) -> (r: u32)
        ensures
            r == self.id,
    {
        self.id
    }

    /// The upstream hostname.
    pub fn hostname(&self) -> (r: &str)
        ensures
            r@ == self.hostname@,
    {
        self.hostname.as_str()
    }

    /// The upstream port.
    pub fn port(&self) -> (r: u16)
        ensures
            r == self.port,
    {
        self.port
    }

    /// Streams open on the connection.
    pub fn active_stream_count(&self) -> (r: u32)
        ensures
            r == self.active_streams,
    {
        self.active_streams
    }

    /// Counts a stream opened.
    pub fn increment_streams(&mut self)
        requires
            old(self).active_streams < u32::MAX,
        ensures
            *final(self) == (UpstreamH2Connection { active_streams: (old(self).active_streams + 1) as u32, ..*old(self) }),
    {
        self.active_streams = self.active_streams + 1;
    }

    /// Counts a stream closed; the count does not go below zero.
    pub fn decrement_streams(&mut self)
        ensures
            *final(self) == (UpstreamH2Connection {
                active_streams: if old(self).active_streams == 0 { 0 } else { (old(self).active_streams - 1) as u32 },
                ..*old(self)
            }),
    {
        self.active_streams = self.active_streams.saturating_sub(1);
    }

    /// An equal copy.
    fn duplicate(&self) -> (c: Self)
        ensures
            c == *self,
    {
        UpstreamH2Connection {
            id: self.id,
            hostname: self.hostname.clone(),
            port: self.port,
            active_streams: self.active_streams,
        }
    }
}

/// Figures of an `UpstreamH2Pool`.
#[derive(Debug, Clone)]
pub struct UpstreamH2PoolStats {
    pub total_hosts: usize,
    pub total_connections: usize,
    pub total_active_streams: u32,
    /// Per pooled address: the `host:port` key, its connections and its open streams.
    pub hosts: Vec<(String, usize, u32)>,
}

impl UpstreamH2PoolStats {
    /// `UpstreamH2Pool: H hosts, C connections, S active streams`.
    pub fn to_string(&self) -> (r: String)
        ensures
            r@ == "UpstreamH2Pool: "@ + decimal(self.total_hosts as nat) + " hosts, "@
                + decimal(self.total_connections as nat) + " connections, "@
                + decimal(self.total_active_streams as nat) + " active streams"@,
    {
        let mut r = String::from_str("UpstreamH2Pool: ");
        push_decimal(&mut r, self.total_hosts as u64);
        r.append(" hosts, ");
        push_decimal(&mut r, self.total_connections as u64);
        r.append(" connections, ");
        push_decimal(&mut r, self.total_active_streams as u64);
        r.append(" active streams");
        r
    }
}

/// The key under which the connections to `hostname:port` are pooled.
pub open spec fn pool_key(hostname: Seq<char>, port: u16) -> Seq<char> {
    hostname + ":"@ + decimal(port as nat)
}

/// The streams open over a list of connections.
pub open spec fn streams_of(conns: Seq<UpstreamH2Connection>) -> nat
    decreases conns.len(),
{
    if conns.len() == 0 { 0 } else { streams_of(conns.drop_last()) + conns.last().active_streams as nat }
}

/// The connections over a list of pools.
pub open spec fn connections_of(pools: Seq<(String, Vec<UpstreamH2Connection>)>) -> nat
    decreases pools.len(),
{
    if pools.len() == 0 { 0 } else { connections_of(pools.drop_last()) + pools.last().1@.len() }
}

/// The streams open over a list of pools.
pub open spec fn pool_streams(pools: Seq<(String, Vec<UpstreamH2Connection>)>) -> nat
    decreases pools.len(),
{
    if pools.len() == 0 { 0 } else { pool_streams(pools.drop_last()) + streams_of(pools.last().1@) }
}

/// The first connection with room for another stream.
pub open spec fn has_room(conns: Seq<UpstreamH2Connection>, max_streams: u32, j: int) -> bool {
    &&& 0 <= j < conns.len()
    &&& conns[j].active_streams < max_streams
    &&& forall|k: int| 0 <= k < j ==> conns[k].active_streams >= max_streams
}

/// The most connections a host's pool holds under a per-host maximum.
pub open spec fn host_cap(max: u32) -> int {
    if max == 0 { 1 } else { max as int }
}

/// HTTP/2 connections to upstream servers, pooled per `host:port` in the order the pools
/// were made; connections are shared by streams up to a limit.
pub struct UpstreamH2Pool {
    pub pools: Vec<(String, Vec<UpstreamH2Connection>)>,
    pub next_conn_id: u32,
    pub max_connections_per_host: u32,
    pub max_streams_per_connection: u32,
}

impl UpstreamH2Pool {
    /// The pooled keys.
    pub open spec fn keys(self) -> Seq<Seq<char>> {
        self.pools@.map_values(|p: (String, Vec<UpstreamH2Connection>)| p.0@)
    }

    /// No key is pooled twice; every pool holds at least one connection and at most the
    /// per-host maximum (one when the maximum is zero, as the first connection to a host is
    /// always made); every connection's id is below the next one handed out, and no two
    /// connections share an id.
    pub open spec fn wf(self) -> bool {
        &&& forall|i: int, j: int| 0 <= i < j < self.pools@.len() ==> self.keys()[i] != self.keys()[j]
        &&& forall|i: int| 0 <= i < self.pools@.len() ==> 1 <= (#[trigger] self.pools@[i]).1@.len()
            <= host_cap(self.max_connections_per_host)
        &&& forall|i: int, p: int| #![trigger self.pools@[i].1@[p]] 0 <= i < self.pools@.len() && 0 <= p < self.pools@[i].1@.len()
            ==> self.pools@[i].1@[p].id < self.next_conn_id
        &&& forall|i: int, p: int, j: int, q: int| #![trigger self.pools@[i].1@[p], self.pools@[j].1@[q]]
            0 <= i < self.pools@.len() && 0 <= p < self.pools@[i].1@.len()
            && 0 <= j < self.pools@.len() && 0 <= q < self.pools@[j].1@.len() && (i != j || p != q)
            ==> self.pools@[i].1@[p].id != self.pools@[j].1@[q].id
    }

    /// Whether `get_or_create` for key `k` makes a new connection: no pooled connection of
    /// the key has room for a stream, and the key holds fewer connections than its maximum
    /// (or none).
    pub open spec fn creates_for(self, k: Seq<char>) -> bool {
        forall|i: int| 0 <= i < self.pools@.len() && #[trigger] self.keys()[i] == k ==>
            (forall|j: int| !has_room(self.pools@[i].1@, self.max_streams_per_connection, j))
            && self.pools@[i].1@.len() < self.max_connections_per_host
    }

    /// An empty pool: 4 connections per host, 100 streams per connection.
    pub fn new() -> (p: Self)
        ensures
            p.wf(),
            p.pools@.len() == 0,
            p.next_conn_id == 0,
            p.max_connections_per_host == 4,
            p.max_streams_per_connection == 100,
    {
        UpstreamH2Pool { pools: Vec::new(), next_conn_id: 0, max_connections_per_host: 4, max_streams_per_connection: 100 }
    }

    fn key(hostname: &str, port: u16) -> (k: String)
        ensures
            k@ == pool_key(hostname@, port),
    {
        let mut k = String::from_str(hostname);
        k.append(":");
        push_decimal(&mut k, port as u64);
        k
    }

    fn position(&self, key: &str) -> (r: Option<usize>)
        ensures
            match r {
                Some(i) => i < self.pools@.len() && self.keys()[i as int] == key@,
                None => forall|j: int| 0 <= j < self.pools@.len() ==> self.keys()[j] != key@,
            },
    {
        let mut i: usize = 0;
        while i < self.pools.len()
            invariant
                i <= self.pools@.len(),
                forall|j: int| 0 <= j < i ==> self.keys()[j] != key@,
            decreases self.pools@.len() - i,
        {
            if str_eq(self.pools[i].0.as_str(), key) {
                return Some(i);
            }
            i += 1;
        }
        None
    }

    /// A connection to `hostname:port`: the first pooled one with room for another
    /// stream; else a new one, numbered `next_conn_id`, when the host has fewer than the
    /// maximum (a new pool is made for a new host); else an error.
    #[verifier::loop_isolation(false)]
    pub fn get_or_create(&mut self, hostname: &str, port: u16) -> (r: Result<UpstreamH2Connection, String>)
        requires
            old(self).wf(),
            old(self).creates_for(pool_key(hostname@, port)) ==> old(self).next_conn_id < u32::MAX,
        ensures
            final(self).wf(),
            final(self).max_connections_per_host == old(self).max_connections_per_host,
            final(self).max_streams_per_connection == old(self).max_streams_per_connection,
            ({
                let k = pool_key(hostname@, port);
                let c = r->Ok_0;
                let fresh = c.id == old(self).next_conn_id && c.hostname@ == hostname@ && c.port == port && c.active_streams == 0;
                let n = old(self).pools@.len();
                if exists|i: int| 0 <= i < n && old(self).keys()[i] == k {
                    exists|i: int| {
                        &&& 0 <= i < n && old(self).keys()[i] == k
                        &&& {
                            let conns = old(self).pools@[i].1@;
                            if exists|j: int| has_room(conns, old(self).max_streams_per_connection, j) {
                                &&& exists|j: int| has_room(conns, old(self).max_streams_per_connection, j) && r == Ok::<UpstreamH2Connection, String>(conns[j])
                                &&& final(self).pools@ == old(self).pools@
                                &&& final(self).next_conn_id == old(self).next_conn_id
                            } else if conns.len() < old(self).max_connections_per_host {
                                &&& r is Ok && fresh
                                &&& final(self).pools@.len() == n
                                &&& final(self).pools@[i].0 == old(self).pools@[i].0
                                &&& final(self).pools@[i].1@ == conns.push(c)
                                &&& forall|j: int| 0 <= j < n && j != i ==> final(self).pools@[j] == old(self).pools@[j]
                                &&& final(self).next_conn_id == old(self).next_conn_id + 1
                            } else {
                                &&& r is Err
                                &&& r->Err_0@ == "UpstreamH2Pool: Max connections reached for "@ + k
                                &&& final(self).pools@ == old(self).pools@
                                &&& final(self).next_conn_id == old(self).next_conn_id
                            }
                        }
                    }
                } else {
                    &&& r is Ok && fresh
                    &&& final(self).pools@.len() == n + 1
                    &&& final(self).pools@.drop_last() == old(self).pools@
                    &&& final(self).keys()[n as int] == k
                    &&& final(self).pools@[n as int].1@ == seq![c]
                    &&& final(self).next_conn_id == old(self).next_conn_id + 1
                }
            }),
    {
        let key = Self::key(hostname, port);
        let ghost k = key@;
        let ghost n = self.pools@.len();
        let ghost old_pools = self.pools@;
        match self.position(key.as_str()) {
            Some(i) => {
                let max_streams = self.max_streams_per_connection;
                let mut j: usize = 0;
                while j < self.pools[i].1.len()
                    invariant
                        self.pools@ == old_pools,
                        i < self.pools@.len(),
                        self.max_streams_per_connection == max_streams,
                        j <= self.pools@[i as int].1@.len(),
                        forall|q: int| 0 <= q < j ==> self.pools@[i as int].1@[q].active_streams >= max_streams,
                    decreases self.pools@[i as int].1@.len() - j,
                {
                    if self.pools[i].1[j].active_streams < max_streams {
                        let c = self.pools[i].1[j].duplicate();
                        assert(has_room(self.pools@[i as int].1@, max_streams, j as int));
                        return Ok(c);
                    }
                    j += 1;
                }
                assert(forall|q: int| !has_room(old_pools[i as int].1@, max_streams, q));
                if self.pools[i].1.len() < self.max_connections_per_host as usize {
                    assert(old(self).creates_for(k)) by {
                        assert forall|i2: int| 0 <= i2 < old_pools.len() && #[trigger] old(self).keys()[i2] == k implies
                            (forall|j: int| !has_room(old_pools[i2].1@, max_streams, j))
                            && old_pools[i2].1@.len() < old(self).max_connections_per_host by {
                            if i2 != i {
                                if i2 < i {
                                    assert(old(self).keys()[i2] != old(self).keys()[i as int]);
                                } else {
                                    assert(old(self).keys()[i as int] != old(self).keys()[i2]);
                                }
                            }
                        }
                    }
                    let id = self.next_conn_id;
                    self.next_conn_id = self.next_conn_id + 1;
                    let conn = UpstreamH2Connection::new(id, String::from_str(hostname), port);
                    let result = conn.duplicate();
                    let (kk, mut conns) = self.pools.remove(i);
                    conns.push(conn);
                    let e = (kk, conns);
                    let ghost ge = e;
                    self.pools.insert(i, e);
                    proof {
                        assert(self.pools@ =~= old_pools.update(i as int, ge));
                        assert(forall|q: int| 0 <= q < n ==> #[trigger] self.keys()[q] == old_pools[q].0@);
                        assert(forall|q: int| 0 <= q < n ==> #[trigger] old(self).keys()[q] == old_pools[q].0@);
                        assert(self.keys() =~= old(self).keys());
                    }
                    Ok(result)
                } else {
                    proof {
                        reveal_strlit("UpstreamH2Pool: Max connections reached for ");
                    }
                    let mut msg = String::from_str("UpstreamH2Pool: Max connections reached for ");
                    msg.append(key.as_str());
                    Err(msg)
                }
            },
            None => {
                let id = self.next_conn_id;
                self.next_conn_id = self.next_conn_id + 1;
                let conn = UpstreamH2Connection::new(id, String::from_str(hostname), port);
                let result = conn.duplicate();
                let mut conns: Vec<UpstreamH2Connection> = Vec::new();
                conns.push(conn);
                self.pools.push((key, conns));
                proof {
                    assert(self.pools@.drop_last() =~= old_pools);
                    assert(forall|q: int| 0 <= q < n ==> #[trigger] self.keys()[q] == old_pools[q].0@);
                    assert(forall|q: int| 0 <= q < n ==> #[trigger] old(self).keys()[q] == old_pools[q].0@);
                    assert(self.pools@[n as int].1@ =~= seq![result]);
                    assert forall|a: int, b: int| 0 <= a < b < self.pools@.len() implies self.keys()[a] != self.keys()[b] by {
                        if b < n {
                            assert(old(self).keys()[a] != old(self).keys()[b]);
                        } else {
                            assert(old(self).keys()[a] != k);
                        }
                    }
                }
                Ok(result)
            },
        }
    }

    /// Removes connection `conn_id` from the pool of `hostname:port`, and the pool with it
    /// when it held no other; a connection that is not pooled is ignored. Always `Ok`.
    #[verifier::loop_isolation(false)]
    pub fn close_connection(&mut self, hostname: &str, port: u16, conn_id: u32) -> (r: Result<(), String>)
        requires
            old(self).wf(),
        ensures
            r is Ok,
            final(self).wf(),
            final(self).next_conn_id == old(self).next_conn_id,
            final(self).max_connections_per_host == old(self).max_connections_per_host,
            final(self).max_streams_per_connection == old(self).max_streams_per_connection,
            ({
                let k = pool_key(hostname@, port);
                let n = old(self).pools@.len();
                if exists|i: int, p: int| 0 <= i < n && old(self).keys()[i] == k && 0 <= p < old(self).pools@[i].1@.len()
                    && old(self).pools@[i].1@[p].id == conn_id {
                    exists|i: int, p: int| {
                        &&& 0 <= i < n && old(self).keys()[i] == k
                        &&& 0 <= p < old(self).pools@[i].1@.len() && old(self).pools@[i].1@[p].id == conn_id
                        &&& forall|q: int| 0 <= q < p ==> old(self).pools@[i].1@[q].id != conn_id
                        &&& if old(self).pools@[i].1@.len() == 1 {
                            final(self).pools@ == old(self).pools@.remove(i)
                        } else {
                            &&& final(self).pools@.len() == n
                            &&& final(self).pools@[i].0 == old(self).pools@[i].0
                            &&& final(self).pools@[i].1@ == old(self).pools@[i].1@.remove(p)
                            &&& forall|j: int| 0 <= j < n && j != i ==> final(self).pools@[j] == old(self).pools@[j]
                        }
                    }
                } else {
                    final(self).pools@ == old(self).pools@
                }
            }),
    {
        let key = Self::key(hostname, port);
        let ghost n = self.pools@.len();
        let ghost old_pools = self.pools@;
        proof {
            assert(forall|q: int| 0 <= q < n ==> #[trigger] old(self).keys()[q] == old_pools[q].0@);
        }
        match self.position(key.as_str()) {
            Some(i) => {
                let mut p: usize = 0;
                while p < self.pools[i].1.len()
                    invariant
                        self.pools@ == old_pools,
                        self.next_conn_id == old(self).next_conn_id,
                        self.max_connections_per_host == old(self).max_connections_per_host,
                        self.max_streams_per_connection == old(self).max_streams_per_connection,
                        i < self.pools@.len(),
                        p <= self.pools@[i as int].1@.len(),
                        forall|q: int| 0 <= q < p ==> self.pools@[i as int].1@[q].id != conn_id,
                    decreases self.pools@[i as int].1@.len() - p,
                {
                    if self.pools[i].1[p].id == conn_id {
                        let (kk, mut conns) = self.pools.remove(i);
                        conns.remove(p);
                        if conns.len() == 0 {
                            proof {
                                assert(forall|q: int| 0 <= q < n - 1 ==> #[trigger] self.keys()[q]
                                    == old(self).keys()[if q < i { q } else { q + 1 }]);
                                assert forall|a: int, b: int| 0 <= a < b < self.pools@.len() implies self.keys()[a] != self.keys()[b] by {
                                    let a2 = if a < i { a } else { a + 1 };
                                    let b2 = if b < i { b } else { b + 1 };
                                    assert(old(self).keys()[a2] != old(self).keys()[b2]);
                                }
                            }
                        } else {
                            let e = (kk, conns);
                            let ghost ge = e;
                            self.pools.insert(i, e);
                            proof {
                                assert(self.pools@ =~= old_pools.update(i as int, ge));
                                assert(forall|q: int| 0 <= q < n ==> #[trigger] self.keys()[q] == old_pools[q].0@);
                                assert(self.keys() =~= old(self).keys());
                            }
                        }
                        return Ok(());
                    }
                    p += 1;
                }
                proof {
                    assert forall|a: int, b: int| 0 <= a < n && old(self).keys()[a] == key@ && 0 <= b < old_pools[a].1@.len()
                        implies old_pools[a].1@[b].id != conn_id by {
                        if a != i {
                            assert(old(self).keys()[a] != old(self).keys()[i as int]);
                        }
                    }
                }
                Ok(())
            },
            None => Ok(()),
        }
    }

    /// Counts a stream opened on connection `conn_id` of `hostname:port`; nothing changes
    /// when that connection is not pooled.
    pub fn increment_streams(&mut self, hostname: &str, port: u16, conn_id: u32)
        requires
            old(self).wf(),
            forall|i: int, p: int| #![trigger old(self).pools@[i].1@[p]] 0 <= i < old(self).pools@.len() && 0 <= p < old(self).pools@[i].1@.len()
                ==> old(self).pools@[i].1@[p].active_streams < u32::MAX,
        ensures
            final(self).wf(),
            final(self).keys() == old(self).keys(),
            final(self).next_conn_id == old(self).next_conn_id,
            final(self).max_connections_per_host == old(self).max_connections_per_host,
            final(self).max_streams_per_connection == old(self).max_streams_per_connection,
            forall|i: int| 0 <= i < old(self).pools@.len() ==> (#[trigger] final(self).pools@[i]).1@.len() == old(self).pools@[i].1@.len(),
            forall|i: int, p: int| #![trigger final(self).pools@[i].1@[p]] 0 <= i < old(self).pools@.len() && 0 <= p < old(self).pools@[i].1@.len() ==> {
                let c = old(self).pools@[i].1@[p];
                final(self).pools@[i].1@[p] == if old(self).keys()[i] == pool_key(hostname@, port) && c.id == conn_id
                    && forall|q: int| 0 <= q < p ==> old(self).pools@[i].1@[q].id != conn_id {
                    UpstreamH2Connection { active_streams: (c.active_streams + 1) as u32, ..c }
                } else {
                    c
                }
            },
    {
        self.update_streams(hostname, port, conn_id, true);
    }

    /// Counts a stream closed on connection `conn_id` of `hostname:port` (not below zero);
    /// nothing changes when that connection is not pooled.
    pub fn decrement_streams(&mut self, hostname: &str, port: u16, conn_id: u32)
        requires
            old(self).wf(),
        ensures
            final(self).wf(),
            final(self).keys() == old(self).keys(),
            final(self).next_conn_id == old(self).next_conn_id,
            final(self).max_connections_per_host == old(self).max_connections_per_host,
            final(self).max_streams_per_connection == old(self).max_streams_per_connection,
            forall|i: int| 0 <= i < old(self).pools@.len() ==> (#[trigger] final(self).pools@[i]).1@.len() == old(self).pools@[i].1@.len(),
            forall|i: int, p: int| #![trigger final(self).pools@[i].1@[p]] 0 <= i < old(self).pools@.len() && 0 <= p < old(self).pools@[i].1@.len() ==> {
                let c = old(self).pools@[i].1@[p];
                final(self).pools@[i].1@[p] == if old(self).keys()[i] == pool_key(hostname@, port) && c.id == conn_id
                    && forall|q: int| 0 <= q < p ==> old(self).pools@[i].1@[q].id != conn_id {
                    UpstreamH2Connection { active_streams: if c.active_streams == 0 { 0 } else { (c.active_streams - 1) as u32 }, ..c }
                } else {
                    c
                }
            },
    {
        self.update_streams(hostname, port, conn_id, false);
    }

    #[verifier::loop_isolation(false)]
    fn update_streams(&mut self, hostname: &str, port: u16, conn_id: u32, up: bool)
        requires
            old(self).wf(),
            up ==> forall|i: int, p: int| #![trigger old(self).pools@[i].1@[p]] 0 <= i < old(self).pools@.len() && 0 <= p < old(self).pools@[i].1@.len()
                ==> old(self).pools@[i].1@[p].active_streams < u32::MAX,
        ensures
            final(self).wf(),
            final(self).keys() == old(self).keys(),
            final(self).next_conn_id == old(self).next_conn_id,
            final(self).max_connections_per_host == old(self).max_connections_per_host,
            final(self).max_streams_per_connection == old(self).max_streams_per_connection,
            forall|i: int| 0 <= i < old(self).pools@.len() ==> (#[trigger] final(self).pools@[i]).1@.len() == old(self).pools@[i].1@.len(),
            forall|i: int, p: int| #![trigger final(self).pools@[i].1@[p]] 0 <= i < old(self).pools@.len() && 0 <= p < old(self).pools@[i].1@.len() ==> {
                let c = old(self).pools@[i].1@[p];
                final(self).pools@[i].1@[p] == if old(self).keys()[i] == pool_key(hostname@, port) && c.id == conn_id
                    && forall|q: int| 0 <= q < p ==> old(self).pools@[i].1@[q].id != conn_id {
                    if up {
                        UpstreamH2Connection { active_streams: (c.active_streams + 1) as u32, ..c }
                    } else {
                        UpstreamH2Connection { active_streams: if c.active_streams == 0 { 0 } else { (c.active_streams - 1) as u32 }, ..c }
                    }
                } else {
                    c
                }
            },
    {
        let key = Self::key(hostname, port);
        let ghost n = self.pools@.len();
        let ghost old_pools = self.pools@;
        proof {
            assert(forall|q: int| 0 <= q < n ==> #[trigger] old(self).keys()[q] == old_pools[q].0@);
        }
        match self.position(key.as_str()) {
            Some(i) => {
                let mut p: usize = 0;
                while p < self.pools[i].1.len()
                    invariant
                        self.pools@ == old_pools,
                        self.next_conn_id == old(self).next_conn_id,
                        self.max_connections_per_host == old(self).max_connections_per_host,
                        self.max_streams_per_connection == old(self).max_streams_per_connection,
                        i < self.pools@.len(),
                        p <= self.pools@[i as int].1@.len(),
                        forall|q: int| 0 <= q < p ==> self.pools@[i as int].1@[q].id != conn_id,
                    decreases self.pools@[i as int].1@.len() - p,
                {
                    if self.pools[i].1[p].id == conn_id {
                        let (kk, mut conns) = self.pools.remove(i);
                        let mut c = conns.remove(p);
                        assert(c == old(self).pools@[i as int].1@[p as int]);
                        if up {
                            c.increment_streams();
                        } else {
                            c.decrement_streams();
                        }
                        conns.insert(p, c);
                        let e = (kk, conns);
                        let ghost ge = e;
                        self.pools.insert(i, e);
                        proof {
                            assert(self.pools@ =~= old_pools.update(i as int, ge));
                            assert(forall|q: int| 0 <= q < n ==> #[trigger] self.keys()[q] == old_pools[q].0@);
                            assert(self.keys() =~= old(self).keys());
                            assert forall|a: int| 0 <= a < n && a != i
                                implies #[trigger] old(self).keys()[a] != pool_key(hostname@, port) by {
                                assert(old(self).keys()[a] != old(self).keys()[i as int]);
                            }
                        }
                        return;
                    }
                    p += 1;
                }
                proof {
                    assert forall|a: int| 0 <= a < n && a != i
                        implies #[trigger] old(self).keys()[a] != pool_key(hostname@, port) by {
                        assert(old(self).keys()[a] != old(self).keys()[i as int]);
                    }
                }
            },
            None => {},
        }
    }

    /// Figures over the pools: pooled addresses, connections, open streams, and per address
    /// its key, connections and open streams.
    pub fn stats(&self) -> (s: UpstreamH2PoolStats)
        requires
            connections_of(self.pools@) <= usize::MAX,
            pool_streams(self.pools@) <= u32::MAX,
        ensures
            s.total_hosts == self.pools@.len(),
            s.total_connections == connections_of(self.pools@),
            s.total_active_streams == pool_streams(self.pools@),
            s.hosts@.len() == self.pools@.len(),
            forall|i: int| 0 <= i < self.pools@.len() ==> {
                &&& (#[trigger] s.hosts@[i]).0@ == self.keys()[i]
                &&& s.hosts@[i].1 == self.pools@[i].1@.len()
                &&& s.hosts@[i].2 == streams_of(self.pools@[i].1@)
            },
    {
        let mut total_connections: usize = 0;
        let mut total_streams: u32 = 0;
        let mut hosts: Vec<(String, usize, u32)> = Vec::new();
        let mut i: usize = 0;
        while i < self.pools.len()
            invariant
                i <= self.pools@.len(),
                connections_of(self.pools@) <= usize::MAX,
                pool_streams(self.pools@) <= u32::MAX,
                total_connections == connections_of(self.pools@.take(i as int)),
                total_streams == pool_streams(self.pools@.take(i as int)),
                hosts@.len() == i,
                forall|q: int| 0 <= q < i ==> {
                    &&& (#[trigger] hosts@[q]).0@ == self.keys()[q]
                    &&& hosts@[q].1 == self.pools@[q].1@.len()
                    &&& hosts@[q].2 == streams_of(self.pools@[q].1@)
                },
            decreases self.pools@.len() - i,
        {
            let ghost pre = self.pools@.take(i + 1);
            assert(pre.drop_last() =~= self.pools@.take(i as int));
            proof { lemma_pool_totals_prefix(self.pools@, i + 1); }
            let conns = &self.pools[i].1;
            let mut host_streams: u32 = 0;
            let mut j: usize = 0;
            while j < conns.len()
                invariant
                    j <= conns@.len(),
                    conns@ == self.pools@[i as int].1@,
                    host_streams == streams_of(conns@.take(j as int)),
                    total_streams + streams_of(conns@) <= u32::MAX,
                decreases conns@.len() - j,
            {
                assert(conns@.take(j + 1).drop_last() =~= conns@.take(j as int));
                proof { lemma_streams_prefix(conns@, j + 1); }
                host_streams = host_streams + conns[j].active_streams;
                j += 1;
            }
            assert(conns@.take(j as int) =~= conns@);
            total_connections = total_connections + conns.len();
            total_streams = total_streams + host_streams;
            hosts.push((self.pools[i].0.clone(), conns.len(), host_streams));
            i += 1;
        }
        assert(self.pools@.take(i as int) =~= self.pools@);
        UpstreamH2PoolStats { total_hosts: hosts.len(), total_connections, total_active_streams: total_streams, hosts }
    }
}

proof fn lemma_streams_prefix(s: Seq<UpstreamH2Connection>, k: int)
    requires
        0 <= k <= s.len(),
    ensures
        streams_of(s.take(k)) <= streams_of(s),
    decreases s.len(),
{
    if k < s.len() {
        assert(s.drop_last().take(k) =~= s.take(k));
        lemma_streams_prefix(s.drop_last(), k);
    } else {
        assert(s.take(k) =~= s);
    }
}

proof fn lemma_pool_totals_prefix(s: Seq<(String, Vec<UpstreamH2Connection>)>, k: int)
    requires
        0 <= k <= s.len(),
    ensures
        connections_of(s.take(k)) <= connections_of(s),
        pool_streams(s.take(k)) <= pool_streams(s),
    decreases s.len(),
{
    if k < s.len() {
        assert(s.drop_last().take(k) =~= s.take(k));
        lemma_pool_totals_prefix(s.drop_last(), k);
    } else {
        assert(s.take(k) =~= s);
    }
}

impl Default for UpstreamH2Pool {
    fn default() -> (p: Self)
        ensures
            p.wf(),
            p.pools@.len() == 0,
            p.next_conn_id == 0,
            p.max_connections_per_host == 4,
            p.max_streams_per_connection == 100,
    {
        Self::new()
    }
}

/// Across calls of `get_or_create` (which keeps `wf`), no id is handed out twice and no
/// host exceeds its limit: every connection of a sound pool has an id other than the next
/// one to hand out (the id of the next new connection), no two share an id, and each host
/// has at most its maximum number of connections.
pub proof fn lemma_pool_ids_fresh(p: UpstreamH2Pool)
    requires
        p.wf(),
    ensures
        forall|i: int, j: int| 0 <= i < p.pools@.len() && 0 <= j < p.pools@[i].1@.len()
            ==> #[trigger] p.pools@[i].1@[j].id != p.next_conn_id,
        forall|i: int, j: int, k: int, l: int| 0 <= i < p.pools@.len() && 0 <= j < p.pools@[i].1@.len()
            && 0 <= k < p.pools@.len() && 0 <= l < p.pools@[k].1@.len() && (i != k || j != l)
            ==> #[trigger] p.pools@[i].1@[j].id != #[trigger] p.pools@[k].1@[l].id,
        forall|i: int| 0 <= i < p.pools@.len() ==> (#[trigger] p.pools@[i]).1@.len() <= host_cap(p.max_connections_per_host),
{
}

} // verus!
