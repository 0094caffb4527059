use vstd::prelude::*;
use crate::text::{str_eq, views};

verus! {

/// What the cache holds for a hostname: its addresses and when they expire.
pub type EntryView = (Seq<Seq<char>>, u64);

/// The map that a list of (hostname, entry) pairs stands for: a later pair of a hostname
/// replaces an earlier one.
pub open spec fn map_of(s: Seq<(Seq<char>, EntryView)>) -> Map<Seq<char>, EntryView>
    decreases s.len(),
{
    if s.len() == 0 {
        Map::empty()
    } else {
        map_of(s.drop_last()).insert(s.last().0, s.last().1)
    }
}

/// No hostname occurs twice.
pub open spec fn unique_keys(s: Seq<(Seq<char>, EntryView)>) -> bool {
    forall|i: int, j: int| 0 <= i < j < s.len() ==> s[i].0 != s[j].0
}

proof fn lemma_map_of_contains(s: Seq<(Seq<char>, EntryView)>, k: Seq<char>)
    requires
        unique_keys(s),
    ensures
        map_of(s).contains_key(k) <==> exists|i: int| 0 <= i < s.len() && s[i].0 == k,
        forall|i: int| 0 <= i < s.len() && s[i].0 == k ==> map_of(s)[k] == #[trigger] s[i].1,
    decreases s.len(),
{
    if s.len() > 0 {
        let t = s.drop_last();
        let n = s.len() - 1;
        lemma_map_of_contains(t, k);
        assert forall|i: int| 0 <= i < t.len() implies #[trigger] t[i] == s[i] by {}
        if map_of(s).contains_key(k) {
            if k == s.last().0 {
                assert(s[n].0 == k);
            } else {
                let i = choose|i: int| 0 <= i < t.len() && t[i].0 == k;
                assert(s[i].0 == k);
            }
        }
        assert forall|i: int| 0 <= i < s.len() && s[i].0 == k implies map_of(s).contains_key(k)
            && map_of(s)[k] == #[trigger] s[i].1 by {
            if i < n {
                assert(t[i].0 == k);
                assert(s[i].0 != s[n].0);
            }
        }
        if exists|i: int| 0 <= i < s.len() && s[i].0 == k {
            let i = choose|i: int| 0 <= i < s.len() && s[i].0 == k;
            if i < n {
                assert(t[i].0 == k);
            }
            assert(map_of(s).contains_key(k));
        }
    }
}

proof fn lemma_map_of_update(s: Seq<(Seq<char>, EntryView)>, i: int, v: EntryView)
    requires
        unique_keys(s),
        0 <= i < s.len(),
    ensures
        map_of(s.update(i, (s[i].0, v))) == map_of(s).insert(s[i].0, v),
    decreases s.len(),
{
    let s2 = s.update(i, (s[i].0, v));
    let t = s.drop_last();
    if i == s.len() - 1 {
        assert(s2.drop_last() =~= t);
        assert(map_of(s2) =~= map_of(s).insert(s[i].0, v));
    } else {
        assert(s2.drop_last() =~= t.update(i, (t[i].0, v)));
        lemma_map_of_update(t, i, v);
        assert(s[i].0 != s.last().0);
        assert(map_of(s2) =~= map_of(s).insert(s[i].0, v));
    }
}

proof fn lemma_map_of_remove(s: Seq<(Seq<char>, EntryView)>, i: int)
    requires
        unique_keys(s),
        0 <= i < s.len(),
    ensures
        map_of(s.remove(i)) == map_of(s).remove(s[i].0),
    decreases s.len(),
{
    let t = s.drop_last();
    if i == s.len() - 1 {
        assert(s.remove(i) =~= t);
        lemma_map_of_contains(t, s[i].0);
        assert(map_of(s.remove(i)) =~= map_of(s).remove(s[i].0));
    } else {
        assert(s.remove(i).drop_last() =~= t.remove(i));
        lemma_map_of_remove(t, i);
        assert(s[i].0 != s.last().0);
        assert(map_of(s.remove(i)) =~= map_of(s).remove(s[i].0));
    }
}

/// The addresses cached for one hostname.
#[derive(Debug, Clone)]
pub struct CachedDnsEntry {
    pub hostname: String,
    pub addresses: Vec<String>,
    /// The clock reading, in milliseconds, from which the entry is stale.
    pub expires_at_ms: u64,
}

impl CachedDnsEntry {
    pub open spec fn pair(self) -> (Seq<char>, EntryView) {
        (self.hostname@, (views(self.addresses@), self.expires_at_ms))
    }
}

/// A DNS cache with a time to live. The clock is read by the caller and handed in as
/// milliseconds; addresses are kept as text.
pub struct DnsCache {
    pub entries: Vec<CachedDnsEntry>,
    pub ttl_secs: u64,
}

impl DnsCache {
    pub open spec fn pairs(self) -> Seq<(Seq<char>, EntryView)> {
        self.entries@.map_values(|e: CachedDnsEntry| e.pair())
    }

    /// The hostnames cached, each with its addresses and expiry.
    pub open spec fn view(self) -> Map<Seq<char>, EntryView> {
        map_of(self.pairs())
    }

    /// No hostname is cached twice.
    pub open spec fn wf(self) -> bool {
        unique_keys(self.pairs())
    }

    /// An empty cache whose entries live `ttl_secs` seconds.
    pub fn new(ttl_secs: u64) -> (c: Self)
        ensures
            c.wf(),
            c.view() == Map::<Seq<char>, EntryView>::empty(),
            c.ttl_secs == ttl_secs,
    {
        let c = DnsCache { entries: Vec::new(), ttl_secs };
        assert(c.pairs() =~= Seq::<(Seq<char>, EntryView)>::empty());
        c
    }

    /// An empty cache whose entries live 60 seconds.
    pub fn default_ttl() -> (c: Self)
        ensures
            c.wf(),
            c.view() == Map::<Seq<char>, EntryView>::empty(),
            c.ttl_secs == 60,
    {
        Self::new(60)
    }

    /// Where `hostname` is cached, if it is.
    fn position(&self, hostname: &str) -> (r: Option<usize>)
        requires
            self.wf(),
        ensures
            match r {
                Some(i) => i < self.entries@.len() && self.pairs()[i as int].0 == hostname@,
                None => !self.view().contains_key(hostname@),
            },
    {
        let mut i: usize = 0;
        while i < self.entries.len()
            invariant
                i <= self.entries@.len(),
                forall|j: int| 0 <= j < i ==> self.pairs()[j].0 != hostname@,
            decreases self.entries@.len() - i,
        {
            if str_eq(self.entries[i].hostname.as_str(), hostname) {
                return Some(i);
            }
            i += 1;
        }
        proof { lemma_map_of_contains(self.pairs(), hostname@); }
        None
    }

    /// The addresses cached for `hostname` when their entry has not expired at `now_ms`;
    /// an expired entry is removed.
    pub fn get(&mut self, hostname: &str, now_ms: u64) -> (r: Option<Vec<String>>)
        requires
            old(self).wf(),
        ensures
            final(self).wf(),
            final(self).ttl_secs == old(self).ttl_secs,
            match old(self).view().get(hostname@) {
                Some(e) => if now_ms < e.1 {
                    r matches Some(v) && views(v@) == e.0 && final(self).view() == old(self).view()
                } else {
                    r is None && final(self).view() == old(self).view().remove(hostname@)
                },
                None => r is None && final(self).view() == old(self).view(),
            },
    {
        match self.position(hostname) {
            Some(i) => {
                proof { lemma_map_of_contains(self.pairs(), hostname@); }
                assert(self.pairs()[i as int] == self.entries@[i as int].pair());
                assert(self.pairs()[i as int].0 == hostname@);
                assert(self.view()[hostname@] == self.pairs()[i as int].1);
                assert(self.view().get(hostname@) == Some(self.pairs()[i as int].1));
                if now_ms < self.entries[i].expires_at_ms {
                    let addrs = self.entries[i].addresses.clone();
                    assert(addrs@ =~= self.entries@[i as int].addresses@);
                    Some(addrs)
                } else {
                    let ghost old_pairs = self.pairs();
                    self.entries.remove(i);
                    proof {
                        lemma_map_of_remove(old_pairs, i as int);
                        assert(self.pairs() =~= old_pairs.remove(i as int));
                    }
                    None
                }
            },
            None => None,
        }
    }

    /// Caches `addresses` for `hostname`, expiring `ttl_secs` after `now_ms`; an empty list
    /// is not cached.
    pub fn set(&mut self, hostname: String, addresses: Vec<String>, now_ms: u64)
        requires
            old(self).wf(),
            now_ms + old(self).ttl_secs * 1000 <= u64::MAX,
        ensures
            final(self).wf(),
            final(self).ttl_secs == old(self).ttl_secs,
            addresses@.len() == 0 ==> final(self).view() == old(self).view(),
            addresses@.len() > 0 ==> final(self).view() == old(self).view().insert(hostname@,
                (views(addresses@), (now_ms + old(self).ttl_secs * 1000) as u64)),
    {
        if addresses.len() == 0 {
            return;
        }
        let expires_at_ms = now_ms + self.ttl_secs * 1000;
        let ghost old_pairs = self.pairs();
        let ghost k = hostname@;
        let entry = CachedDnsEntry { hostname, addresses, expires_at_ms };
        match self.position(entry.hostname.as_str()) {
            Some(i) => {
                self.entries.set(i, entry);
                proof {
                    assert(self.pairs() =~= old_pairs.update(i as int, (old_pairs[i as int].0, entry.pair().1)));
                    lemma_map_of_update(old_pairs, i as int, entry.pair().1);
                }
            },
            None => {
                self.entries.push(entry);
                proof {
                    assert(self.pairs() =~= old_pairs.push(entry.pair()));
                    assert(self.pairs().drop_last() =~= old_pairs);
                    assert forall|j: int| 0 <= j < old_pairs.len() implies old_pairs[j].0 != k by {
                        lemma_map_of_contains(old_pairs, k);
                    }
                }
            },
        }
    }

    /// Empties the cache.
    pub fn clear(&mut self)
        ensures
            final(self).wf(),
            final(self).ttl_secs == old(self).ttl_secs,
            final(self).view() == Map::<Seq<char>, EntryView>::empty(),
    {
        self.entries.clear();
        assert(self.pairs() =~= Seq::<(Seq<char>, EntryView)>::empty());
    }

    /// The number of hostnames cached.
    pub fn size(&self) -> (n: usize)
        requires
            self.wf(),
        ensures
            n == self.view().len(),
    {
        proof { lemma_map_of_len(self.pairs()); }
        self.entries.len()
    }
}

proof fn lemma_map_of_len(s: Seq<(Seq<char>, EntryView)>)
    requires
        unique_keys(s),
    ensures
        map_of(s).len() == s.len(),
        map_of(s).dom().finite(),
    decreases s.len(),
{
    if s.len() > 0 {
        let t = s.drop_last();
        lemma_map_of_len(t);
        lemma_map_of_contains(t, s.last().0);
        assert(!map_of(t).contains_key(s.last().0));
    }
}

} // verus!
