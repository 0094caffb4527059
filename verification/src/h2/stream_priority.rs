use vstd::prelude::*;
use std::collections::HashMap;
use std::cmp::Ordering;
use crate::bytes::{be32, be32_bytes, read_be_u32, push_be_u32, lemma_be32_roundtrip};
use crate::text::{decimal, push_decimal};

verus! {

broadcast use vstd::std_specs::hash::group_hash_axioms;

/// A stream's priority weight (RFC 7540, Section 5.3.2); valid weights are 1 to 255.
#[derive(Debug, Clone, Copy, PartialEq, Eq, Structural)]
pub struct StreamWeight(pub u8);

/// The message for a refused weight.
pub open spec fn invalid_weight_message(weight: u8) -> Seq<char> {
    "Invalid weight: "@ + decimal(weight as nat) + " (must be 1-255)"@
}

impl StreamWeight {
    /// A weight from 1 to 255; 0 is refused.
    pub fn new(weight: u8) -> (r: Result<Self, String>)
        ensures
            weight >= 1 ==> r == Ok::<StreamWeight, String>(StreamWeight(weight)),
            weight == 0 ==> (r matches Err(e) && e@ == invalid_weight_message(weight)),
    {
        if weight >= 1 {
            Ok(StreamWeight(weight))
        } else {
            let mut msg = String::from_str("Invalid weight: ");
            push_decimal(&mut msg, weight as u64);
            msg.append(" (must be 1-255)");
            Err(msg)
        }
    }

    /// The default weight, 16.
    pub fn default() -> (w: Self)
        ensures
            w.0 == 16,
    {
        StreamWeight(16)
    }

    /// The weight as a byte.
    pub fn as_u8(&self) -> (r: u8)
        ensures
            r == self.0,
    {
        self.0
    }
}

/// A stream's priority: its parent, its weight, and whether it claims its parent exclusively.
#[derive(Debug, Clone, Copy, PartialEq, Eq, Structural)]
pub struct StreamPriority {
    pub exclusive: bool,
    pub stream_dependency: u32,
    pub weight: StreamWeight,
}

impl StreamPriority {
    /// A priority with the given parent, weight and exclusive bit; a weight of 0 is refused.
    pub fn new(stream_dependency: u32, weight: u8, exclusive: bool) -> (r: Result<Self, String>)
        ensures
            weight >= 1 ==> r == Ok::<StreamPriority, String>(
                StreamPriority { exclusive, stream_dependency, weight: StreamWeight(weight) },
            ),
            weight == 0 ==> (r matches Err(e) && e@ == invalid_weight_message(weight)),
    {
        let weight = match StreamWeight::new(weight) {
            Ok(w) => w,
            Err(e) => { return Err(e); },
        };
        Ok(StreamPriority { exclusive, stream_dependency, weight })
    }

    /// The default priority: on the connection (stream 0), weight 16, not exclusive.
    pub fn default() -> (p: Self)
        ensures
            p == default_priority(),
    {
        StreamPriority { exclusive: false, stream_dependency: 0, weight: StreamWeight::default() }
    }

    /// Whether the stream depends on the connection itself.
    pub fn is_root_dependent(&self) -> (r: bool)
        ensures
            r <==> self.stream_dependency == 0,
    {
        self.stream_dependency == 0
    }
}

/// The default priority.
pub open spec fn default_priority() -> StreamPriority {
    StreamPriority { exclusive: false, stream_dependency: 0, weight: StreamWeight(16) }
}

/// The PRIORITY frame's payload codec (RFC 7540, Section 6.3).
pub struct PriorityFrame;

/// The raw 32-bit dependency field of a priority: the exclusive bit over the parent.
pub open spec fn dependency_field(p: StreamPriority) -> u32 {
    if p.exclusive { (p.stream_dependency | 0x8000_0000) as u32 } else { p.stream_dependency }
}

/// What parsing a PRIORITY payload gives: the priority and its parent, or the message.
pub open spec fn priority_parse(payload: Seq<u8>) -> Result<(StreamPriority, u32), Seq<char>> {
    if payload.len() < 5 {
        Err("PRIORITY frame payload too short: "@ + decimal(payload.len()) + " bytes (min: 5)"@)
    } else if payload.len() > 5 {
        Err("PRIORITY frame payload too long: "@ + decimal(payload.len()) + " bytes (max: 5)"@)
    } else {
        let raw = be32(payload[0], payload[1], payload[2], payload[3]);
        let dependency = (raw % 0x8000_0000) as u32;
        if payload[4] == 0 {
            Err(invalid_weight_message(0))
        } else {
            Ok((StreamPriority {
                exclusive: raw >= 0x8000_0000,
                stream_dependency: dependency,
                weight: StreamWeight(payload[4]),
            }, dependency))
        }
    }
}

impl PriorityFrame {
    pub const FRAME_TYPE: u8 = 0x02;
    pub const MIN_SIZE: usize = 5;
    pub const MAX_SIZE: usize = 5;

    /// Parses a five-byte PRIORITY payload: the exclusive bit, the 31-bit parent, the weight.
    pub fn parse(payload: &[u8]) -> (r: Result<(StreamPriority, u32), String>)
        ensures
            match priority_parse(payload@) {
                Ok(v) => r == Ok::<(StreamPriority, u32), String>(v),
                Err(m) => r matches Err(e) && e@ == m,
            },
    {
        if payload.len() < Self::MIN_SIZE {
            let mut msg = String::from_str("PRIORITY frame payload too short: ");
            push_decimal(&mut msg, payload.len() as u64);
            msg.append(" bytes (min: 5)");
            return Err(msg);
        }
        if payload.len() > Self::MAX_SIZE {
            let mut msg = String::from_str("PRIORITY frame payload too long: ");
            push_decimal(&mut msg, payload.len() as u64);
            msg.append(" bytes (max: 5)");
            return Err(msg);
        }
        let dependency_raw = read_be_u32(payload, 0);
        let exclusive = (dependency_raw & 0x8000_0000) != 0;
        let stream_dependency = dependency_raw & 0x7fff_ffff;
        assert(((dependency_raw & 0x8000_0000) != 0) == (dependency_raw >= 0x8000_0000)
            && (dependency_raw & 0x7fff_ffff) == dependency_raw % 0x8000_0000) by (bit_vector);
        let weight = match StreamWeight::new(payload[4]) {
            Ok(w) => w,
            Err(e) => { return Err(e); },
        };
        Ok((StreamPriority { exclusive, stream_dependency, weight }, stream_dependency))
    }

    /// Encodes a priority as its five-byte payload.
    pub fn encode(priority: &StreamPriority) -> (r: Vec<u8>)
        ensures
            r@ == be32_bytes(dependency_field(*priority)).push(priority.weight.0),
    {
        let dependency_raw = if priority.exclusive {
            priority.stream_dependency | 0x8000_0000
        } else {
            priority.stream_dependency
        };
        let mut payload: Vec<u8> = Vec::new();
        push_be_u32(&mut payload, dependency_raw);
        payload.push(priority.weight.as_u8());
        payload
    }

    /// A stream may not depend on itself, and stream 0 carries no PRIORITY frame.
    pub fn validate(stream_id: u32, priority: &StreamPriority) -> (r: Result<(), String>)
        ensures
            stream_id == priority.stream_dependency ==> (r matches Err(e) && e@ == "Stream cannot depend on itself"@),
            stream_id != priority.stream_dependency && stream_id == 0
                ==> (r matches Err(e) && e@ == "Stream 0 (connection) cannot have PRIORITY frame"@),
            r is Ok <==> stream_id != priority.stream_dependency && stream_id != 0,
    {
        if stream_id == priority.stream_dependency {
            return Err(String::from_str("Stream cannot depend on itself"));
        }
        if stream_id == 0 {
            return Err(String::from_str("Stream 0 (connection) cannot have PRIORITY frame"));
        }
        Ok(())
    }
}

/// Parsing an encoded priority gives it back, with its parent, for every valid priority
/// (a parent below 2^31 and a weight of at least 1).
pub proof fn lemma_priority_roundtrip(p: StreamPriority)
    requires
        p.stream_dependency < 0x8000_0000,
        p.weight.0 >= 1,
    ensures
        priority_parse(be32_bytes(dependency_field(p)).push(p.weight.0)) == Ok::<(StreamPriority, u32), Seq<char>>((p, p.stream_dependency)),
{
    let raw = dependency_field(p);
    lemma_be32_roundtrip(raw);
    let d = p.stream_dependency;
    assert((d | 0x8000_0000u32) >= 0x8000_0000 && (d | 0x8000_0000u32) % 0x8000_0000 == d) by (bit_vector)
        requires d < 0x8000_0000u32;
    let b = be32_bytes(raw).push(p.weight.0);
    assert(b.len() == 5);
    assert(b[4] == p.weight.0);
}

/// The dependency tree as a map from stream id to the stream's priority and its children,
/// in order.
pub type TreeView = Map<u32, (StreamPriority, Seq<u32>)>;

/// The stream that `k` depends on.
pub open spec fn parent_of(v: TreeView, k: u32) -> u32 {
    v[k].0.stream_dependency
}

/// The stream reached from `x` by following `k` dependency links. The walk ends (`None`)
/// past the connection (stream 0) or past a stream that is not in the tree.
pub open spec fn walk(v: TreeView, x: u32, k: nat) -> Option<u32>
    decreases k,
{
    if k == 0 {
        Some(x)
    } else if x != 0 && v.contains_key(x) {
        walk(v, parent_of(v, x), (k - 1) as nat)
    } else {
        None
    }
}

/// Whether `target` is `from` itself or lies on its chain of dependencies.
pub open spec fn reaches(v: TreeView, from: u32, target: u32) -> bool {
    exists|k: nat| #[trigger] walk(v, from, k) == Some(target)
}

/// Whether an element differs from `x`.
pub open spec fn differs_from(x: u32) -> spec_fn(u32) -> bool {
    |y: u32| y != x
}

/// `s` without any occurrence of `x`.
pub open spec fn without(s: Seq<u32>, x: u32) -> Seq<u32> {
    s.filter(differs_from(x))
}

/// Ranks that grow along every dependency inside the tree, all below `bound`: the tree's
/// dependencies have no cycle.
pub open spec fn ranked(v: TreeView, rank: Map<u32, nat>, bound: nat) -> bool {
    &&& forall|k: u32| #[trigger] v.contains_key(k) ==> rank.contains_key(k) && rank[k] < bound
    &&& forall|k: u32| #[trigger] v.contains_key(k) && k != 0 && v.contains_key(parent_of(v, k))
            ==> rank[parent_of(v, k)] < rank[k]
}

/// Every child listed under a stream is a stream of the tree, other than the connection,
/// that depends on it.
pub open spec fn children_consistent(v: TreeView) -> bool {
    forall|p: u32, c: u32| v.contains_key(p) && #[trigger] v[p].1.contains(c)
        ==> c != 0 && v.contains_key(c) && parent_of(v, c) == p
}

/// A node of the dependency tree.
#[derive(Debug, Clone)]
struct PriorityNode {
    stream_id: u32,
    priority: StreamPriority,
    children: Vec<u32>,
}

/// The dependency tree of a connection's streams (RFC 7540, Section 5.3); stream 0, the
/// connection, is its root.
pub struct StreamPriorityManager {
    nodes: HashMap<u32, PriorityNode>,
    total_streams: u64,
    rank: Ghost<Map<u32, nat>>,
    bound: Ghost<nat>,
}

impl View for StreamPriorityManager {
    type V = TreeView;

    closed spec fn view(&self) -> TreeView {
        self.nodes@.map_values(|n: PriorityNode| (n.priority, n.children@))
    }
}

impl StreamPriorityManager {
    /// The manager's invariant: the connection is in the tree, each node is stored under its
    /// own id, the dependencies have no cycle, children lists agree with dependencies, and
    /// the stream count is the number of streams other than the connection.
    pub closed spec fn wf(&self) -> bool {
        &&& self@.contains_key(0)
        &&& forall|k: u32| #[trigger] self.nodes@.contains_key(k) ==> self.nodes@[k].stream_id == k
        &&& ranked(self@, self.rank@, self.bound@)
        &&& children_consistent(self@)
        &&& self.total_streams + 1 == self@.dom().len()
    }

    /// A bound on the depth of the tree.
    pub closed spec fn depth_bound(&self) -> nat {
        self.bound@
    }

    /// The number of streams other than the connection.
    pub closed spec fn count(&self) -> u64 {
        self.total_streams
    }

    proof fn lemma_view_facts(&self)
        requires
            self.wf(),
        ensures
            self@.dom().finite(),
            self.count() + 1 == self@.dom().len(),
            self.depth_bound() >= 1,
    {
        assert(self@.dom() =~= self.nodes@.dom());
        assert(self@.contains_key(0));
    }

    /// A tree holding only the connection.
    pub fn new() -> (m: Self)
        ensures
            m.wf(),
            m@ == Map::<u32, (StreamPriority, Seq<u32>)>::empty().insert(0, (default_priority(), Seq::<u32>::empty())),
            m.count() == 0,
    {
        let mut nodes: HashMap<u32, PriorityNode> = HashMap::new();
        nodes.insert(0, PriorityNode { stream_id: 0, priority: StreamPriority::default(), children: Vec::new() });
        let m = StreamPriorityManager {
            nodes,
            total_streams: 0,
            rank: Ghost(Map::empty().insert(0u32, 0nat)),
            bound: Ghost(1),
        };
        assert(m@ =~= Map::<u32, (StreamPriority, Seq<u32>)>::empty().insert(0, (default_priority(), Seq::<u32>::empty())));
        assert(m@.dom() =~= set![0u32]);
        m
    }

    /// Whether `stream_id` is `parent_id` or one of its ancestors.
    fn creates_cycle(&self, stream_id: u32, parent_id: u32) -> (r: bool)
        requires
            self.wf(),
            stream_id != 0,
        ensures
            r == reaches(self@, parent_id, stream_id),
    {
        let ghost v = self@;
        let mut current = parent_id;
        proof {
            assert(walk(v, parent_id, 0) == Some(parent_id));
        }
        while current != 0
            invariant
                self.wf(),
                v == self@,
                stream_id != 0,
                reaches(v, parent_id, stream_id) == reaches(v, current, stream_id),
            decreases if v.contains_key(current) { self.rank@[current] + 1 } else { 0 },
        {
            if current == stream_id {
                assert(walk(v, current, 0) == Some(current));
                return true;
            }
            match self.nodes.get(&current) {
                Some(node) => {
                    proof { lemma_reaches_step(v, current, stream_id); }
                    current = node.priority.stream_dependency;
                },
                None => {
                    proof { lemma_reaches_outside(v, current, stream_id); }
                    return false;
                },
            }
        }
        proof { lemma_reaches_outside(v, current, stream_id); }
        false
    }

    /// The priority of `stream_id`, if it is in the tree.
    pub fn get_priority(&self, stream_id: u32) -> (r: Option<StreamPriority>)
        ensures
            r == if self@.contains_key(stream_id) { Some(self@[stream_id].0) } else { None::<StreamPriority> },
    {
        match self.nodes.get(&stream_id) {
            Some(n) => Some(n.priority),
            None => None,
        }
    }

    /// The children of `stream_id`, in order; none if it is not in the tree.
    pub fn get_children(&self, stream_id: u32) -> (r: Vec<u32>)
        ensures
            r@ == if self@.contains_key(stream_id) { self@[stream_id].1 } else { Seq::<u32>::empty() },
    {
        match self.nodes.get(&stream_id) {
            Some(n) => n.children.clone(),
            None => Vec::new(),
        }
    }

    /// The number of streams in the tree, the connection aside.
    pub fn stream_count(&self) -> (r: usize)
        ensures
            r == self.count() as usize,
    {
        self.total_streams as usize
    }
}

/// From a stream of the tree other than the connection, the target is reached exactly when
/// it is the stream itself or is reached from its parent.
pub proof fn lemma_reaches_step(v: TreeView, x: u32, target: u32)
    requires
        x != 0,
        v.contains_key(x),
        x != target,
    ensures
        reaches(v, x, target) == reaches(v, parent_of(v, x), target),
{
    if reaches(v, x, target) {
        let k = choose|k: nat| #[trigger] walk(v, x, k) == Some(target);
        assert(k > 0);
        assert(walk(v, parent_of(v, x), (k - 1) as nat) == Some(target));
    }
    if reaches(v, parent_of(v, x), target) {
        let k = choose|k: nat| #[trigger] walk(v, parent_of(v, x), k) == Some(target);
        assert(walk(v, x, k + 1) == Some(target));
    }
}

/// From the connection or from a stream outside the tree, only that stream itself is reached.
pub proof fn lemma_reaches_outside(v: TreeView, x: u32, target: u32)
    requires
        x == 0 || !v.contains_key(x),
        x != target,
    ensures
        !reaches(v, x, target),
{
    if reaches(v, x, target) {
        let k = choose|k: nat| #[trigger] walk(v, x, k) == Some(target);
        assert(k > 0);
    }
}

/// The tree after adding `id` under `p`'s parent, as that parent's last child.
pub open spec fn added(v: TreeView, id: u32, p: StreamPriority) -> TreeView {
    let parent = p.stream_dependency;
    v.insert(id, (p, Seq::<u32>::empty())).insert(parent, (v[parent].0, v[parent].1.push(id)))
}

/// What adding stream `id` with priority `p` gives: the new tree, or the refusal.
pub open spec fn add_outcome(v: TreeView, id: u32, p: StreamPriority) -> Result<TreeView, Seq<char>> {
    if v.contains_key(id) {
        Err("Stream "@ + decimal(id as nat) + " already exists"@)
    } else if id == 0 {
        Err("Cannot add stream 0 (reserved for connection)"@)
    } else if !v.contains_key(p.stream_dependency) {
        Err("Parent stream "@ + decimal(p.stream_dependency as nat) + " does not exist"@)
    } else if reaches(v, p.stream_dependency, id) {
        Err("Adding this stream would create a circular dependency"@)
    } else {
        Ok(added(v, id, p))
    }
}

/// How a manager operation's result and new tree match its specified outcome.
pub open spec fn outcome_matches(r: Result<(), String>, old_v: TreeView, new_v: TreeView, o: Result<TreeView, Seq<char>>) -> bool {
    match o {
        Ok(v) => r is Ok && new_v == v,
        Err(m) => (r matches Err(e) && e@ == m) && new_v == old_v,
    }
}

/// The streams from which `target` is reached, in the tree `v`.
pub open spec fn descendants(v: TreeView, target: u32) -> Set<u32> {
    Set::new(|x: u32| v.contains_key(x) && reaches(v, x, target))
}

/// Ranks for a tree in which `id` was added under `parent`: `id` goes just above its
/// parent, and the streams that reached `id` (as a missing stream) move above it.
pub open spec fn ranks_after_add(v: TreeView, rank: Map<u32, nat>, id: u32, parent: u32) -> Map<u32, nat> {
    Map::new(
        |x: u32| v.contains_key(x) || x == id,
        |x: u32| if x == id {
            rank[parent] + 1
        } else if descendants(v, id).contains(x) {
            rank[x] + rank[parent] + 2
        } else {
            rank[x]
        },
    )
}

/// Adding a stream under a parent that does not reach it keeps the tree free of cycles.
pub proof fn lemma_add_keeps_ranked(v: TreeView, w: TreeView, rank: Map<u32, nat>, bound: nat, id: u32, parent: u32)
    requires
        ranked(v, rank, bound),
        !v.contains_key(id),
        id != 0,
        v.contains_key(parent),
        !reaches(v, parent, id),
        w.dom() == v.dom().insert(id),
        forall|x: u32| #[trigger] v.contains_key(x) ==> parent_of(w, x) == parent_of(v, x),
        parent_of(w, id) == parent,
    ensures
        ranked(w, ranks_after_add(v, rank, id, parent), bound + rank[parent] + 2),
{
    let r2 = ranks_after_add(v, rank, id, parent);
    let b2 = bound + rank[parent] + 2;
    let d = descendants(v, id);
    assert forall|k: u32| #[trigger] w.contains_key(k) implies r2.contains_key(k) && r2[k] < b2 by {
        if k != id {
            assert(v.contains_key(k));
        }
    }
    assert forall|k: u32| #[trigger] w.contains_key(k) && k != 0 && w.contains_key(parent_of(w, k))
        implies r2[parent_of(w, k)] < r2[k] by {
        if k == id {
            assert(!d.contains(parent));
        } else {
            assert(v.contains_key(k));
            let y = parent_of(v, k);
            if y == id {
                assert(walk(v, y, 0) == Some(id));
                assert(walk(v, k, 1) == Some(id));
                assert(d.contains(k));
            } else {
                assert(v.contains_key(y));
                lemma_reaches_step(v, k, id);
                if d.contains(y) {
                    assert(d.contains(k));
                }
                if d.contains(k) {
                    assert(d.contains(y));
                }
            }
        }
    }
}

impl StreamPriorityManager {
    /// Adds stream `stream_id` with `priority`, as the last child of its parent. Refused if the
    /// stream exists, is stream 0, has no parent in the tree, or its parent reaches it.
    pub fn add_stream(&mut self, stream_id: u32, priority: StreamPriority) -> (r: Result<(), String>)
        requires
            old(self).wf(),
        ensures
            final(self).wf(),
            outcome_matches(r, old(self)@, final(self)@, add_outcome(old(self)@, stream_id, priority)),
            r is Ok ==> final(self).count() == old(self).count() + 1,
            r is Err ==> final(self).count() == old(self).count(),
    {
        proof { self.lemma_view_facts(); }
        let ghost v = self@;
        if self.nodes.contains_key(&stream_id) {
            let mut msg = String::from_str("Stream ");
            push_decimal(&mut msg, stream_id as u64);
            msg.append(" already exists");
            return Err(msg);
        }
        if stream_id == 0 {
            return Err(String::from_str("Cannot add stream 0 (reserved for connection)"));
        }
        let parent = priority.stream_dependency;
        if !self.nodes.contains_key(&parent) {
            let mut msg = String::from_str("Parent stream ");
            push_decimal(&mut msg, parent as u64);
            msg.append(" does not exist");
            return Err(msg);
        }
        if self.creates_cycle(stream_id, parent) {
            return Err(String::from_str("Adding this stream would create a circular dependency"));
        }
        let len = self.nodes.len();
        assert(self@.dom() =~= self.nodes@.dom());
        self.nodes.insert(stream_id, PriorityNode { stream_id, priority, children: Vec::new() });
        match self.nodes.remove(&parent) {
            Some(mut node) => {
                node.children.push(stream_id);
                self.nodes.insert(parent, node);
            },
            None => {},
        }
        self.total_streams = self.total_streams + 1;
        let ghost w = added(v, stream_id, priority);
        assert(self@ =~= w);
        assert(w.dom() =~= v.dom().insert(stream_id));
        proof {
            lemma_add_keeps_ranked(v, w, self.rank@, self.bound@, stream_id, parent);
            self.bound@ = self.bound@ + self.rank@[parent] + 2;
            self.rank@ = ranks_after_add(v, self.rank@, stream_id, parent);
        }
        assert(children_consistent(w)) by {
            assert forall|p: u32, c: u32| w.contains_key(p) && #[trigger] w[p].1.contains(c)
                implies c != 0 && w.contains_key(c) && parent_of(w, c) == p by {
                if p == parent {
                    if c != stream_id {
                        assert(v[parent].1.contains(c));
                    }
                } else if p != stream_id {
                    assert(v[p].1.contains(c));
                }
            }
        }
        Ok(())
    }
}

/// An element is kept by `without` exactly when it was there and is not the one removed.
pub proof fn lemma_without_contains(s: Seq<u32>, x: u32, c: u32)
    ensures
        without(s, x).contains(c) <==> (s.contains(c) && c != x),
{
    broadcast use vstd::seq_lib::group_filter_ensures;
    if without(s, x).contains(c) {
        s.lemma_filter_contains_rev(differs_from(x), c);
        let i = choose|i: int| 0 <= i < without(s, x).len() && without(s, x)[i] == c;
        assert(differs_from(x)(without(s, x)[i]));
    }
    if s.contains(c) && c != x {
        let i = choose|i: int| 0 <= i < s.len() && s[i] == c;
        assert(without(s, x).contains(s[i]));
    }
}

/// Removes every occurrence of `x` from `v`, keeping the order of the rest.
fn remove_all(v: &mut Vec<u32>, x: u32)
    ensures
        final(v)@ == without(old(v)@, x),
{
    let mut out: Vec<u32> = Vec::new();
    let mut i: usize = 0;
    while i < v.len()
        invariant
            i <= v.len(),
            v@ == old(v)@,
            out@ == without(old(v)@.take(i as int), x),
        decreases v.len() - i,
    {
        assert(old(v)@.take(i + 1) =~= old(v)@.take(i as int).push(v@[i as int]));
        proof { old(v)@.take(i as int).lemma_filter_push(v@[i as int], differs_from(x)); }
        if v[i] != x {
            out.push(v[i]);
        }
        i += 1;
    }
    assert(old(v)@.take(i as int) =~= old(v)@);
    *v = out;
}

/// The tree after `id` takes priority `p`, before it joins its new parent's children: it
/// has left its old parent's children and depends on `p`'s parent.
pub open spec fn detached(v: TreeView, id: u32, p: StreamPriority) -> TreeView {
    let old_parent = parent_of(v, id);
    let v1 = if v.contains_key(old_parent) {
        v.insert(old_parent, (v[old_parent].0, without(v[old_parent].1, id)))
    } else {
        v
    };
    v1.insert(id, (p, v1[id].1))
}

/// The tree after moving `id` under `p`'s parent with priority `p`: `id` leaves its old
/// parent's children. Without the exclusive flag it joins the new parent's children last.
/// With it, it becomes the new parent's only child, and the new parent's other children
/// move under `id`, after its own children, in order (RFC 7540, Section 5.3.3).
pub open spec fn reprioritized(v: TreeView, id: u32, p: StreamPriority) -> TreeView {
    let v2 = detached(v, id, p);
    let np = p.stream_dependency;
    if v2.contains_key(np) {
        if p.exclusive {
            reparent(v2.insert(np, (v2[np].0, seq![id])), v2[np].1, id)
        } else {
            v2.insert(np, (v2[np].0, v2[np].1.push(id)))
        }
    } else {
        v2
    }
}

/// Ranks for a tree in which `cs` moved under `id`: the streams that reach one of `cs` move
/// above `id`.
pub open spec fn ranks_after_adopt(v: TreeView, rank: Map<u32, nat>, id: u32, cs: Seq<u32>) -> Map<u32, nat> {
    Map::new(
        |x: u32| v.contains_key(x),
        |x: u32| if exists|c: u32| cs.contains(c) && #[trigger] reaches(v, x, c) { rank[x] + rank[id] + 1 } else { rank[x] },
    )
}

/// A stream does not reach a child of itself.
proof fn lemma_not_reaches_child(v: TreeView, rank: Map<u32, nat>, bound: nat, np: u32, c: u32)
    requires
        ranked(v, rank, bound),
        v.contains_key(np),
        v.contains_key(c),
        c != 0,
        parent_of(v, c) == np,
    ensures
        !reaches(v, np, c),
{
    if reaches(v, np, c) {
        let k = choose|k: nat| #[trigger] walk(v, np, k) == Some(c);
        if k == 0 {
            assert(rank[np] < rank[c]);
        } else {
            lemma_walk_rank(v, rank, bound, np, k);
            assert(rank[np] < rank[c]);
        }
    }
}

/// Moving the other children `cs` of `np` under its child `id` keeps the tree free of cycles.
pub proof fn lemma_adopt_keeps_ranked(v: TreeView, w: TreeView, rank: Map<u32, nat>, bound: nat, id: u32, np: u32, cs: Seq<u32>)
    requires
        ranked(v, rank, bound),
        v.contains_key(id),
        v.contains_key(np),
        id != 0,
        parent_of(v, id) == np,
        forall|x: u32| #[trigger] cs.contains(x) ==> v.contains_key(x) && x != 0 && x != id && parent_of(v, x) == np,
        w.dom() == v.dom(),
        forall|x: u32| #[trigger] v.contains_key(x) && !cs.contains(x) ==> parent_of(w, x) == parent_of(v, x),
        forall|x: u32| #[trigger] cs.contains(x) ==> parent_of(w, x) == id,
    ensures
        ranked(w, ranks_after_adopt(v, rank, id, cs), bound + rank[id] + 1),
{
    let r2 = ranks_after_adopt(v, rank, id, cs);
    assert forall|c: u32| cs.contains(c) implies !#[trigger] reaches(v, np, c) by {
        lemma_not_reaches_child(v, rank, bound, np, c);
    }
    assert forall|c: u32| cs.contains(c) implies !#[trigger] reaches(v, id, c) by {
        lemma_not_reaches_child(v, rank, bound, np, c);
        lemma_reaches_step(v, id, c);
    }
    assert(r2[id] == rank[id]);
    assert(r2[np] == rank[np]);
    assert forall|k: u32| #[trigger] w.contains_key(k) implies r2.contains_key(k) && r2[k] < bound + rank[id] + 1 by {
        assert(v.contains_key(k));
    }
    assert forall|k: u32| #[trigger] w.contains_key(k) && k != 0 && w.contains_key(parent_of(w, k))
        implies r2[parent_of(w, k)] < r2[k] by {
        assert(v.contains_key(k));
        if cs.contains(k) {
            assert(walk(v, k, 0) == Some(k));
            assert(reaches(v, k, k));
        } else if k == id {
        } else {
            let y = parent_of(v, k);
            assert(v.contains_key(y));
            assert forall|c: u32| cs.contains(c) implies #[trigger] reaches(v, k, c) == reaches(v, y, c) by {
                lemma_reaches_step(v, k, c);
            }
            if exists|c: u32| cs.contains(c) && #[trigger] reaches(v, y, c) {
                let c = choose|c: u32| cs.contains(c) && #[trigger] reaches(v, y, c);
                assert(reaches(v, k, c));
            }
            if exists|c: u32| cs.contains(c) && #[trigger] reaches(v, k, c) {
                let c = choose|c: u32| cs.contains(c) && #[trigger] reaches(v, k, c);
                assert(reaches(v, y, c));
            }
        }
    }
}

/// What giving stream `id` the priority `p` gives: the new tree, or the refusal.
pub open spec fn reprioritize_outcome(v: TreeView, id: u32, p: StreamPriority) -> Result<TreeView, Seq<char>> {
    if id == 0 {
        Err("Cannot reprioritize stream 0"@)
    } else if !v.contains_key(id) {
        Err("Stream "@ + decimal(id as nat) + " not found"@)
    } else if id == p.stream_dependency {
        Err("Stream cannot depend on itself"@)
    } else if reaches(v, p.stream_dependency, id) {
        Err("Reprioritization would create a circular dependency"@)
    } else {
        Ok(reprioritized(v, id, p))
    }
}

/// Ranks for a tree in which `id` moved under `parent`: `id` and the streams that reach it
/// move above `parent`.
pub open spec fn ranks_after_move(v: TreeView, rank: Map<u32, nat>, id: u32, parent: u32) -> Map<u32, nat> {
    let shift: nat = if v.contains_key(parent) { rank[parent] + 1 } else { 0 };
    Map::new(
        |x: u32| v.contains_key(x),
        |x: u32| if descendants(v, id).contains(x) { rank[x] + shift } else { rank[x] },
    )
}

/// Moving a stream under a parent that does not reach it keeps the tree free of cycles.
pub proof fn lemma_move_keeps_ranked(v: TreeView, w: TreeView, rank: Map<u32, nat>, bound: nat, id: u32, parent: u32)
    requires
        ranked(v, rank, bound),
        v.contains_key(id),
        id != 0,
        !reaches(v, parent, id),
        w.dom() == v.dom(),
        forall|x: u32| #[trigger] v.contains_key(x) && x != id ==> parent_of(w, x) == parent_of(v, x),
        parent_of(w, id) == parent,
    ensures
        ranked(w, ranks_after_move(v, rank, id, parent), bound + (if v.contains_key(parent) { rank[parent] + 1 } else { 0 })),
{
    let shift: nat = if v.contains_key(parent) { rank[parent] + 1 } else { 0 };
    let r2 = ranks_after_move(v, rank, id, parent);
    let d = descendants(v, id);
    assert(walk(v, id, 0) == Some(id));
    assert(d.contains(id));
    assert forall|k: u32| #[trigger] w.contains_key(k) implies r2.contains_key(k) && r2[k] < bound + shift by {
        assert(v.contains_key(k));
    }
    assert forall|k: u32| #[trigger] w.contains_key(k) && k != 0 && w.contains_key(parent_of(w, k))
        implies r2[parent_of(w, k)] < r2[k] by {
        assert(v.contains_key(k));
        if k == id {
            assert(walk(v, parent, 0) == Some(parent));
            assert(!d.contains(parent));
        } else {
            let y = parent_of(v, k);
            assert(v.contains_key(y));
            if y == id {
                assert(walk(v, y, 0) == Some(id));
                assert(walk(v, k, 1) == Some(id));
                assert(d.contains(k));
            } else {
                lemma_reaches_step(v, k, id);
                if d.contains(y) {
                    assert(d.contains(k));
                }
                if d.contains(k) {
                    assert(d.contains(y));
                }
            }
        }
    }
}

impl StreamPriorityManager {
    /// Gives stream `stream_id` a new priority, moving it under its new parent. Refused for
    /// stream 0, an unknown stream, a stream depending on itself, or a new parent that
    /// the stream reaches.
    pub fn reprioritize(&mut self, stream_id: u32, new_priority: StreamPriority) -> (r: Result<(), String>)
        requires
            old(self).wf(),
        ensures
            final(self).wf(),
            outcome_matches(r, old(self)@, final(self)@, reprioritize_outcome(old(self)@, stream_id, new_priority)),
            final(self).count() == old(self).count(),
    {
        proof { self.lemma_view_facts(); }
        let ghost v = self@;
        if stream_id == 0 {
            return Err(String::from_str("Cannot reprioritize stream 0"));
        }
        let old_parent = match self.nodes.get(&stream_id) {
            Some(n) => n.priority.stream_dependency,
            None => {
                let mut msg = String::from_str("Stream ");
                push_decimal(&mut msg, stream_id as u64);
                msg.append(" not found");
                return Err(msg);
            },
        };
        let np = new_priority.stream_dependency;
        if stream_id == np {
            return Err(String::from_str("Stream cannot depend on itself"));
        }
        if self.creates_cycle(stream_id, np) {
            return Err(String::from_str("Reprioritization would create a circular dependency"));
        }
        assert(old_parent != stream_id) by {
            if v.contains_key(old_parent) {
                assert(self.rank@[old_parent] < self.rank@[stream_id]);
            }
        }
        match self.nodes.remove(&old_parent) {
            Some(mut n) => {
                remove_all(&mut n.children, stream_id);
                self.nodes.insert(old_parent, n);
            },
            None => {},
        }
        let ghost v1 = self@;
        assert(v1 =~= if v.contains_key(old_parent) {
            v.insert(old_parent, (v[old_parent].0, without(v[old_parent].1, stream_id)))
        } else {
            v
        });
        match self.nodes.remove(&stream_id) {
            Some(mut node) => {
                node.priority = new_priority;
                self.nodes.insert(stream_id, node);
            },
            None => {
                let mut msg = String::from_str("Stream ");
                push_decimal(&mut msg, stream_id as u64);
                msg.append(" disappeared during reprioritization");
                return Err(msg);
            },
        }
        let ghost v2 = self@;
        assert(v2 =~= v1.insert(stream_id, (new_priority, v1[stream_id].1)));
        assert(v2 == detached(v, stream_id, new_priority));
        let ghost r0 = self.rank@;
        let ghost b0 = self.bound@;
        assert(children_consistent(v2)) by {
            assert forall|p: u32, c: u32| v2.contains_key(p) && #[trigger] v2[p].1.contains(c)
                implies c != 0 && v2.contains_key(c) && parent_of(v2, c) == p by {
                lemma_without_contains(v[p].1, stream_id, c);
                if p == stream_id {
                    assert(v[stream_id].1.contains(c));
                    if c == stream_id {
                        assert(r0[stream_id] < r0[stream_id]);
                    }
                } else {
                    assert(v[p].1.contains(c));
                }
            }
        }
        assert(v2.contains_key(np) ==> !v2[np].1.contains(stream_id)) by {
            if v2.contains_key(np) && v2[np].1.contains(stream_id) {
                lemma_without_contains(v[np].1, stream_id, stream_id);
                assert(v[np].1.contains(stream_id));
            }
        }
        assert(v2.dom() =~= v.dom());
        proof { lemma_move_keeps_ranked(v, v2, r0, b0, stream_id, np); }
        let ghost r1 = ranks_after_move(v, r0, stream_id, np);
        let ghost b1 = b0 + (if v.contains_key(np) { r0[np] + 1 } else { 0 });
        let ghost w = reprioritized(v, stream_id, new_priority);
        if new_priority.exclusive {
            match self.nodes.remove(&np) {
                Some(mut n) => {
                    let others = n.children;
                    n.children = Vec::new();
                    n.children.push(stream_id);
                    self.nodes.insert(np, n);
                    let ghost kids = others@;
                    let ghost v3 = v2.insert(np, (v2[np].0, seq![stream_id]));
                    assert(self@ =~= v3);
                    assert(kids == v2[np].1);
                    let mut i: usize = 0;
                    assert(kids.skip(0) =~= kids);
                    while i < others.len()
                        invariant
                            i <= others@.len(),
                            others@ == kids,
                            self.total_streams == old(self).total_streams,
                            self.rank@ == r0,
                            self.bound@ == b0,
                            forall|k: u32| #[trigger] self.nodes@.contains_key(k) ==> self.nodes@[k].stream_id == k,
                            reparent(self@, kids.skip(i as int), stream_id) == reparent(v3, kids, stream_id),
                        decreases others@.len() - i,
                    {
                        let child_id = others[i];
                        let ghost cur = self@;
                        assert(kids.skip(i as int)[0] == child_id);
                        assert(kids.skip(i as int).drop_first() =~= kids.skip(i + 1));
                        match self.nodes.remove(&child_id) {
                            Some(mut child) => {
                                child.priority.stream_dependency = stream_id;
                                self.nodes.insert(child_id, child);
                            },
                            None => {},
                        }
                        let ghost mid = self@;
                        assert(mid =~= if cur.contains_key(child_id) {
                            cur.insert(child_id, (with_parent(cur[child_id].0, stream_id), cur[child_id].1))
                        } else {
                            cur
                        });
                        match self.nodes.remove(&stream_id) {
                            Some(mut p) => {
                                p.children.push(child_id);
                                self.nodes.insert(stream_id, p);
                            },
                            None => {},
                        }
                        assert(self@ =~= if mid.contains_key(stream_id) {
                            mid.insert(stream_id, (mid[stream_id].0, mid[stream_id].1.push(child_id)))
                        } else {
                            mid
                        });
                        i += 1;
                    }
                    assert(kids.skip(i as int) =~= Seq::<u32>::empty());
                    assert(self@ == w);
                    proof {
                        lemma_reparent(v3, kids, stream_id);
                        assert(w.dom() =~= v2.dom());
                        lemma_adopt_keeps_ranked(v2, w, r1, b1, stream_id, np, kids);
                        self.bound@ = b1 + r1[stream_id] + 1;
                        self.rank@ = ranks_after_adopt(v2, r1, stream_id, kids);
                    }
                    assert(!kids.contains(np)) by {
                        if kids.contains(np) {
                            assert(parent_of(v2, np) == np);
                            assert(r1[parent_of(v2, np)] < r1[np]);
                        }
                    }
                    assert(children_consistent(w)) by {
                        assert forall|p: u32, c: u32| w.contains_key(p) && #[trigger] w[p].1.contains(c)
                            implies c != 0 && w.contains_key(c) && parent_of(w, c) == p by {
                            assert(v3.contains_key(p));
                            if p == stream_id {
                                assert(w[p].1 == v2[stream_id].1 + kids);
                                if v2[stream_id].1.contains(c) {
                                    assert(parent_of(v2, c) == stream_id);
                                } else {
                                    let j = choose|j: int| 0 <= j < w[p].1.len() && w[p].1[j] == c;
                                    assert(kids[j - v2[stream_id].1.len()] == c);
                                    assert(kids.contains(c));
                                }
                            } else if kids.contains(p) {
                                assert(w[p].1 == v2[p].1);
                                assert(parent_of(v2, c) == p);
                            } else if p == np {
                                assert(w[p].1 == seq![stream_id]);
                                assert(c == stream_id);
                            } else {
                                assert(w[p] == v2[p]);
                                assert(parent_of(v2, c) == p);
                            }
                            assert(v3.contains_key(c));
                            if kids.contains(c) {
                                assert(parent_of(w, c) == stream_id);
                                assert(parent_of(v2, c) == np);
                            } else if c != stream_id {
                                assert(w[c].0 == v2[c].0);
                            }
                        }
                    }
                },
                None => {
                    assert(self@ =~= v2);
                    assert(self@ == w);
                    proof {
                        self.bound@ = b1;
                        self.rank@ = r1;
                    }
                },
            }
        } else {
            match self.nodes.remove(&np) {
                Some(mut n) => {
                    n.children.push(stream_id);
                    self.nodes.insert(np, n);
                    assert(self@ =~= v2.insert(np, (v2[np].0, v2[np].1.push(stream_id))));
                },
                None => {
                    assert(self@ =~= v2);
                },
            }
            assert(self@ == w);
            assert(ranked(w, r1, b1)) by {
                assert forall|k: u32| #[trigger] w.contains_key(k) implies parent_of(w, k) == parent_of(v2, k) by {}
            }
            assert(children_consistent(w)) by {
                assert forall|p: u32, c: u32| w.contains_key(p) && #[trigger] w[p].1.contains(c)
                    implies c != 0 && w.contains_key(c) && parent_of(w, c) == p by {
                    if p == np && c != stream_id {
                        let j = choose|j: int| 0 <= j < w[p].1.len() && w[p].1[j] == c;
                        assert(v2[np].1[j] == c);
                        assert(v2[np].1.contains(c));
                    } else if p != np {
                        assert(w[p] == v2[p]);
                    }
                    if c != stream_id || p != np {
                        assert(parent_of(v2, c) == p);
                        assert(v2.contains_key(c));
                    }
                    assert(w[c].0 == v2[c].0);
                }
            }
            proof {
                self.bound@ = b1;
                self.rank@ = r1;
            }
        }
        Ok(())
    }
}

/// `p` with its parent replaced by `parent`.
pub open spec fn with_parent(p: StreamPriority, parent: u32) -> StreamPriority {
    StreamPriority { exclusive: p.exclusive, stream_dependency: parent, weight: p.weight }
}

/// The tree after moving each of `kids`, in order, under `gp`: each existing kid now depends
/// on `gp`, and each is appended to `gp`'s children while `gp` exists.
pub open spec fn reparent(v: TreeView, kids: Seq<u32>, gp: u32) -> TreeView
    decreases kids.len(),
{
    if kids.len() == 0 {
        v
    } else {
        let c = kids[0];
        let v1 = if v.contains_key(c) { v.insert(c, (with_parent(v[c].0, gp), v[c].1)) } else { v };
        let v2 = if v1.contains_key(gp) { v1.insert(gp, (v1[gp].0, v1[gp].1.push(c))) } else { v1 };
        reparent(v2, kids.drop_first(), gp)
    }
}

/// The tree after removing `id`: it leaves its parent's children, and when that parent is in
/// the tree, `id`'s children move under it, in order.
pub open spec fn removed(v: TreeView, id: u32) -> TreeView {
    let gp = parent_of(v, id);
    let v1 = v.remove(id);
    if v1.contains_key(gp) {
        reparent(v1.insert(gp, (v1[gp].0, without(v1[gp].1, id))), v[id].1, gp)
    } else {
        v1
    }
}

/// What removing stream `id` gives: the new tree, or the refusal.
pub open spec fn remove_outcome(v: TreeView, id: u32) -> Result<TreeView, Seq<char>> {
    if id == 0 {
        Err("Cannot remove stream 0"@)
    } else if !v.contains_key(id) {
        Err("Stream "@ + decimal(id as nat) + " not found"@)
    } else {
        Ok(removed(v, id))
    }
}

/// What moving `kids` under `gp` does, when none of them is `gp`.
pub proof fn lemma_reparent(v: TreeView, kids: Seq<u32>, gp: u32)
    requires
        v.contains_key(gp),
        !kids.contains(gp),
    ensures
        reparent(v, kids, gp).dom() == v.dom(),
        reparent(v, kids, gp)[gp] == (v[gp].0, v[gp].1 + kids),
        forall|x: u32| #[trigger] v.contains_key(x) && x != gp ==> reparent(v, kids, gp)[x]
            == if kids.contains(x) { (with_parent(v[x].0, gp), v[x].1) } else { v[x] },
    decreases kids.len(),
{
    if kids.len() == 0 {
        assert(v[gp].1 + kids =~= v[gp].1);
    } else {
        let c = kids[0];
        let v1 = if v.contains_key(c) { v.insert(c, (with_parent(v[c].0, gp), v[c].1)) } else { v };
        let v2 = v1.insert(gp, (v1[gp].0, v1[gp].1.push(c)));
        let rest = kids.drop_first();
        assert(!rest.contains(gp)) by {
            if rest.contains(gp) {
                let i = choose|i: int| 0 <= i < rest.len() && rest[i] == gp;
                assert(kids[i + 1] == gp);
            }
        }
        lemma_reparent(v2, rest, gp);
        assert(v2.dom() =~= v.dom());
        assert(v[gp].1.push(c) + rest =~= v[gp].1 + kids);
        assert forall|x: u32| #[trigger] v.contains_key(x) && x != gp implies reparent(v, kids, gp)[x]
            == if kids.contains(x) { (with_parent(v[x].0, gp), v[x].1) } else { v[x] } by {
            assert(kids.contains(x) <==> (x == c || rest.contains(x))) by {
                if kids.contains(x) && x != c {
                    let i = choose|i: int| 0 <= i < kids.len() && kids[i] == x;
                    assert(rest[i - 1] == x);
                }
                if rest.contains(x) {
                    let i = choose|i: int| 0 <= i < rest.len() && rest[i] == x;
                    assert(kids[i + 1] == x);
                }
                assert(kids[0] == c);
            }
        }
    }
}

impl StreamPriorityManager {
    /// Removes stream `stream_id` from the tree; its children move under its parent when the
    /// parent is in the tree. Refused for stream 0 and for an unknown stream.
    pub fn remove_stream(&mut self, stream_id: u32) -> (r: Result<(), String>)
        requires
            old(self).wf(),
        ensures
            final(self).wf(),
            outcome_matches(r, old(self)@, final(self)@, remove_outcome(old(self)@, stream_id)),
            r is Ok ==> final(self).count() == old(self).count() - 1,
            r is Err ==> final(self).count() == old(self).count(),
    {
        proof { self.lemma_view_facts(); }
        let ghost v = self@;
        if stream_id == 0 {
            return Err(String::from_str("Cannot remove stream 0"));
        }
        let ghost nodes0 = self.nodes@;
        let node = match self.nodes.remove(&stream_id) {
            Some(n) => n,
            None => {
                assert(self.nodes@ =~= nodes0);
                let mut msg = String::from_str("Stream ");
                push_decimal(&mut msg, stream_id as u64);
                msg.append(" not found");
                return Err(msg);
            },
        };
        let gp = node.priority.stream_dependency;
        let ghost kids = node.children@;
        assert(kids == v[stream_id].1 && gp == parent_of(v, stream_id));
        assert(self@ =~= v.remove(stream_id));
        let ghost start = self@;
        let ghost nodes1 = self.nodes@;
        match self.nodes.remove(&gp) {
            Some(mut parent) => {
                remove_all(&mut parent.children, stream_id);
                self.nodes.insert(gp, parent);
                let ghost s0 = self@;
                assert(s0 =~= start.insert(gp, (start[gp].0, without(start[gp].1, stream_id))));
                let mut i: usize = 0;
                assert(kids.skip(0) =~= kids);
                while i < node.children.len()
                    invariant
                        i <= node.children@.len(),
                        node.children@ == kids,
                        self.total_streams == old(self).total_streams,
                        self.rank@ == old(self).rank@,
                        self.bound@ == old(self).bound@,
                        forall|k: u32| #[trigger] self.nodes@.contains_key(k) ==> self.nodes@[k].stream_id == k,
                        reparent(self@, kids.skip(i as int), gp) == reparent(s0, kids, gp),
                    decreases node.children@.len() - i,
                {
                    let child_id = node.children[i];
                    let ghost cur = self@;
                    assert(kids.skip(i as int)[0] == child_id);
                    assert(kids.skip(i as int).drop_first() =~= kids.skip(i + 1));
                    match self.nodes.remove(&child_id) {
                        Some(mut child) => {
                            child.priority.stream_dependency = gp;
                            self.nodes.insert(child_id, child);
                        },
                        None => {},
                    }
                    let ghost mid = self@;
                    assert(mid =~= if cur.contains_key(child_id) {
                        cur.insert(child_id, (with_parent(cur[child_id].0, gp), cur[child_id].1))
                    } else {
                        cur
                    });
                    match self.nodes.remove(&gp) {
                        Some(mut p) => {
                            p.children.push(child_id);
                            self.nodes.insert(gp, p);
                        },
                        None => {},
                    }
                    assert(self@ =~= if mid.contains_key(gp) {
                        mid.insert(gp, (mid[gp].0, mid[gp].1.push(child_id)))
                    } else {
                        mid
                    });
                    i += 1;
                }
                assert(kids.skip(i as int) =~= Seq::<u32>::empty());
                assert(self@ == removed(v, stream_id));
            },
            None => {
                assert(self.nodes@ =~= nodes1);
                assert(self@ =~= start);
                assert(self@ == removed(v, stream_id));
            },
        }
        let ghost rest = v.dom().remove(stream_id);
        assert(rest.contains(0));
        assert(rest.len() + 1 == v.dom().len());
        assert(rest.len() > 0) by {
            if rest.len() == 0 {
                assert(rest =~= Set::<u32>::empty());
            }
        }
        assert(self.total_streams + 1 == v.dom().len());
        self.total_streams = self.total_streams - 1;
        proof {
            lemma_remove_keeps_tree(v, self.rank@, self.bound@, stream_id);
            self.rank@ = self.rank@.remove(stream_id);
        }
        Ok(())
    }

}

/// Removing a stream keeps the tree free of cycles and its children lists consistent.
pub proof fn lemma_remove_keeps_tree(v: TreeView, rank: Map<u32, nat>, bound: nat, id: u32)
    requires
        ranked(v, rank, bound),
        children_consistent(v),
        v.contains_key(id),
        id != 0,
    ensures
        removed(v, id).dom() == v.dom().remove(id),
        ranked(removed(v, id), rank.remove(id), bound),
        children_consistent(removed(v, id)),
{
        let w = removed(v, id);
        let gp = parent_of(v, id);
        let kids = v[id].1;
        assert(gp != id) by {
            if v.contains_key(gp) {
                assert(rank[gp] < rank[id]);
            }
        }
        if v.contains_key(gp) {
            let v1 = v.remove(id);
            let s0 = v1.insert(gp, (v1[gp].0, without(v1[gp].1, id)));
            assert(!kids.contains(gp)) by {
                if kids.contains(gp) {
                    assert(parent_of(v, gp) == id);
                    assert(rank[gp] < rank[id]);
                    assert(rank[id] < rank[gp]);
                }
            }
            lemma_reparent(s0, kids, gp);
            assert(w.dom() =~= v.dom().remove(id));
            assert forall|x: u32| #[trigger] w.contains_key(x) && x != gp implies w[x] == if kids.contains(x) {
                (with_parent(v[x].0, gp), v[x].1)
            } else {
                v[x]
            } by {
                assert(s0.contains_key(x));
            }
            assert(ranked(w, rank.remove(id), bound)) by {
                assert forall|k: u32| #[trigger] w.contains_key(k) && k != 0 && w.contains_key(parent_of(w, k))
                    implies rank.remove(id)[parent_of(w, k)] < rank.remove(id)[k] by {
                    if k != gp && kids.contains(k) {
                        assert(v[id].1.contains(k));
                        assert(parent_of(v, k) == id);
                        assert(rank[gp] < rank[id]);
                    }
                }
                assert forall|k: u32| #[trigger] w.contains_key(k) implies rank.remove(id).contains_key(k)
                    && rank.remove(id)[k] < bound by {
                    assert(v.contains_key(k));
                }
            }
            assert(children_consistent(w)) by {
                assert forall|p: u32, c: u32| w.contains_key(p) && #[trigger] w[p].1.contains(c)
                    implies c != 0 && w.contains_key(c) && parent_of(w, c) == p by {
                    if p == gp {
                        assert(w[gp].1 == without(v[gp].1, id) + kids);
                        if without(v[gp].1, id).contains(c) {
                            lemma_without_contains(v[gp].1, id, c);
                            if kids.contains(c) {
                                assert(v[id].1.contains(c));
                            }
                        } else {
                            assert(kids.contains(c)) by {
                                let i = choose|i: int| 0 <= i < w[gp].1.len() && w[gp].1[i] == c;
                                let a = without(v[gp].1, id);
                                if i < a.len() {
                                    assert(a[i] == c);
                                    assert(a.contains(c));
                                } else {
                                    assert(kids[i - a.len()] == c);
                                }
                            }
                            assert(v[id].1.contains(c));
                            assert(c != id) by {
                                if c == id {
                                    assert(rank[id] < rank[id]);
                                }
                            }
                        }
                    } else {
                        assert(v[p].1.contains(c));
                        assert(c != id);
                        if kids.contains(c) {
                            assert(v[id].1.contains(c));
                        }
                    }
                }
            }
        } else {
            assert(w == v.remove(id));
            assert(w.dom() =~= v.dom().remove(id));
            assert(ranked(w, rank.remove(id), bound)) by {
                assert forall|k: u32| #[trigger] w.contains_key(k) implies rank.remove(id).contains_key(k)
                    && rank.remove(id)[k] < bound by {
                    assert(v.contains_key(k));
                }
            }
            assert(children_consistent(w)) by {
                assert forall|p: u32, c: u32| w.contains_key(p) && #[trigger] w[p].1.contains(c)
                    implies c != 0 && w.contains_key(c) && parent_of(w, c) == p by {
                    assert(v[p].1.contains(c));
                }
            }
        }
}

/// The children of the streams of `ids`, stream after stream, each stream's in list order.
pub open spec fn children_of(v: TreeView, ids: Seq<u32>) -> Seq<u32>
    decreases ids.len(),
{
    if ids.len() == 0 {
        Seq::empty()
    } else {
        children_of(v, ids.drop_last()) + if v.contains_key(ids.last()) { v[ids.last()].1 } else { Seq::empty() }
    }
}

/// The streams level by level from the level `ids`: that level, then the next one made of
/// their children, and so on; `fuel` bounds the depth explored.
pub open spec fn levels(v: TreeView, ids: Seq<u32>, fuel: nat) -> Seq<u32>
    decreases fuel,
{
    if fuel == 0 {
        Seq::empty()
    } else {
        ids + levels(v, children_of(v, ids), (fuel - 1) as nat)
    }
}

/// All streams but the connection, breadth first from the connection: shallower streams
/// first, siblings in child order.
pub open spec fn all_streams(v: TreeView, fuel: nat) -> Seq<u32> {
    levels(v, v[0].1, fuel)
}

/// Every stream listed in `children_of(v, ids)` is a child of one of `ids`.
proof fn lemma_children_of_from(v: TreeView, ids: Seq<u32>, j: int)
    requires
        0 <= j < children_of(v, ids).len(),
    ensures
        exists|p: int| 0 <= p < ids.len() && v.contains_key(ids[p]) && v[ids[p]].1.contains(children_of(v, ids)[j]),
    decreases ids.len(),
{
    let t = ids.drop_last();
    let head = children_of(v, t);
    if j < head.len() {
        lemma_children_of_from(v, t, j);
        let p = choose|p: int| 0 <= p < t.len() && v.contains_key(t[p]) && v[t[p]].1.contains(head[j]);
        assert(ids[p] == t[p]);
        assert(children_of(v, ids)[j] == head[j]);
    } else {
        let k = j - head.len();
        let last = ids.last();
        assert(v.contains_key(last));
        assert(children_of(v, ids)[j] == v[last].1[k]);
        assert(v[last].1.contains(v[last].1[k]));
        assert(ids[ids.len() - 1] == last);
    }
}

/// Exploring from no streams finds none.
proof fn lemma_levels_empty(v: TreeView, fuel: nat)
    ensures
        levels(v, Seq::empty(), fuel) == Seq::<u32>::empty(),
    decreases fuel,
{
    if fuel > 0 {
        assert(children_of(v, Seq::<u32>::empty()) == Seq::<u32>::empty());
        lemma_levels_empty(v, (fuel - 1) as nat);
        assert(Seq::<u32>::empty() + Seq::<u32>::empty() =~= Seq::<u32>::empty());
    }
}

impl StreamPriorityManager {
    /// The children of the streams of `ids`, in order (see `children_of`).
    fn next_level(&self, ids: &Vec<u32>) -> (r: Vec<u32>)
        requires
            self.wf(),
        ensures
            r@ == children_of(self@, ids@),
    {
        let mut out: Vec<u32> = Vec::new();
        let mut i: usize = 0;
        while i < ids.len()
            invariant
                i <= ids@.len(),
                out@ == children_of(self@, ids@.take(i as int)),
            decreases ids@.len() - i,
        {
            let id = ids[i];
            assert(ids@.take(i + 1).drop_last() =~= ids@.take(i as int));
            assert(ids@.take(i + 1).last() == id);
            match self.nodes.get(&id) {
                Some(node) => {
                    assert(self@.contains_key(id) && self@[id].1 == node.children@);
                    let mut j: usize = 0;
                    let ghost before = out@;
                    while j < node.children.len()
                        invariant
                            j <= node.children@.len(),
                            out@ == before + node.children@.take(j as int),
                        decreases node.children@.len() - j,
                    {
                        out.push(node.children[j]);
                        assert(node.children@.take(j + 1) =~= node.children@.take(j as int).push(node.children@[j as int]));
                        j += 1;
                    }
                    assert(node.children@.take(j as int) =~= node.children@);
                },
                None => {
                    assert(!self@.contains_key(id));
                    assert(out@ =~= out@ + Seq::<u32>::empty());
                },
            }
            i += 1;
        }
        assert(ids@.take(i as int) =~= ids@);
        out
    }

    /// All streams but the connection, breadth first from the connection (see
    /// `all_streams`).
    pub fn get_all_streams(&self) -> (r: Vec<u32>)
        requires
            self.wf(),
        ensures
            r@ == all_streams(self@, self.depth_bound()),
    {
        let mut out: Vec<u32> = Vec::new();
        let mut frontier: Vec<u32> = match self.nodes.get(&0) {
            Some(root) => root.children.clone(),
            None => Vec::new(),
        };
        assert(frontier@ == self@[0].1);
        let ghost mut fuel: nat = self.bound@;
        assert forall|j: int| 0 <= j < frontier@.len() implies self@.contains_key(#[trigger] frontier@[j])
            && fuel + self.rank@[frontier@[j]] >= self.bound@ by {
            assert(self@[0].1.contains(frontier@[j]));
        }
        while frontier.len() > 0
            invariant
                self.wf(),
                forall|j: int| 0 <= j < frontier@.len() ==> self@.contains_key(#[trigger] frontier@[j])
                    && fuel + self.rank@[frontier@[j]] >= self.bound@,
                out@ + levels(self@, frontier@, fuel) == all_streams(self@, self.depth_bound()),
            decreases fuel,
        {
            let ghost x = frontier@[0];
            assert(self@.contains_key(x) && self.rank@[x] < self.bound@);
            assert(fuel > 0);
            let next = self.next_level(&frontier);
            proof {
                assert forall|j: int| 0 <= j < next@.len() implies self@.contains_key(#[trigger] next@[j])
                    && (fuel - 1) + self.rank@[next@[j]] >= self.bound@ by {
                    lemma_children_of_from(self@, frontier@, j);
                    let p = choose|p: int| 0 <= p < frontier@.len() && self@.contains_key(frontier@[p])
                        && self@[frontier@[p]].1.contains(next@[j]);
                    let c = next@[j];
                    assert(self@[frontier@[p]].1.contains(c));
                    assert(parent_of(self@, c) == frontier@[p]);
                    assert(self@.contains_key(frontier@[p]));
                }
            }
            let ghost before = out@;
            let ghost f = frontier@;
            out.append(&mut frontier);
            assert(out@ == before + f);
            assert(levels(self@, f, fuel) == f + levels(self@, next@, (fuel - 1) as nat));
            assert(before + f + levels(self@, next@, (fuel - 1) as nat) =~= before + (f + levels(self@, next@, (fuel - 1) as nat)));
            frontier = next;
            proof { fuel = (fuel - 1) as nat; }
        }
        proof { lemma_levels_empty(self@, fuel); }
        assert(out@ + Seq::<u32>::empty() =~= out@);
        out
    }

    /// Orders two streams by weight; equal when either is not in the tree.
    pub fn compare_priority(&self, a: u32, b: u32) -> (r: Ordering)
        ensures
            !(self@.contains_key(a) && self@.contains_key(b)) ==> r == Ordering::Equal,
            self@.contains_key(a) && self@.contains_key(b) ==> r == (
                if self@[a].0.weight.0 < self@[b].0.weight.0 {
                    Ordering::Less
                } else if self@[a].0.weight.0 == self@[b].0.weight.0 {
                    Ordering::Equal
                } else {
                    Ordering::Greater
                }),
    {
        match (self.nodes.get(&a), self.nodes.get(&b)) {
            (Some(x), Some(y)) => {
                let wa = x.priority.weight.0;
                let wb = y.priority.weight.0;
                if wa < wb {
                    Ordering::Less
                } else if wa == wb {
                    Ordering::Equal
                } else {
                    Ordering::Greater
                }
            },
            _ => Ordering::Equal,
        }
    }
}

impl Default for StreamPriorityManager {
    fn default() -> (m: Self)
        ensures
            m.wf(),
            m@ == Map::<u32, (StreamPriority, Seq<u32>)>::empty().insert(0, (default_priority(), Seq::<u32>::empty())),
            m.count() == 0,
    {
        Self::new()
    }
}

/// Following dependencies from a stream of the tree never comes back to it: the dependency
/// relation of a well-formed tree has no cycle.
pub proof fn lemma_no_stream_is_own_ancestor(m: &StreamPriorityManager, x: u32, k: nat)
    requires
        m.wf(),
        m@.contains_key(x),
        x != 0,
        k >= 1,
    ensures
        walk(m@, x, k) != Some(x),
{
    lemma_walk_rank(m@, m.rank@, m.bound@, x, k);
}

/// Along a walk of at least one step, a stream of the tree that is reached has a lower rank.
proof fn lemma_walk_rank(v: TreeView, rank: Map<u32, nat>, bound: nat, x: u32, k: nat)
    requires
        ranked(v, rank, bound),
        v.contains_key(x),
        k >= 1,
    ensures
        walk(v, x, k) matches Some(y) ==> (v.contains_key(y) ==> rank[y] < rank[x]),
    decreases k,
{
    if x != 0 {
        let y = parent_of(v, x);
        if k > 1 && v.contains_key(y) {
            lemma_walk_rank(v, rank, bound, y, (k - 1) as nat);
        }
        if k > 1 && !v.contains_key(y) && y != 0 {
            assert(walk(v, y, (k - 1) as nat) is None) by {
                assert(walk(v, y, (k - 1) as nat) == None::<u32>);
            }
        }
        if k > 1 && y == 0 {
            assert(walk(v, y, (k - 1) as nat) == None::<u32>);
        }
    }
}

/// Whether a stream of the tree weighs more than `r`.
pub open spec fn heavier_than(v: TreeView, r: nat) -> spec_fn(u32) -> bool {
    |id: u32| v.contains_key(id) && v[id].0.weight.0 > r
}

/// Rounds 0 to `n - 1` of weighted round-robin over `ids`: round `r` lists, in the order of
/// `ids`, the streams that weigh more than `r`.
pub open spec fn rounds(v: TreeView, ids: Seq<u32>, n: nat) -> Seq<u32>
    decreases n,
{
    if n == 0 {
        Seq::empty()
    } else {
        rounds(v, ids, (n - 1) as nat) + ids.filter(heavier_than(v, (n - 1) as nat))
    }
}

/// Each stream of `ids` that is in the tree as many times as its weight, interleaved round
/// by round: every stream once, then those that weigh more than 1, and so on.
pub open spec fn weighted(v: TreeView, ids: Seq<u32>) -> Seq<u32> {
    rounds(v, ids, 256)
}

/// The position after the first occurrence of `last` in `c`, wrapping around; 0 when
/// `last` does not occur.
pub open spec fn next_index(c: Seq<u32>, last: u32) -> int {
    if exists|i: int| 0 <= i < c.len() && c[i] == last {
        let i = choose|i: int| 0 <= i < c.len() && c[i] == last && forall|j: int| 0 <= j < i ==> c[j] != last;
        (i + 1) % (c.len() as int)
    } else {
        0
    }
}

/// Whether a stream of the tree has weight `w`.
pub open spec fn has_weight(v: TreeView, w: nat) -> spec_fn(u32) -> bool {
    |id: u32| v.contains_key(id) && v[id].0.weight.0 == w
}

/// The streams of `ids` with a weight below `n`, heaviest first, in the order of `ids`
/// among equal weights.
pub open spec fn by_weight(v: TreeView, ids: Seq<u32>, n: nat) -> Seq<u32>
    decreases n,
{
    if n == 0 {
        Seq::empty()
    } else {
        ids.filter(has_weight(v, (n - 1) as nat)) + by_weight(v, ids, (n - 1) as nat)
    }
}

/// A weighted round-robin scheduler over a stream dependency tree.
pub struct StreamScheduler {
    manager: StreamPriorityManager,
    last_scheduled: u32,
}

impl StreamScheduler {
    /// The scheduler's invariant: that of its tree.
    pub closed spec fn wf(&self) -> bool {
        self.manager.wf()
    }

    /// The dependency tree.
    pub closed spec fn tree(&self) -> TreeView {
        self.manager@
    }

    /// The depth bound of the dependency tree.
    pub closed spec fn depth_bound(&self) -> nat {
        self.manager.depth_bound()
    }

    /// The number of streams other than the connection.
    pub closed spec fn count(&self) -> u64 {
        self.manager.count()
    }

    /// The stream scheduled last (0 before any).
    pub closed spec fn last(&self) -> u32 {
        self.last_scheduled
    }

    /// A scheduler with no streams.
    pub fn new() -> (s: Self)
        ensures
            s.wf(),
            s.tree() == Map::<u32, (StreamPriority, Seq<u32>)>::empty().insert(0, (default_priority(), Seq::<u32>::empty())),
            s.count() == 0,
            s.last() == 0,
    {
        StreamScheduler { manager: StreamPriorityManager::new(), last_scheduled: 0 }
    }

    /// Adds a stream to the tree (see `StreamPriorityManager::add_stream`).
    pub fn add_stream(&mut self, stream_id: u32, priority: StreamPriority) -> (r: Result<(), String>)
        requires
            old(self).wf(),
        ensures
            final(self).wf(),
            outcome_matches(r, old(self).tree(), final(self).tree(), add_outcome(old(self).tree(), stream_id, priority)),
            r is Ok ==> final(self).count() == old(self).count() + 1,
            r is Err ==> final(self).count() == old(self).count(),
            final(self).last() == old(self).last(),
    {
        self.manager.add_stream(stream_id, priority)
    }

    /// Removes a stream from the tree (see `StreamPriorityManager::remove_stream`).
    pub fn remove_stream(&mut self, stream_id: u32) -> (r: Result<(), String>)
        requires
            old(self).wf(),
        ensures
            final(self).wf(),
            outcome_matches(r, old(self).tree(), final(self).tree(), remove_outcome(old(self).tree(), stream_id)),
            r is Ok ==> final(self).count() == old(self).count() - 1,
            r is Err ==> final(self).count() == old(self).count(),
            final(self).last() == old(self).last(),
    {
        self.manager.remove_stream(stream_id)
    }

    /// Gives a stream a new priority (see `StreamPriorityManager::reprioritize`).
    pub fn reprioritize(&mut self, stream_id: u32, priority: StreamPriority) -> (r: Result<(), String>)
        requires
            old(self).wf(),
        ensures
            final(self).wf(),
            outcome_matches(r, old(self).tree(), final(self).tree(), reprioritize_outcome(old(self).tree(), stream_id, priority)),
            final(self).count() == old(self).count(),
            final(self).last() == old(self).last(),
    {
        self.manager.reprioritize(stream_id, priority)
    }

    /// The next stream to serve: streams are listed breadth first, each as many times as
    /// its weight in weighted round-robin rounds (see `weighted`), and the entry after the
    /// first occurrence of the last one served is chosen.
    pub fn next_stream(&mut self) -> (r: Option<u32>)
        requires
            old(self).wf(),
        ensures
            final(self).wf(),
            final(self).tree() == old(self).tree(),
            final(self).count() == old(self).count(),
            final(self).depth_bound() == old(self).depth_bound(),
            ({
                let c = weighted(old(self).tree(), all_streams(old(self).tree(), old(self).depth_bound()));
                if c.len() == 0 {
                    r is None && final(self).last() == old(self).last()
                } else {
                    r == Some(c[next_index(c, old(self).last())]) && final(self).last() == c[next_index(c, old(self).last())]
                }
            }),
    {
        let all_streams = self.manager.get_all_streams();
        let ghost v = self.manager@;
        let candidates = self.manager.weighted_candidates(&all_streams);
        if candidates.len() == 0 {
            return None;
        }
        let start = next_position(&candidates, self.last_scheduled);
        let stream_id = candidates[start];
        self.last_scheduled = stream_id;
        Some(stream_id)
    }

    /// All streams, heaviest first; streams of equal weight keep their breadth-first order.
    pub fn get_schedule_order(&self) -> (r: Vec<u32>)
        requires
            self.wf(),
        ensures
            r@ == by_weight(self.tree(), all_streams(self.tree(), self.depth_bound()), 256),
    {
        let all_streams = self.manager.get_all_streams();
        let ghost v = self.manager@;
        let ghost ids = all_streams@;
        let mut out: Vec<u32> = Vec::new();
        let mut n: u16 = 256;
        while n > 0
            invariant
                n <= 256,
                self.manager@ == v,
                all_streams@ == ids,
                out@ + by_weight(v, ids, n as nat) == by_weight(v, ids, 256),
            decreases n,
        {
            let w = (n - 1) as u8;
            let ghost start = out@;
            let mut j: usize = 0;
            while j < all_streams.len()
                invariant
                    j <= ids.len(),
                    w == n - 1,
                    self.manager@ == v,
                    all_streams@ == ids,
                    out@ == start + ids.take(j as int).filter(has_weight(v, w as nat)),
                decreases ids.len() - j,
            {
                let id = all_streams[j];
                assert(ids.take(j + 1) =~= ids.take(j as int).push(id));
                proof { ids.take(j as int).lemma_filter_push(id, has_weight(v, w as nat)); }
                match self.manager.get_priority(id) {
                    Some(p) => {
                        if p.weight.as_u8() == w {
                            out.push(id);
                        }
                    },
                    None => {},
                }
                j += 1;
            }
            assert(ids.take(j as int) =~= ids);
            assert(by_weight(v, ids, n as nat) == ids.filter(has_weight(v, w as nat)) + by_weight(v, ids, (n - 1) as nat));
            assert(out@ + by_weight(v, ids, (n - 1) as nat) =~= start + by_weight(v, ids, n as nat));
            n -= 1;
        }
        assert(out@ + Seq::<u32>::empty() =~= out@);
        out
    }

    /// The number of streams, the connection aside.
    pub fn stream_count(&self) -> (r: usize)
        ensures
            r == self.count() as usize,
    {
        self.manager.stream_count()
    }

    /// The priority of a stream, if it is in the tree.
    pub fn get_priority(&self, stream_id: u32) -> (r: Option<StreamPriority>)
        ensures
            r == if self.tree().contains_key(stream_id) { Some(self.tree()[stream_id].0) } else { None::<StreamPriority> },
    {
        self.manager.get_priority(stream_id)
    }

    /// Whether a stream is in the tree.
    pub fn has_stream(&self, stream_id: u32) -> (r: bool)
        ensures
            r == self.tree().contains_key(stream_id),
    {
        self.manager.get_priority(stream_id).is_some()
    }
}

impl Default for StreamScheduler {
    fn default() -> (s: Self)
        ensures
            s.wf(),
            s.count() == 0,
            s.last() == 0,
    {
        Self::new()
    }
}

impl StreamPriorityManager {
    /// Each stream of `ids` that is in the tree, repeated as many times as its weight.
    fn weighted_candidates(&self, ids: &Vec<u32>) -> (c: Vec<u32>)
        ensures
            c@ == weighted(self@, ids@),
    {
        let ghost v = self@;
        let mut candidates: Vec<u32> = Vec::new();
        let mut r: u32 = 0;
        assert(candidates@ =~= rounds(v, ids@, 0));
        while r < 256
            invariant
                self@ == v,
                r <= 256,
                candidates@ == rounds(v, ids@, r as nat),
            decreases 256 - r,
        {
            let ghost before = candidates@;
            let ghost pred = heavier_than(v, r as nat);
            let mut i: usize = 0;
            assert(ids@.take(0).filter(pred) =~= Seq::<u32>::empty()) by { reveal(Seq::filter); }
            assert(before + ids@.take(0).filter(pred) =~= before);
            while i < ids.len()
                invariant
                    self@ == v,
                    i <= ids@.len(),
                    pred == heavier_than(v, r as nat),
                    candidates@ == before + ids@.take(i as int).filter(pred),
                decreases ids@.len() - i,
            {
                let id = ids[i];
                assert(ids@.take(i + 1) =~= ids@.take(i as int).push(id));
                proof { ids@.take(i as int).lemma_filter_push(id, pred); }
                match self.get_priority(id) {
                    Some(priority) => {
                        if (priority.weight.as_u8() as u32) > r {
                            candidates.push(id);
                        }
                    },
                    None => {},
                }
                i += 1;
            }
            assert(ids@.take(i as int) =~= ids@);
            r += 1;
        }
        candidates
    }
}

/// The position after the first occurrence of `last` in `c`, wrapping around; 0 when it
/// does not occur.
fn next_position(c: &Vec<u32>, last: u32) -> (r: usize)
    requires
        c@.len() > 0,
    ensures
        r == next_index(c@, last),
        r < c@.len(),
{
    let mut pos: usize = 0;
    while pos < c.len() && c[pos] != last
        invariant
            pos <= c@.len(),
            forall|j: int| 0 <= j < pos ==> c@[j] != last,
        decreases c@.len() - pos,
    {
        pos += 1;
    }
    let start = if pos < c.len() { (pos + 1) % c.len() } else { 0 };
    proof {
        if pos < c@.len() {
            assert(c@[pos as int] == last);
            let i = choose|i: int| 0 <= i < c@.len() && c@[i] == last
                && forall|j: int| 0 <= j < i ==> c@[j] != last;
            assert(i == pos) by {
                if i < pos {
                    assert(c@[i] != last);
                }
                if pos < i {
                    assert(c@[pos as int] != last);
                }
            }
        }
    }
    start
}

} // verus!
