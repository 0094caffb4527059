use vstd::prelude::*;
use crate::text::{decimal, push_decimal, str_eq, eq_ascii_lowercase, ascii_lower, parse_u64, parse_u64_spec};

verus! {

/// Lifecycle of a pushed stream.
#[derive(Debug, Clone, Copy, PartialEq, Eq, Structural)]
pub enum PushState {
    Promised,
    HeadersReceived,
    ReceivingData,
    Completed,
    Rejected,
}

/// The `Debug` rendering of a push state.
pub open spec fn push_state_debug(s: PushState) -> Seq<char> {
    match s {
        PushState::Promised => "Promised"@,
        PushState::HeadersReceived => "HeadersReceived"@,
        PushState::ReceivingData => "ReceivingData"@,
        PushState::Completed => "Completed"@,
        PushState::Rejected => "Rejected"@,
    }
}

fn push_state_debug_str(s: PushState) -> (r: &'static str)
    ensures
        r@ == push_state_debug(s),
{
    match s {
        PushState::Promised => "Promised",
        PushState::HeadersReceived => "HeadersReceived",
        PushState::ReceivingData => "ReceivingData",
        PushState::Completed => "Completed",
        PushState::Rejected => "Rejected",
    }
}

/// Whether a header name is `content-length`, ignoring case.
pub open spec fn is_content_length_name(name: Seq<char>) -> bool {
    name.map_values(|c: char| ascii_lower(c)) == "content-length"@
}

/// The content length that a header list declares, starting from `init`: the last
/// `content-length` header whose value parses as a `u64` wins.
pub open spec fn declared_length(hs: Seq<(String, String)>, init: Option<u64>) -> Option<u64>
    decreases hs.len(),
{
    if hs.len() == 0 {
        init
    } else {
        let prev = declared_length(hs.drop_last(), init);
        let (n, v) = hs.last();
        if is_content_length_name(n@) && parse_u64_spec(v@) is Some { parse_u64_spec(v@) } else { prev }
    }
}

/// The value of the first header named `name`, if any.
pub open spec fn first_value(hs: Seq<(String, String)>, name: Seq<char>) -> Option<Seq<char>>
    decreases hs.len(),
{
    if hs.len() == 0 {
        None
    } else if hs[0].0@ == name {
        Some(hs[0].1@)
    } else {
        first_value(hs.drop_first(), name)
    }
}

/// A server-pushed stream and what has arrived on it.
#[derive(Debug, Clone)]
pub struct ServerPush {
    pub promised_stream_id: u32,
    pub parent_stream_id: u32,
    pub state: PushState,
    pub headers: Vec<(String, String)>,
    pub body: Vec<u8>,
    pub total_size: Option<u64>,
}

fn first_header_value(headers: &Vec<(String, String)>, name: &str) -> (r: Option<String>)
    ensures
        match first_value(headers@, name@) {
            Some(v) => r matches Some(s) && s@ == v,
            None => r is None,
        },
{
    let mut i: usize = 0;
    assert(headers@.skip(0) =~= headers@);
    while i < headers.len()
        invariant
            i <= headers@.len(),
            first_value(headers@, name@) == first_value(headers@.skip(i as int), name@),
        decreases headers@.len() - i,
    {
        assert(headers@.skip(i as int).drop_first() =~= headers@.skip(i + 1));
        if str_eq(headers[i].0.as_str(), name) {
            return Some(headers[i].1.clone());
        }
        i = i + 1;
    }
    None
}

impl ServerPush {
    /// A push promised on `parent_stream_id`, with nothing received yet.
    pub fn new(promised_stream_id: u32, parent_stream_id: u32) -> (p: Self)
        ensures
            p.promised_stream_id == promised_stream_id,
            p.parent_stream_id == parent_stream_id,
            p.state == PushState::Promised,
            p.headers@.len() == 0,
            p.body@.len() == 0,
            p.total_size is None,
    {
        ServerPush {
            promised_stream_id,
            parent_stream_id,
            state: PushState::Promised,
            headers: Vec::new(),
            body: Vec::new(),
            total_size: None,
        }
    }

    /// Stores the pushed headers and takes the declared content length from them.
    pub fn add_headers(&mut self, headers: Vec<(String, String)>)
        ensures
            final(self).headers@ == headers@,
            final(self).state == PushState::HeadersReceived,
            final(self).total_size == declared_length(headers@, old(self).total_size),
            final(self).body@ == old(self).body@,
            final(self).promised_stream_id == old(self).promised_stream_id,
            final(self).parent_stream_id == old(self).parent_stream_id,
    {
        let mut total = self.total_size;
        let ghost init = self.total_size;
        let mut i: usize = 0;
        while i < headers.len()
            invariant
                i <= headers@.len(),
                total == declared_length(headers@.take(i as int), init),
            decreases headers@.len() - i,
        {
            let ghost pre = headers@.take(i as int);
            assert(headers@.take(i + 1).drop_last() =~= pre);
            if eq_ascii_lowercase(headers[i].0.as_str(), "content-length") {
                match parse_u64(headers[i].1.as_str()) {
                    Some(size) => {
                        total = Some(size);
                    },
                    None => {},
                }
            }
            i = i + 1;
        }
        assert(headers@.take(i as int) =~= headers@);
        self.headers = headers;
        self.state = PushState::HeadersReceived;
        self.total_size = total;
    }

    /// Appends body data; refused unless headers have arrived. Reaching the declared
    /// length completes the push.
    pub fn add_body_data(&mut self, data: &[u8]) -> (r: Result<(), String>)
        ensures
            (old(self).state != PushState::HeadersReceived && old(self).state != PushState::ReceivingData)
                ==> r is Err && *final(self) == *old(self)
                    && r->Err_0@ == "Cannot add body data in state "@ + push_state_debug(old(self).state),
            (old(self).state == PushState::HeadersReceived || old(self).state == PushState::ReceivingData)
                ==> {
                &&& r is Ok
                &&& final(self).body@ == old(self).body@ + data@
                &&& final(self).state == (match old(self).total_size {
                    Some(expected) => if final(self).body@.len() >= expected {
                        PushState::Completed
                    } else {
                        PushState::ReceivingData
                    },
                    None => PushState::ReceivingData,
                })
                &&& final(self).headers == old(self).headers
                &&& final(self).total_size == old(self).total_size
                &&& final(self).promised_stream_id == old(self).promised_stream_id
                &&& final(self).parent_stream_id == old(self).parent_stream_id
            },
    {
        if self.state != PushState::HeadersReceived && self.state != PushState::ReceivingData {
            let mut msg = String::from_str("Cannot add body data in state ");
            msg.append(push_state_debug_str(self.state));
            return Err(msg);
        }
        self.body.extend_from_slice(data);
        assert(self.body@ =~= old(self).body@ + data@);
        self.state = PushState::ReceivingData;
        match self.total_size {
            Some(expected) => {
                if self.body.len() as u64 >= expected {
                    self.state = PushState::Completed;
                }
            },
            None => {},
        }
        Ok(())
    }

    /// Marks the push completed.
    pub fn mark_completed(&mut self)
        ensures
            *final(self) == (ServerPush { state: PushState::Completed, ..*old(self) }),
    {
        self.state = PushState::Completed;
    }

    /// Marks the push rejected.
    pub fn mark_rejected(&mut self)
        ensures
            *final(self) == (ServerPush { state: PushState::Rejected, ..*old(self) }),
    {
        self.state = PushState::Rejected;
    }

    /// Whether the push is completed.
    pub fn is_complete(&self) -> (r: bool)
        ensures
            r == (self.state == PushState::Completed),
    {
        self.state == PushState::Completed
    }

    /// The value of the first `:method` header.
    pub fn get_promised_method(&self) -> (r: Option<String>)
        ensures
            match first_value(self.headers@, ":method"@) {
                Some(v) => r matches Some(s) && s@ == v,
                None => r is None,
            },
    {
        first_header_value(&self.headers, ":method")
    }

    /// The value of the first `:path` header.
    pub fn get_promised_path(&self) -> (r: Option<String>)
        ensures
            match first_value(self.headers@, ":path"@) {
                Some(v) => r matches Some(s) && s@ == v,
                None => r is None,
            },
    {
        first_header_value(&self.headers, ":path")
    }
}

/// Whether some push in `s` has promised stream `id`.
pub open spec fn has_promised(s: Seq<ServerPush>, id: u32) -> bool {
    exists|i: int| 0 <= i < s.len() && s[i].promised_stream_id == id
}

/// No two pushes in `s` share a promised stream id.
pub open spec fn distinct_promised(s: Seq<ServerPush>) -> bool {
    forall|i: int, j: int| 0 <= i < s.len() && 0 <= j < s.len() && i != j
        ==> s[i].promised_stream_id != s[j].promised_stream_id
}

/// Counters kept over the pushes.
#[derive(Debug, Clone, PartialEq)]
pub struct ServerPushStats {
    pub total_pushes: u64,
    pub completed_pushes: u64,
    pub rejected_pushes: u64,
    pub active_pushes: usize,
}

/// Tracks server pushes, one per promised stream.
pub struct ServerPushManager {
    pushes: Vec<ServerPush>,
    total_pushes: u64,
    completed_pushes: u64,
    rejected_pushes: u64,
}

impl View for ServerPushManager {
    type V = Seq<ServerPush>;

    closed spec fn view(&self) -> Seq<ServerPush> {
        self.pushes@
    }
}

/// The message for an unknown promised stream.
pub open spec fn not_found_message(id: u32) -> Seq<char> {
    "Promised stream "@ + decimal(id as nat) + " not found"@
}

fn not_found(id: u32) -> (s: String)
    ensures
        s@ == not_found_message(id),
{
    let mut msg = String::from_str("Promised stream ");
    push_decimal(&mut msg, id as u64);
    msg.append(" not found");
    msg
}

impl ServerPushManager {
    /// The manager's invariant: one push per promised stream.
    pub closed spec fn wf(&self) -> bool {
        distinct_promised(self.pushes@)
    }

    /// The number of pushes ever registered.
    pub closed spec fn total(&self) -> u64 {
        self.total_pushes
    }

    /// The number of completions recorded.
    pub closed spec fn completed(&self) -> u64 {
        self.completed_pushes
    }

    /// The number of rejections recorded.
    pub closed spec fn rejected(&self) -> u64 {
        self.rejected_pushes
    }

    /// An empty manager.
    pub fn new() -> (m: Self)
        ensures
            m.wf(),
            m@.len() == 0,
            m.total() == 0 && m.completed() == 0 && m.rejected() == 0,
    {
        ServerPushManager { pushes: Vec::new(), total_pushes: 0, completed_pushes: 0, rejected_pushes: 0 }
    }

    fn find(&self, id: u32) -> (r: Option<usize>)
        ensures
            match r {
                Some(i) => i < self.pushes@.len() && self.pushes@[i as int].promised_stream_id == id,
                None => !has_promised(self.pushes@, id),
            },
    {
        let mut i: usize = 0;
        while i < self.pushes.len()
            invariant
                i <= self.pushes@.len(),
                forall|j: int| 0 <= j < i ==> self.pushes@[j].promised_stream_id != id,
            decreases self.pushes@.len() - i,
        {
            if self.pushes[i].promised_stream_id == id {
                return Some(i);
            }
            i = i + 1;
        }
        None
    }

    /// Registers a push promised on `parent_stream_id`. The promised id must be new, greater
    /// than the parent's and even (server-initiated).
    pub fn register_push(&mut self, promised_stream_id: u32, parent_stream_id: u32) -> (r: Result<(), String>)
        requires
            old(self).wf(),
            old(self).total() < u64::MAX,
        ensures
            final(self).wf(),
            final(self).completed() == old(self).completed(),
            final(self).rejected() == old(self).rejected(),
            has_promised(old(self)@, promised_stream_id) ==> r is Err && final(self)@ == old(self)@
                && final(self).total() == old(self).total()
                && r->Err_0@ == "Promised stream "@ + decimal(promised_stream_id as nat) + " already exists"@,
            !has_promised(old(self)@, promised_stream_id) && promised_stream_id <= parent_stream_id
                ==> r is Err && final(self)@ == old(self)@ && final(self).total() == old(self).total()
                && r->Err_0@ == "Invalid promised stream ID: "@ + decimal(promised_stream_id as nat)
                    + " (must be > parent "@ + decimal(parent_stream_id as nat) + ")"@,
            !has_promised(old(self)@, promised_stream_id) && promised_stream_id > parent_stream_id
                && promised_stream_id % 2 != 0 ==> r is Err && final(self)@ == old(self)@
                && final(self).total() == old(self).total()
                && r->Err_0@ == "Promised stream ID must be even (server-initiated), got "@
                    + decimal(promised_stream_id as nat),
            !has_promised(old(self)@, promised_stream_id) && promised_stream_id > parent_stream_id
                && promised_stream_id % 2 == 0 ==> r is Ok
                && final(self)@ == old(self)@.push(ServerPush {
                    promised_stream_id,
                    parent_stream_id,
                    state: PushState::Promised,
                    headers: final(self)@.last().headers,
                    body: final(self)@.last().body,
                    total_size: None,
                })
                && final(self)@.last().headers@.len() == 0 && final(self)@.last().body@.len() == 0
                && final(self).total() == old(self).total() + 1,
    {
        if self.find(promised_stream_id).is_some() {
            let mut msg = String::from_str("Promised stream ");
            push_decimal(&mut msg, promised_stream_id as u64);
            msg.append(" already exists");
            return Err(msg);
        }
        if promised_stream_id <= parent_stream_id {
            let mut msg = String::from_str("Invalid promised stream ID: ");
            push_decimal(&mut msg, promised_stream_id as u64);
            msg.append(" (must be > parent ");
            push_decimal(&mut msg, parent_stream_id as u64);
            msg.append(")");
            return Err(msg);
        }
        if promised_stream_id % 2 != 0 {
            let mut msg = String::from_str("Promised stream ID must be even (server-initiated), got ");
            push_decimal(&mut msg, promised_stream_id as u64);
            return Err(msg);
        }
        let push = ServerPush::new(promised_stream_id, parent_stream_id);
        let ghost prev = self.pushes@;
        self.pushes.push(push);
        self.total_pushes = self.total_pushes + 1;
        assert(distinct_promised(self.pushes@)) by {
            assert forall|i: int, j: int|
                0 <= i < self.pushes@.len() && 0 <= j < self.pushes@.len() && i != j
                implies self.pushes@[i].promised_stream_id != self.pushes@[j].promised_stream_id by {
                if i < prev.len() && j < prev.len() {
                } else if i == prev.len() {
                    assert(prev[j].promised_stream_id == self.pushes@[j].promised_stream_id);
                } else {
                    assert(prev[i].promised_stream_id == self.pushes@[i].promised_stream_id);
                }
            }
        }
        Ok(())
    }

    /// Stores headers on the push for `promised_stream_id`.
    pub fn add_headers_to_push(&mut self, promised_stream_id: u32, headers: Vec<(String, String)>) -> (r: Result<(), String>)
        requires
            old(self).wf(),
        ensures
            final(self).wf(),
            final(self).total() == old(self).total(),
            final(self).completed() == old(self).completed(),
            final(self).rejected() == old(self).rejected(),
            !has_promised(old(self)@, promised_stream_id) ==> r is Err && final(self)@ == old(self)@
                && r->Err_0@ == not_found_message(promised_stream_id),
            has_promised(old(self)@, promised_stream_id) ==> r is Ok && exists|i: int|
                0 <= i < old(self)@.len() && old(self)@[i].promised_stream_id == promised_stream_id
                && final(self)@ == old(self)@.update(i, final(self)@[i])
                && final(self)@[i].headers@ == headers@
                && final(self)@[i].state == PushState::HeadersReceived
                && final(self)@[i].total_size == declared_length(headers@, old(self)@[i].total_size)
                && final(self)@[i].body@ == old(self)@[i].body@
                && final(self)@[i].promised_stream_id == promised_stream_id
                && final(self)@[i].parent_stream_id == old(self)@[i].parent_stream_id,
    {
        match self.find(promised_stream_id) {
            Some(i) => {
                let mut push = self.pushes.remove(i);
                push.add_headers(headers);
                self.pushes.insert(i, push);
                assert(self.pushes@ =~= old(self).pushes@.update(i as int, self.pushes@[i as int]));
                proof { lemma_update_keeps_distinct(old(self).pushes@, i as int, self.pushes@[i as int]); }
                Ok(())
            },
            None => Err(not_found(promised_stream_id)),
        }
    }

    /// Appends body data to the push for `promised_stream_id`.
    pub fn add_body_data(&mut self, promised_stream_id: u32, data: &[u8]) -> (r: Result<(), String>)
        requires
            old(self).wf(),
        ensures
            final(self).wf(),
            final(self).total() == old(self).total(),
            final(self).completed() == old(self).completed(),
            final(self).rejected() == old(self).rejected(),
            !has_promised(old(self)@, promised_stream_id) ==> r is Err && final(self)@ == old(self)@
                && r->Err_0@ == not_found_message(promised_stream_id),
            has_promised(old(self)@, promised_stream_id) ==> exists|i: int|
                0 <= i < old(self)@.len() && old(self)@[i].promised_stream_id == promised_stream_id
                && final(self)@ == old(self)@.update(i, final(self)@[i])
                && (r is Ok <==> (old(self)@[i].state == PushState::HeadersReceived
                    || old(self)@[i].state == PushState::ReceivingData))
                && (r is Ok ==> final(self)@[i].body@ == old(self)@[i].body@ + data@)
                && (r is Err ==> final(self)@[i] == old(self)@[i]),
    {
        match self.find(promised_stream_id) {
            Some(i) => {
                let mut push = self.pushes.remove(i);
                let r = push.add_body_data(data);
                self.pushes.insert(i, push);
                assert(self.pushes@ =~= old(self).pushes@.update(i as int, self.pushes@[i as int]));
                proof { lemma_update_keeps_distinct(old(self).pushes@, i as int, self.pushes@[i as int]); }
                r
            },
            None => Err(not_found(promised_stream_id)),
        }
    }

    /// Marks the push for `promised_stream_id` completed and counts the completion.
    pub fn mark_push_completed(&mut self, promised_stream_id: u32) -> (r: Result<(), String>)
        requires
            old(self).wf(),
            old(self).completed() < u64::MAX,
        ensures
            final(self).wf(),
            final(self).total() == old(self).total(),
            final(self).rejected() == old(self).rejected(),
            !has_promised(old(self)@, promised_stream_id) ==> r is Err && final(self)@ == old(self)@
                && final(self).completed() == old(self).completed()
                && r->Err_0@ == not_found_message(promised_stream_id),
            has_promised(old(self)@, promised_stream_id) ==> r is Ok
                && final(self).completed() == old(self).completed() + 1
                && exists|i: int| 0 <= i < old(self)@.len()
                    && old(self)@[i].promised_stream_id == promised_stream_id
                    && final(self)@ == old(self)@.update(i, ServerPush { state: PushState::Completed, ..old(self)@[i] }),
    {
        match self.find(promised_stream_id) {
            Some(i) => {
                let mut push = self.pushes.remove(i);
                push.mark_completed();
                self.pushes.insert(i, push);
                assert(self.pushes@ =~= old(self).pushes@.update(i as int, self.pushes@[i as int]));
                proof { lemma_update_keeps_distinct(old(self).pushes@, i as int, self.pushes@[i as int]); }
                self.completed_pushes = self.completed_pushes + 1;
                Ok(())
            },
            None => Err(not_found(promised_stream_id)),
        }
    }

    /// Marks the push for `promised_stream_id` rejected and counts the rejection.
    pub fn mark_push_rejected(&mut self, promised_stream_id: u32) -> (r: Result<(), String>)
        requires
            old(self).wf(),
            old(self).rejected() < u64::MAX,
        ensures
            final(self).wf(),
            final(self).total() == old(self).total(),
            final(self).completed() == old(self).completed(),
            !has_promised(old(self)@, promised_stream_id) ==> r is Err && final(self)@ == old(self)@
                && final(self).rejected() == old(self).rejected()
                && r->Err_0@ == not_found_message(promised_stream_id),
            has_promised(old(self)@, promised_stream_id) ==> r is Ok
                && final(self).rejected() == old(self).rejected() + 1
                && exists|i: int| 0 <= i < old(self)@.len()
                    && old(self)@[i].promised_stream_id == promised_stream_id
                    && final(self)@ == old(self)@.update(i, ServerPush { state: PushState::Rejected, ..old(self)@[i] }),
    {
        match self.find(promised_stream_id) {
            Some(i) => {
                let mut push = self.pushes.remove(i);
                push.mark_rejected();
                self.pushes.insert(i, push);
                assert(self.pushes@ =~= old(self).pushes@.update(i as int, self.pushes@[i as int]));
                proof { lemma_update_keeps_distinct(old(self).pushes@, i as int, self.pushes@[i as int]); }
                self.rejected_pushes = self.rejected_pushes + 1;
                Ok(())
            },
            None => Err(not_found(promised_stream_id)),
        }
    }

    /// The push for `promised_stream_id`, if any.
    pub fn get_push(&self, promised_stream_id: u32) -> (r: Option<&ServerPush>)
        ensures
            match r {
                Some(p) => self@.contains(*p) && p.promised_stream_id == promised_stream_id,
                None => !has_promised(self@, promised_stream_id),
            },
    {
        match self.find(promised_stream_id) {
            Some(i) => Some(&self.pushes[i]),
            None => None,
        }
    }

    /// Mutable access to the push for `promised_stream_id`, if any: what is written through
    /// it replaces that push, and nothing else of the manager changes.
    pub fn get_push_mut(&mut self, promised_stream_id: u32) -> (r: Option<&mut ServerPush>)
        requires
            old(self).wf(),
        ensures
            !has_promised(old(self)@, promised_stream_id) ==> r is None && final(self)@ == old(self)@,
            has_promised(old(self)@, promised_stream_id) ==> r is Some && exists|i: int| {
                &&& 0 <= i < old(self)@.len()
                &&& old(self)@[i].promised_stream_id == promised_stream_id
                &&& *r.unwrap() == old(self)@[i]
                &&& final(self)@ == old(self)@.update(i, *final(r.unwrap()))
            },
            final(self).total() == old(self).total(),
            final(self).completed() == old(self).completed(),
            final(self).rejected() == old(self).rejected(),
    {
        match self.find(promised_stream_id) {
            Some(i) => Some(&mut self.pushes[i]),
            None => None,
        }
    }

    /// All pushes, in registration order.
    pub fn get_all_pushes(&self) -> (r: Vec<&ServerPush>)
        ensures
            r@.len() == self@.len(),
            forall|i: int| 0 <= i < r@.len() ==> *r@[i] == self@[i],
    {
        let mut out: Vec<&ServerPush> = Vec::new();
        let mut i: usize = 0;
        while i < self.pushes.len()
            invariant
                i <= self.pushes@.len(),
                out@.len() == i,
                forall|j: int| 0 <= j < i ==> *out@[j] == self.pushes@[j],
            decreases self.pushes@.len() - i,
        {
            out.push(&self.pushes[i]);
            i = i + 1;
        }
        out
    }

    /// The counters; the active count is registrations minus completions and rejections.
    pub fn get_stats(&self) -> (st: ServerPushStats)
        requires
            self.completed() + self.rejected() <= self.total(),
        ensures
            st.total_pushes == self.total(),
            st.completed_pushes == self.completed(),
            st.rejected_pushes == self.rejected(),
            st.active_pushes == (self.total() - self.completed() - self.rejected()) as usize,
    {
        ServerPushStats {
            total_pushes: self.total_pushes,
            completed_pushes: self.completed_pushes,
            rejected_pushes: self.rejected_pushes,
            active_pushes: (self.total_pushes - self.completed_pushes - self.rejected_pushes) as usize,
        }
    }

    /// Whether a push is registered for `promised_stream_id`.
    pub fn has_push(&self, promised_stream_id: u32) -> (r: bool)
        ensures
            r == has_promised(self@, promised_stream_id),
    {
        self.find(promised_stream_id).is_some()
    }

    /// The number of pushes held.
    pub fn active_push_count(&self) -> (n: usize)
        ensures
            n == self@.len(),
    {
        self.pushes.len()
    }

    /// Forgets all pushes; the counters are kept.
    pub fn clear_all(&mut self)
        ensures
            final(self).wf(),
            final(self)@.len() == 0,
            final(self).total() == old(self).total(),
            final(self).completed() == old(self).completed(),
            final(self).rejected() == old(self).rejected(),
    {
        self.pushes.clear();
    }

    /// Removes and returns the push for `promised_stream_id`, if any.
    pub fn remove_push(&mut self, promised_stream_id: u32) -> (r: Option<ServerPush>)
        requires
            old(self).wf(),
        ensures
            final(self).wf(),
            final(self).total() == old(self).total(),
            final(self).completed() == old(self).completed(),
            final(self).rejected() == old(self).rejected(),
            !has_promised(old(self)@, promised_stream_id) ==> r is None && final(self)@ == old(self)@,
            has_promised(old(self)@, promised_stream_id) ==> exists|i: int| 0 <= i < old(self)@.len()
                && old(self)@[i].promised_stream_id == promised_stream_id
                && r == Some(old(self)@[i]) && final(self)@ == old(self)@.remove(i),
            !has_promised(final(self)@, promised_stream_id),
    {
        match self.find(promised_stream_id) {
            Some(i) => {
                let p = self.pushes.remove(i);
                proof {
                    let o = old(self).pushes@;
                    assert forall|a: int, b: int|
                        0 <= a < self.pushes@.len() && 0 <= b < self.pushes@.len() && a != b
                        implies self.pushes@[a].promised_stream_id != self.pushes@[b].promised_stream_id by {
                        let oa = if a < i { a } else { a + 1 };
                        let ob = if b < i { b } else { b + 1 };
                        assert(self.pushes@[a] == o[oa]);
                        assert(self.pushes@[b] == o[ob]);
                    }
                    assert forall|a: int| 0 <= a < self.pushes@.len()
                        implies self.pushes@[a].promised_stream_id != promised_stream_id by {
                        let oa = if a < i { a } else { a + 1 };
                        assert(self.pushes@[a] == o[oa]);
                    }
                }
                Some(p)
            },
            None => None,
        }
    }
}

/// Replacing one push by one with the same promised id keeps promised ids distinct.
proof fn lemma_update_keeps_distinct(s: Seq<ServerPush>, i: int, p: ServerPush)
    requires
        distinct_promised(s),
        0 <= i < s.len(),
        p.promised_stream_id == s[i].promised_stream_id,
    ensures
        distinct_promised(s.update(i, p)),
{
    let t = s.update(i, p);
    assert forall|a: int, b: int| 0 <= a < t.len() && 0 <= b < t.len() && a != b
        implies t[a].promised_stream_id != t[b].promised_stream_id by {
        assert(t[a].promised_stream_id == s[a].promised_stream_id);
        assert(t[b].promised_stream_id == s[b].promised_stream_id);
    }
}

} // verus!
