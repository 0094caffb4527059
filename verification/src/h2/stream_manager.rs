use vstd::prelude::*;
use std::collections::HashMap;
use vstd::std_specs::iter::IteratorSpec;
use crate::h2::stream_state::StreamRedactionState;
use crate::h2::h2_reader::header_entries;
use crate::string_map::holds_texts;
use crate::text::{decimal, push_decimal};

verus! {

broadcast use vstd::std_specs::hash::group_hash_axioms;

/// Where a stream is in its life.
#[derive(Debug, Clone, Copy, PartialEq, Eq, Structural)]
pub enum StreamLifecycle {
    /// Created; no HEADERS yet.
    Idle,
    /// Headers received.
    Open,
    /// The client ended its side.
    HalfClosedLocal,
    /// The response arrived after the client ended its side.
    HalfClosedRemote,
    /// Closed.
    Closed,
    /// Reset by RST_STREAM.
    Reset,
}

/// The response to a stream, as it goes back to the client.
#[derive(Debug)]
pub struct RedactedResponse {
    pub stream_id: u32,
    pub status: u16,
    pub headers: http::HeaderMap,
    pub body: Vec<u8>,
    pub redaction_applied: bool,
}

/// Copies a header map with `HeaderMap::clone`.
///
/// Trusted: a clone holds the same entries, in the same order.
#[verifier::external_body]
fn clone_header_map(m: &http::HeaderMap) -> (r: http::HeaderMap)
    ensures
        header_entries(r) == header_entries(*m),
{
    m.clone()
}

/// Counters of a stream manager.
#[derive(Debug, Clone)]
pub struct StreamManagerStats {
    pub active_streams: usize,
    pub completed_streams: usize,
    pub connection_window: u32,
    pub max_streams: u32,
}

/// The streams of one connection: their request state, lifecycle, responses and flow
/// windows, and a limit on how many are open at once.
pub struct StreamManager {
    pub streams: HashMap<u32, StreamRedactionState>,
    pub lifecycles: HashMap<u32, StreamLifecycle>,
    pub responses: HashMap<u32, RedactedResponse>,
    pub connection_window: u32,
    pub stream_windows: HashMap<u32, u32>,
    pub max_streams: u32,
    pub stream_count: u32,
}

/// The message for an unknown stream.
pub open spec fn unknown_stream(id: u32) -> Seq<char> {
    "Stream "@ + decimal(id as nat) + " not found"@
}

fn unknown_stream_error(id: u32) -> (r: String)
    ensures
        r@ == unknown_stream(id),
{
    let mut m = String::from_str("Stream ");
    push_decimal(&mut m, id as u64);
    m.append(" not found");
    m
}

/// The lifecycle after a step that moves `from` to `to`, only from `from`.
pub open spec fn advanced(l: Map<u32, StreamLifecycle>, id: u32, from: StreamLifecycle, to: StreamLifecycle) -> Map<u32, StreamLifecycle> {
    if l.contains_key(id) && l[id] == from { l.insert(id, to) } else { l }
}

/// The keys of a map, each once, in its order.
fn map_keys<V>(m: &HashMap<u32, V>) -> (r: Vec<u32>)
    ensures
        r@.no_duplicates(),
        r@.to_set() == m@.dom(),
{
    let mut out: Vec<u32> = Vec::new();
    let ghost ks = vstd::std_specs::hash::spec_keys_iter(m).remaining();
    for id in it: m.keys()
        invariant
            it.seq() == ks,
            out@ == it.seq().take(it.index() as int).unref(),
            out@.len() == it.index(),
    {
        proof {
            assert(it.seq().take(it.index() + 1).unref() == it.seq().take(it.index() as int).unref().push(*id));
        }
        out.push(*id);
    }
    assert(out@ == ks.unref());
    out
}

impl StreamManager {
    /// No streams, the default connection window, at most 100 streams.
    pub fn new() -> (m: Self)
        ensures
            m.streams@ == Map::<u32, StreamRedactionState>::empty(),
            m.lifecycles@ == Map::<u32, StreamLifecycle>::empty(),
            m.responses@ == Map::<u32, RedactedResponse>::empty(),
            m.stream_windows@ == Map::<u32, u32>::empty(),
            m.connection_window == 65535,
            m.max_streams == 100,
            m.stream_count == 0,
    {
        StreamManager {
            streams: HashMap::new(),
            lifecycles: HashMap::new(),
            responses: HashMap::new(),
            connection_window: 65535,
            stream_windows: HashMap::new(),
            max_streams: 100,
            stream_count: 0,
        }
    }

    /// Opens a stream: refused when it exists or the limit is reached.
    pub fn create_stream(&mut self, stream_id: u32) -> (r: Result<(), String>)
        ensures
            old(self).streams@.contains_key(stream_id) ==> (r matches Err(m)
                && m@ == "Stream "@ + decimal(stream_id as nat) + " already exists"@) && *final(self) == *old(self),
            !old(self).streams@.contains_key(stream_id) && old(self).stream_count >= old(self).max_streams
                ==> (r matches Err(m) && m@ == "Max concurrent streams reached: "@ + decimal(old(self).stream_count as nat)
                + " (limit: "@ + decimal(old(self).max_streams as nat) + ")"@) && *final(self) == *old(self),
            !old(self).streams@.contains_key(stream_id) && old(self).stream_count < old(self).max_streams ==> r is Ok
                && final(self).streams@.dom() == old(self).streams@.dom().insert(stream_id)
                && (forall|k: u32| k != stream_id && #[trigger] old(self).streams@.contains_key(k)
                    ==> final(self).streams@[k] == old(self).streams@[k])
                && final(self).streams@[stream_id].stream_id == stream_id
                && holds_texts(final(self).streams@[stream_id].headers@, Map::empty())
                && final(self).streams@[stream_id].body_chunks@.len() == 0
                && !final(self).streams@[stream_id].end_stream && !final(self).streams@[stream_id].headers_complete
                && final(self).lifecycles@ == old(self).lifecycles@.insert(stream_id, StreamLifecycle::Idle)
                && final(self).stream_windows@ == old(self).stream_windows@.insert(stream_id, 65535)
                && final(self).stream_count == old(self).stream_count + 1
                && final(self).responses@ == old(self).responses@
                && final(self).connection_window == old(self).connection_window
                && final(self).max_streams == old(self).max_streams,
    {
        if self.streams.contains_key(&stream_id) {
            let mut m = String::from_str("Stream ");
            push_decimal(&mut m, stream_id as u64);
            m.append(" already exists");
            return Err(m);
        }
        if self.stream_count >= self.max_streams {
            let mut m = String::from_str("Max concurrent streams reached: ");
            push_decimal(&mut m, self.stream_count as u64);
            m.append(" (limit: ");
            push_decimal(&mut m, self.max_streams as u64);
            m.append(")");
            return Err(m);
        }
        self.streams.insert(stream_id, StreamRedactionState::new(stream_id));
        self.lifecycles.insert(stream_id, StreamLifecycle::Idle);
        self.stream_windows.insert(stream_id, 65535);
        self.stream_count = self.stream_count + 1;
        Ok(())
    }

    /// Gives a stream its header block (see `StreamRedactionState::add_headers`); an idle
    /// stream becomes open.
    pub fn add_headers(&mut self, stream_id: u32, headers: http::HeaderMap) -> (r: Result<(), String>)
        ensures
            !old(self).streams@.contains_key(stream_id) ==> (r matches Err(m) && m@ == unknown_stream(stream_id))
                && final(self).streams@ == old(self).streams@ && final(self).lifecycles@ == old(self).lifecycles@,
            old(self).streams@.contains_key(stream_id) && old(self).streams@[stream_id].headers_complete
                ==> (r matches Err(m) && m@ == "Stream "@ + decimal(old(self).streams@[stream_id].stream_id as nat)
                + " duplicate headers"@) && final(self).streams@ == old(self).streams@
                && final(self).lifecycles@ == old(self).lifecycles@,
            old(self).streams@.contains_key(stream_id) && !old(self).streams@[stream_id].headers_complete ==> r is Ok
                && final(self).streams@.dom() == old(self).streams@.dom()
                && (forall|k: u32| k != stream_id && #[trigger] old(self).streams@.contains_key(k)
                    ==> final(self).streams@[k] == old(self).streams@[k])
                && final(self).streams@[stream_id].headers_complete
                && final(self).streams@[stream_id].stream_id == old(self).streams@[stream_id].stream_id
                && final(self).streams@[stream_id].body_chunks == old(self).streams@[stream_id].body_chunks
                && final(self).streams@[stream_id].end_stream == old(self).streams@[stream_id].end_stream
                && (forall|t: Map<Seq<char>, Seq<char>>| holds_texts(old(self).streams@[stream_id].headers@, t)
                    ==> holds_texts(final(self).streams@[stream_id].headers@,
                        crate::h2::stream_state::entries_text_map(t, header_entries(headers))))
                && final(self).lifecycles@ == advanced(old(self).lifecycles@, stream_id, StreamLifecycle::Idle, StreamLifecycle::Open),
            final(self).responses@ == old(self).responses@,
            final(self).stream_windows@ == old(self).stream_windows@,
            final(self).connection_window == old(self).connection_window,
            final(self).max_streams == old(self).max_streams,
            final(self).stream_count == old(self).stream_count,
    {
        match self.streams.remove(&stream_id) {
            Some(mut state) => {
                let res = state.add_headers(headers);
                self.streams.insert(stream_id, state);
                if let Err(e) = res {
                    assert(self.streams@ =~= old(self).streams@);
                    return Err(e);
                }
                if let Some(l) = self.lifecycles.get(&stream_id) {
                    if *l == StreamLifecycle::Idle {
                        self.lifecycles.insert(stream_id, StreamLifecycle::Open);
                    }
                }
                Ok(())
            },
            None => {
                assert(self.streams@ =~= old(self).streams@);
                Err(unknown_stream_error(stream_id))
            },
        }
    }

    /// Appends a body chunk to a stream (see `StreamRedactionState::add_body_chunk`).
    pub fn add_body_chunk(&mut self, stream_id: u32, chunk: Vec<u8>) -> (r: Result<(), String>)
        ensures
            !old(self).streams@.contains_key(stream_id) ==> (r matches Err(m) && m@ == unknown_stream(stream_id))
                && final(self).streams@ == old(self).streams@,
            old(self).streams@.contains_key(stream_id) && old(self).streams@[stream_id].end_stream
                ==> (r matches Err(m) && m@ == "Stream "@ + decimal(old(self).streams@[stream_id].stream_id as nat)
                + " data after END_STREAM"@) && final(self).streams@ == old(self).streams@,
            old(self).streams@.contains_key(stream_id) && !old(self).streams@[stream_id].end_stream ==> r is Ok
                && final(self).streams@ == old(self).streams@.insert(stream_id, StreamRedactionState {
                    body_chunks: final(self).streams@[stream_id].body_chunks,
                    headers: final(self).streams@[stream_id].headers,
                    ..old(self).streams@[stream_id]
                })
                && final(self).streams@[stream_id].body_chunks@ == old(self).streams@[stream_id].body_chunks@.push(chunk)
                && final(self).streams@[stream_id].headers@ == old(self).streams@[stream_id].headers@,
            final(self).lifecycles@ == old(self).lifecycles@,
            final(self).responses@ == old(self).responses@,
            final(self).stream_windows@ == old(self).stream_windows@,
            final(self).connection_window == old(self).connection_window,
            final(self).max_streams == old(self).max_streams,
            final(self).stream_count == old(self).stream_count,
    {
        match self.streams.remove(&stream_id) {
            Some(mut state) => {
                let res = state.add_body_chunk(chunk);
                self.streams.insert(stream_id, state);
                if res.is_err() {
                    assert(self.streams@ =~= old(self).streams@);
                }
                res
            },
            None => {
                assert(self.streams@ =~= old(self).streams@);
                Err(unknown_stream_error(stream_id))
            },
        }
    }

    /// Records that the client ended a stream; an open stream becomes half-closed.
    pub fn end_stream(&mut self, stream_id: u32) -> (r: Result<(), String>)
        ensures
            !old(self).streams@.contains_key(stream_id) ==> (r matches Err(m) && m@ == unknown_stream(stream_id))
                && final(self).streams@ == old(self).streams@ && final(self).lifecycles@ == old(self).lifecycles@,
            old(self).streams@.contains_key(stream_id) ==> r is Ok
                && final(self).streams@ == old(self).streams@.insert(stream_id, StreamRedactionState {
                    headers: final(self).streams@[stream_id].headers,
                    body_chunks: final(self).streams@[stream_id].body_chunks,
                    end_stream: true,
                    ..old(self).streams@[stream_id]
                })
                && final(self).streams@[stream_id].headers@ == old(self).streams@[stream_id].headers@
                && final(self).streams@[stream_id].body_chunks@ == old(self).streams@[stream_id].body_chunks@
                && final(self).lifecycles@ == advanced(old(self).lifecycles@, stream_id, StreamLifecycle::Open,
                    StreamLifecycle::HalfClosedLocal),
            final(self).responses@ == old(self).responses@,
            final(self).stream_windows@ == old(self).stream_windows@,
            final(self).connection_window == old(self).connection_window,
            final(self).max_streams == old(self).max_streams,
            final(self).stream_count == old(self).stream_count,
    {
        match self.streams.remove(&stream_id) {
            Some(mut state) => {
                state.mark_end_stream();
                self.streams.insert(stream_id, state);
                if let Some(l) = self.lifecycles.get(&stream_id) {
                    if *l == StreamLifecycle::Open {
                        self.lifecycles.insert(stream_id, StreamLifecycle::HalfClosedLocal);
                    }
                }
                Ok(())
            },
            None => {
                assert(self.streams@ =~= old(self).streams@);
                Err(unknown_stream_error(stream_id))
            },
        }
    }

    /// Stores the response to a stream; a half-closed stream becomes remotely closed.
    pub fn add_response(&mut self, stream_id: u32, status: u16, headers: http::HeaderMap, body: Vec<u8>) -> (r: Result<(), String>)
        ensures
            !old(self).streams@.contains_key(stream_id) ==> (r matches Err(m) && m@ == unknown_stream(stream_id))
                && final(self).responses@ == old(self).responses@ && final(self).lifecycles@ == old(self).lifecycles@,
            old(self).streams@.contains_key(stream_id) ==> r is Ok
                && final(self).responses@.dom() == old(self).responses@.dom().insert(stream_id)
                && (forall|k: u32| k != stream_id && #[trigger] old(self).responses@.contains_key(k)
                    ==> final(self).responses@[k] == old(self).responses@[k])
                && final(self).responses@[stream_id].stream_id == stream_id
                && final(self).responses@[stream_id].status == status
                && final(self).responses@[stream_id].headers == headers
                && final(self).responses@[stream_id].body@ == body@
                && final(self).responses@[stream_id].redaction_applied
                && final(self).lifecycles@ == advanced(old(self).lifecycles@, stream_id, StreamLifecycle::HalfClosedLocal,
                    StreamLifecycle::HalfClosedRemote),
            final(self).streams@ == old(self).streams@,
            final(self).stream_windows@ == old(self).stream_windows@,
            final(self).connection_window == old(self).connection_window,
            final(self).max_streams == old(self).max_streams,
            final(self).stream_count == old(self).stream_count,
    {
        if !self.streams.contains_key(&stream_id) {
            return Err(unknown_stream_error(stream_id));
        }
        let response = RedactedResponse { stream_id, status, headers, body, redaction_applied: true };
        self.responses.insert(stream_id, response);
        if let Some(l) = self.lifecycles.get(&stream_id) {
            if *l == StreamLifecycle::HalfClosedLocal {
                self.lifecycles.insert(stream_id, StreamLifecycle::HalfClosedRemote);
            }
        }
        Ok(())
    }

    /// A copy of a stream's response, if one arrived.
    pub fn get_response(&self, stream_id: u32) -> (r: Option<RedactedResponse>)
        ensures
            match r {
                Some(resp) => self.responses@.contains_key(stream_id)
                    && resp.stream_id == self.responses@[stream_id].stream_id
                    && resp.status == self.responses@[stream_id].status
                    && header_entries(resp.headers) == header_entries(self.responses@[stream_id].headers)
                    && resp.body@ == self.responses@[stream_id].body@
                    && resp.redaction_applied == self.responses@[stream_id].redaction_applied,
                None => !self.responses@.contains_key(stream_id),
            },
    {
        match self.responses.get(&stream_id) {
            Some(resp) => Some(RedactedResponse {
                stream_id: resp.stream_id,
                status: resp.status,
                headers: clone_header_map(&resp.headers),
                body: resp.body.clone(),
                redaction_applied: resp.redaction_applied,
            }),
            None => None,
        }
    }

    /// Whether a stream is done: remotely closed, or closed.
    pub fn is_stream_complete(&self, stream_id: u32) -> (r: bool)
        ensures
            r == (self.lifecycles@.contains_key(stream_id) && (self.lifecycles@[stream_id] == StreamLifecycle::HalfClosedRemote
                || self.lifecycles@[stream_id] == StreamLifecycle::Closed)),
    {
        match self.lifecycles.get(&stream_id) {
            Some(l) => *l == StreamLifecycle::HalfClosedRemote || *l == StreamLifecycle::Closed,
            None => false,
        }
    }

    /// Ends a known stream in `to`: its state and window go, its response stays, and the
    /// count of open streams drops (not below zero).
    fn finish_stream(&mut self, stream_id: u32, to: StreamLifecycle) -> (r: Result<(), String>)
        ensures
            !old(self).lifecycles@.contains_key(stream_id) ==> (r matches Err(m) && m@ == unknown_stream(stream_id))
                && *final(self) == *old(self),
            old(self).lifecycles@.contains_key(stream_id) ==> r is Ok
                && final(self).lifecycles@ == old(self).lifecycles@.insert(stream_id, to)
                && final(self).streams@ == old(self).streams@.remove(stream_id)
                && final(self).stream_windows@ == old(self).stream_windows@.remove(stream_id)
                && final(self).stream_count == (if old(self).stream_count > 0 { old(self).stream_count - 1 } else { 0 })
                && final(self).responses@ == old(self).responses@
                && final(self).connection_window == old(self).connection_window
                && final(self).max_streams == old(self).max_streams,
    {
        if !self.lifecycles.contains_key(&stream_id) {
            return Err(unknown_stream_error(stream_id));
        }
        self.lifecycles.insert(stream_id, to);
        self.streams.remove(&stream_id);
        self.stream_windows.remove(&stream_id);
        self.stream_count = if self.stream_count > 0 { self.stream_count - 1 } else { 0 };
        Ok(())
    }

    /// Closes a stream (see `finish_stream`).
    pub fn close_stream(&mut self, stream_id: u32) -> (r: Result<(), String>)
        ensures
            !old(self).lifecycles@.contains_key(stream_id) ==> (r matches Err(m) && m@ == unknown_stream(stream_id))
                && *final(self) == *old(self),
            old(self).lifecycles@.contains_key(stream_id) ==> r is Ok
                && final(self).lifecycles@ == old(self).lifecycles@.insert(stream_id, StreamLifecycle::Closed)
                && final(self).streams@ == old(self).streams@.remove(stream_id)
                && final(self).stream_windows@ == old(self).stream_windows@.remove(stream_id)
                && final(self).stream_count == (if old(self).stream_count > 0 { old(self).stream_count - 1 } else { 0 })
                && final(self).responses@ == old(self).responses@
                && final(self).connection_window == old(self).connection_window
                && final(self).max_streams == old(self).max_streams,
    {
        self.finish_stream(stream_id, StreamLifecycle::Closed)
    }

    /// Resets a stream (see `finish_stream`).
    pub fn reset_stream(&mut self, stream_id: u32) -> (r: Result<(), String>)
        ensures
            !old(self).lifecycles@.contains_key(stream_id) ==> (r matches Err(m) && m@ == unknown_stream(stream_id))
                && *final(self) == *old(self),
            old(self).lifecycles@.contains_key(stream_id) ==> r is Ok
                && final(self).lifecycles@ == old(self).lifecycles@.insert(stream_id, StreamLifecycle::Reset)
                && final(self).streams@ == old(self).streams@.remove(stream_id)
                && final(self).stream_windows@ == old(self).stream_windows@.remove(stream_id)
                && final(self).stream_count == (if old(self).stream_count > 0 { old(self).stream_count - 1 } else { 0 })
                && final(self).responses@ == old(self).responses@
                && final(self).connection_window == old(self).connection_window
                && final(self).max_streams == old(self).max_streams,
    {
        self.finish_stream(stream_id, StreamLifecycle::Reset)
    }

    /// Charges bytes to the connection window, compared and charged as a 32-bit count.
    pub fn consume_connection_window(&mut self, bytes: usize) -> (r: Result<(), String>)
        ensures
            (bytes as u32) > old(self).connection_window ==> (r matches Err(m) && m@ == "Connection window exhausted: need "@
                + decimal(bytes as nat) + ", have "@ + decimal(old(self).connection_window as nat)) && *final(self) == *old(self),
            (bytes as u32) <= old(self).connection_window ==> r is Ok
                && *final(self) == (StreamManager { connection_window: (old(self).connection_window - (bytes as u32)) as u32, ..*old(self) }),
    {
        let b = bytes as u32;
        if b > self.connection_window {
            let mut m = String::from_str("Connection window exhausted: need ");
            push_decimal(&mut m, bytes as u64);
            m.append(", have ");
            push_decimal(&mut m, self.connection_window as u64);
            return Err(m);
        }
        self.connection_window = self.connection_window - b;
        Ok(())
    }

    /// Grows the connection window.
    pub fn restore_connection_window(&mut self, bytes: u32)
        requires
            old(self).connection_window + bytes <= u32::MAX,
        ensures
            *final(self) == (StreamManager { connection_window: (old(self).connection_window + bytes) as u32, ..*old(self) }),
    {
        self.connection_window = self.connection_window + bytes;
    }

    /// Charges bytes to a stream's window, compared and charged as a 32-bit count.
    pub fn consume_stream_window(&mut self, stream_id: u32, bytes: usize) -> (r: Result<(), String>)
        ensures
            !old(self).stream_windows@.contains_key(stream_id) ==> (r matches Err(m) && m@ == unknown_stream(stream_id))
                && final(self).stream_windows@ == old(self).stream_windows@,
            old(self).stream_windows@.contains_key(stream_id) && (bytes as u32) > old(self).stream_windows@[stream_id]
                ==> (r matches Err(m) && m@ == "Stream "@ + decimal(stream_id as nat) + " window exhausted: need "@
                + decimal(bytes as nat) + ", have "@ + decimal(old(self).stream_windows@[stream_id] as nat))
                && final(self).stream_windows@ == old(self).stream_windows@,
            old(self).stream_windows@.contains_key(stream_id) && (bytes as u32) <= old(self).stream_windows@[stream_id]
                ==> r is Ok && final(self).stream_windows@ == old(self).stream_windows@.insert(stream_id,
                    (old(self).stream_windows@[stream_id] - (bytes as u32)) as u32),
            final(self).streams@ == old(self).streams@,
            final(self).lifecycles@ == old(self).lifecycles@,
            final(self).responses@ == old(self).responses@,
            final(self).connection_window == old(self).connection_window,
            final(self).max_streams == old(self).max_streams,
            final(self).stream_count == old(self).stream_count,
    {
        match self.stream_windows.get(&stream_id) {
            Some(w) => {
                let w = *w;
                let b = bytes as u32;
                if b > w {
                    let mut m = String::from_str("Stream ");
                    push_decimal(&mut m, stream_id as u64);
                    m.append(" window exhausted: need ");
                    push_decimal(&mut m, bytes as u64);
                    m.append(", have ");
                    push_decimal(&mut m, w as u64);
                    return Err(m);
                }
                self.stream_windows.insert(stream_id, w - b);
                Ok(())
            },
            None => Err(unknown_stream_error(stream_id)),
        }
    }

    /// Grows a stream's window.
    pub fn restore_stream_window(&mut self, stream_id: u32, bytes: u32) -> (r: Result<(), String>)
        requires
            old(self).stream_windows@.contains_key(stream_id) ==> old(self).stream_windows@[stream_id] + bytes <= u32::MAX,
        ensures
            !old(self).stream_windows@.contains_key(stream_id) ==> (r matches Err(m) && m@ == unknown_stream(stream_id))
                && final(self).stream_windows@ == old(self).stream_windows@,
            old(self).stream_windows@.contains_key(stream_id) ==> r is Ok && final(self).stream_windows@
                == old(self).stream_windows@.insert(stream_id, (old(self).stream_windows@[stream_id] + bytes) as u32),
            final(self).streams@ == old(self).streams@,
            final(self).lifecycles@ == old(self).lifecycles@,
            final(self).responses@ == old(self).responses@,
            final(self).connection_window == old(self).connection_window,
            final(self).max_streams == old(self).max_streams,
            final(self).stream_count == old(self).stream_count,
    {
        match self.stream_windows.get(&stream_id) {
            Some(w) => {
                let w = *w;
                self.stream_windows.insert(stream_id, w + bytes);
                Ok(())
            },
            None => Err(unknown_stream_error(stream_id)),
        }
    }

    /// The ids of the streams with request state, each once.
    pub fn active_streams(&self) -> (r: Vec<u32>)
        ensures
            r@.no_duplicates(),
            r@.to_set() == self.streams@.dom(),
    {
        map_keys(&self.streams)
    }

    /// The number of streams with request state.
    pub fn active_stream_count(&self) -> (r: usize)
        ensures
            r == self.streams@.dom().len(),
    {
        self.streams.len()
    }

    /// The ids of the streams with a response, each once.
    pub fn completed_streams(&self) -> (r: Vec<u32>)
        ensures
            r@.no_duplicates(),
            r@.to_set() == self.responses@.dom(),
    {
        map_keys(&self.responses)
    }

    /// A stream's lifecycle, if it has one.
    pub fn stream_state(&self, stream_id: u32) -> (r: Option<StreamLifecycle>)
        ensures
            r == (if self.lifecycles@.contains_key(stream_id) { Some(self.lifecycles@[stream_id]) } else { None::<StreamLifecycle> }),
    {
        match self.lifecycles.get(&stream_id) {
            Some(l) => Some(*l),
            None => None,
        }
    }

    /// The manager's counters.
    pub fn stats(&self) -> (s: StreamManagerStats)
        ensures
            s.active_streams == self.streams@.dom().len(),
            s.completed_streams == self.responses@.dom().len(),
            s.connection_window == self.connection_window,
            s.max_streams == self.max_streams,
    {
        StreamManagerStats {
            active_streams: self.streams.len(),
            completed_streams: self.responses.len(),
            connection_window: self.connection_window,
            max_streams: self.max_streams,
        }
    }
}

} // verus!
