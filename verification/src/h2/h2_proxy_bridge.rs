use vstd::prelude::*;
use std::collections::HashMap;
use vstd::std_specs::iter::IteratorSpec;
use crate::bytes::{read_be_u24, be24};
use crate::text::{decimal, push_decimal};
use crate::h2::hpack::{HpackDecoder, HeaderView, block_decode, BlockOutcome, fields_view};
use crate::h2::flow_controller::{FlowController, FlowControllerView, fresh_window};
use crate::h2::server_push::{ServerPushManager, ServerPush, PushState, has_promised, not_found_message};
use crate::streaming_response::header_text;
use crate::text::{str_eq, lines, lines_spec, split_whitespace, words_spec, views, utf8_lossy, utf8_lossy_text,
    parse_u64, parse_u64_spec, find_str, first_occurrence, occurs_at, chars_of, string_of_chars, trim, trim_spec, concat_str};
use crate::unicode::{str_to_lowercase, spec_str_to_lowercase};
use crate::h2::flow_controller::{consume_outcome, UPDATE_THRESHOLD, FlowWindowView};

verus! {

broadcast use vstd::std_specs::hash::group_hash_axioms;

/// What the bridge keeps of one client stream while it is carried over HTTP/1.1.
#[derive(Debug)]
pub struct StreamState {
    pub stream_id: u32,
    pub method: String,
    pub path: String,
    /// The request headers other than the pseudo-headers.
    pub headers: Vec<(String, String)>,
    pub request_body: Vec<u8>,
    /// Whether the client ended the stream.
    pub request_complete: bool,
    /// Whether the response went back to the client.
    pub response_sent: bool,
    /// The response status; 0 until a response arrived.
    pub response_status: u32,
    pub response_headers: Vec<(String, String)>,
    pub response_body: Vec<u8>,
    pub window_size: i32,
}

/// Whether `s` is a fresh stream record for `id`.
pub open spec fn fresh_stream(s: StreamState, id: u32) -> bool {
    &&& s.stream_id == id
    &&& s.method@.len() == 0 && s.path@.len() == 0
    &&& s.headers@.len() == 0 && s.request_body@.len() == 0
    &&& !s.request_complete && !s.response_sent
    &&& s.response_status == 0
    &&& s.response_headers@.len() == 0 && s.response_body@.len() == 0
    &&& s.window_size == 65535
}

impl StreamState {
    /// A stream with nothing received, and the default window.
    pub fn new(stream_id: u32) -> (s: Self)
        ensures
            fresh_stream(s, stream_id),
    {
        StreamState {
            stream_id,
            method: String::new(),
            path: String::new(),
            headers: Vec::new(),
            request_body: Vec::new(),
            request_complete: false,
            response_sent: false,
            response_status: 0,
            response_headers: Vec::new(),
            response_body: Vec::new(),
            window_size: 65535,
        }
    }
}

/// How the bridge treats streams.
#[derive(Debug, Clone)]
pub struct BridgeConfig {
    pub redact_headers: bool,
    /// The largest request body accepted, in bytes.
    pub max_request_size: usize,
    /// The largest response body accepted, in bytes.
    pub max_response_size: usize,
    pub debug_logging: bool,
}

impl Default for BridgeConfig {
    fn default() -> (c: Self)
        ensures
            c.redact_headers,
            c.max_request_size == 10485760,
            c.max_response_size == 104857600,
            !c.debug_logging,
    {
        BridgeConfig {
            redact_headers: true,
            max_request_size: 10485760,
            max_response_size: 104857600,
            debug_logging: false,
        }
    }
}

/// Carries the streams of one HTTP/2 client over one HTTP/1.1 proxy connection.
pub struct H2ProxyBridge {
    pub streams: HashMap<u32, StreamState>,
    pub hpack_decoder: HpackDecoder,
    /// The next id for a stream the bridge opens itself.
    pub next_stream_id: u32,
    pub config: BridgeConfig,
    pub flow_controller: FlowController,
    pub push_manager: ServerPushManager,
}

/// Whether a stream waits for its request to go to the proxy: complete, and not answered.
pub open spec fn is_pending(s: StreamState) -> bool {
    s.request_complete && !s.response_sent
}

/// The ids of the pending streams.
pub open spec fn pending_ids(m: Map<u32, StreamState>) -> Set<u32> {
    m.dom().filter(|k: u32| is_pending(m[k]))
}

/// The message for an unknown stream.
pub open spec fn stream_missing(id: u32) -> Seq<char> {
    "Stream "@ + decimal(id as nat) + " not found"@
}

fn stream_missing_error(id: u32) -> (r: String)
    ensures
        r@ == stream_missing(id),
{
    let mut m = String::from_str("Stream ");
    push_decimal(&mut m, id as u64);
    m.append(" not found");
    m
}

/// The number of ids of `s` whose streams are pending.
pub open spec fn count_pending(s: Seq<u32>, m: Map<u32, StreamState>) -> nat
    decreases s.len(),
{
    if s.len() == 0 {
        0
    } else {
        count_pending(s.drop_last(), m) + if is_pending(m[s.last()]) { 1nat } else { 0nat }
    }
}

/// Counting the pending streams along a list of distinct ids counts the pending ids of its set.
proof fn lemma_count_pending(s: Seq<u32>, m: Map<u32, StreamState>)
    requires
        s.no_duplicates(),
    ensures
        count_pending(s, m) == s.to_set().filter(|k: u32| is_pending(m[k])).len(),
    decreases s.len(),
{
    let p = |k: u32| is_pending(m[k]);
    if s.len() == 0 {
        assert(s.to_set().filter(p) =~= Set::<u32>::empty());
    } else {
        let t = s.drop_last();
        assert(t.no_duplicates()) by {
            assert forall|i: int, j: int| 0 <= i < t.len() && 0 <= j < t.len() && i != j implies t[i] != t[j] by {
                assert(t[i] == s[i] && t[j] == s[j]);
            }
        }
        lemma_count_pending(t, m);
        assert(s.to_set() =~= t.to_set().insert(s.last())) by {
            assert(s == t.push(s.last()));
        }
        assert(!t.to_set().contains(s.last())) by {
            if t.to_set().contains(s.last()) {
                let i = choose|i: int| 0 <= i < t.len() && t[i] == s.last();
                assert(s[i] == s[s.len() - 1]);
            }
        }
        vstd::seq_lib::seq_to_set_is_finite(t);
        if p(s.last()) {
            assert(s.to_set().filter(p) =~= t.to_set().filter(p).insert(s.last()));
        } else {
            assert(s.to_set().filter(p) =~= t.to_set().filter(p));
        }
    }
}

/// A parsed frame: its type, flags, stream id (reserved bit cleared) and the payload bytes
/// present, cut at the length the header gives.
pub open spec fn frame_parts(data: Seq<u8>) -> (u8, u8, u32, Seq<u8>) {
    let length = be24(data[0], data[1], data[2]);
    let end: int = if 9 + length < data.len() { (9 + length) as int } else { data.len() as int };
    (data[3], data[4], ((data[5] % 128) as nat * 16777216 + data[6] as nat * 65536 + data[7] as nat * 256 + data[8] as nat) as u32,
        data.subrange(9, end))
}

/// Reads a frame's header and the payload bytes that follow it (see `frame_parts`); fewer
/// than nine bytes are refused.
pub fn parse_frame_header(data: &[u8]) -> (r: Result<(u8, u8, u32, Vec<u8>), String>)
    ensures
        data@.len() < 9 ==> (r matches Err(m) && m@ == "Frame too small"@),
        data@.len() >= 9 ==> (r matches Ok((t, f, id, p)) && (t, f, id, p@) == frame_parts(data@)),
{
    if data.len() < 9 {
        return Err(String::from_str("Frame too small"));
    }
    let length = read_be_u24(data, 0) as usize;
    let raw5 = data[5];
    let b5 = raw5 & 0x7f;
    assert(b5 == raw5 % 128) by (bit_vector)
        requires b5 == raw5 & 0x7f;
    let stream_id: u32 = (b5 as u32) * 16777216 + (data[6] as u32) * 65536 + (data[7] as u32) * 256 + (data[8] as u32);
    let end: usize = if length < data.len() - 9 { 9 + length } else { data.len() };
    let mut payload: Vec<u8> = Vec::new();
    let mut i: usize = 9;
    while i < end
        invariant
            9 <= i <= end,
            end <= data@.len(),
            payload@ == data@.subrange(9, i as int),
        decreases end - i,
    {
        payload.push(data[i]);
        assert(data@.subrange(9, i + 1) == data@.subrange(9, i as int).push(data@[i as int]));
        i += 1;
    }
    Ok((data[3], data[4], stream_id, payload))
}

/// The SETTINGS frame the bridge opens with: empty, no flags, stream 0.
pub fn build_settings_frame() -> (r: Vec<u8>)
    ensures
        r@ == seq![0u8, 0u8, 0u8, 4u8, 0u8, 0u8, 0u8, 0u8, 0u8],
{
    vec![0u8, 0, 0, 4, 0, 0, 0, 0, 0]
}

/// The SETTINGS acknowledgement: empty, ACK flag, stream 0.
pub fn build_settings_ack_frame() -> (r: Vec<u8>)
    ensures
        r@ == seq![0u8, 0u8, 0u8, 4u8, 1u8, 0u8, 0u8, 0u8, 0u8],
{
    vec![0u8, 0, 0, 4, 1, 0, 0, 0, 0]
}

impl H2ProxyBridge {
    /// The bridge's invariant: its decoder, flow controller and push manager are well formed.
    pub open spec fn wf(&self) -> bool {
        self.hpack_decoder.wf() && self.flow_controller.wf() && self.push_manager.wf()
    }

    /// A bridge with no streams; the streams it opens itself start at 2.
    pub fn new(config: BridgeConfig) -> (b: Self)
        ensures
            b.wf(),
            b.streams@ == Map::<u32, StreamState>::empty(),
            b.next_stream_id == 2,
            b.config == config,
            b.hpack_decoder.entries().len() == 0,
            b.flow_controller@.connection == fresh_window(),
            b.flow_controller@.streams == Map::<u32, crate::h2::flow_controller::FlowWindowView>::empty(),
            b.push_manager@.len() == 0,
    {
        H2ProxyBridge {
            streams: HashMap::new(),
            hpack_decoder: HpackDecoder::new(),
            next_stream_id: 2,
            config,
            flow_controller: FlowController::new(),
            push_manager: ServerPushManager::new(),
        }
    }

    /// The ids of the streams, each once, in the map's order.
    fn stream_ids(&self) -> (r: Vec<u32>)
        ensures
            r@.no_duplicates(),
            r@.to_set() == self.streams@.dom(),
    {
        let mut out: Vec<u32> = Vec::new();
        let ghost ks = vstd::std_specs::hash::spec_keys_iter(&self.streams).remaining();
        for id in it: self.streams.keys()
            invariant
                it.seq() == ks,
                out@ == it.seq().take(it.index() as int).unref(),
                out@.len() == it.index(),
        {
            proof {
                assert(it.seq().take(it.index() + 1).unref() == it.seq().take(it.index() as int).unref().push(*id));
            }
            out.push(*id);
        }
        assert(out@ == ks.unref());
        out
    }

    /// The number of streams waiting to go to the proxy.
    pub fn pending_streams(&self) -> (r: usize)
        ensures
            r == pending_ids(self.streams@).len(),
    {
        let ids = self.stream_ids();
        let mut n: usize = 0;
        let mut i: usize = 0;
        while i < ids.len()
            invariant
                i <= ids@.len(),
                ids@.to_set() == self.streams@.dom(),
                n == count_pending(ids@.take(i as int), self.streams@),
                n <= i,
            decreases ids@.len() - i,
        {
            assert(ids@.take(i + 1).drop_last() == ids@.take(i as int));
            assert(self.streams@.contains_key(ids@[i as int])) by {
                assert(ids@.to_set().contains(ids@[i as int]));
            }
            let s = self.streams.get(&ids[i]).unwrap();
            if s.request_complete && !s.response_sent {
                n += 1;
            }
            i += 1;
        }
        assert(ids@.take(ids@.len() as int) == ids@);
        proof { lemma_count_pending(ids@, self.streams@); }
        n
    }

    /// Some stream waiting to go to the proxy, if any.
    pub fn next_pending_stream(&self) -> (r: Option<u32>)
        ensures
            match r {
                Some(id) => pending_ids(self.streams@).contains(id),
                None => pending_ids(self.streams@).is_empty(),
            },
    {
        let ids = self.stream_ids();
        let mut i: usize = 0;
        while i < ids.len()
            invariant
                i <= ids@.len(),
                ids@.to_set() == self.streams@.dom(),
                forall|j: int| 0 <= j < i ==> !is_pending(#[trigger] self.streams@[ids@[j]]),
            decreases ids@.len() - i,
        {
            assert(self.streams@.contains_key(ids@[i as int])) by {
                assert(ids@.to_set().contains(ids@[i as int]));
            }
            let s = self.streams.get(&ids[i]).unwrap();
            if s.request_complete && !s.response_sent {
                return Some(ids[i]);
            }
            i += 1;
        }
        assert forall|k: u32| !#[trigger] pending_ids(self.streams@).contains(k) by {
            if self.streams@.contains_key(k) {
                assert(ids@.to_set().contains(k));
                let j = choose|j: int| 0 <= j < ids@.len() && ids@[j] == k;
                assert(!is_pending(self.streams@[ids@[j]]));
            }
        }
        None
    }

    /// Records that a stream's response went to the client; an unknown stream is an error.
    pub fn mark_response_sent(&mut self, stream_id: u32) -> (r: Result<(), String>)
        ensures
            old(self).streams@.contains_key(stream_id) ==> r is Ok && final(self).streams@
                == old(self).streams@.insert(stream_id, StreamState { response_sent: true, ..old(self).streams@[stream_id] }),
            !old(self).streams@.contains_key(stream_id) ==> (r matches Err(m) && m@ == stream_missing(stream_id))
                && final(self).streams@ == old(self).streams@,
            final(self).hpack_decoder == old(self).hpack_decoder,
            final(self).flow_controller == old(self).flow_controller,
            final(self).push_manager == old(self).push_manager,
            final(self).config == old(self).config,
            final(self).next_stream_id == old(self).next_stream_id,
    {
        match self.streams.remove(&stream_id) {
            Some(mut s) => {
                s.response_sent = true;
                self.streams.insert(stream_id, s);
                Ok(())
            },
            None => {
                assert(self.streams@ =~= old(self).streams@);
                Err(stream_missing_error(stream_id))
            },
        }
    }

    /// Whether every stream's response went to the client.
    pub fn all_streams_complete(&self) -> (r: bool)
        ensures
            r == (forall|k: u32| #[trigger] self.streams@.contains_key(k) ==> self.streams@[k].response_sent),
    {
        let ids = self.stream_ids();
        let mut i: usize = 0;
        while i < ids.len()
            invariant
                i <= ids@.len(),
                ids@.to_set() == self.streams@.dom(),
                forall|j: int| 0 <= j < i ==> (#[trigger] self.streams@[ids@[j]]).response_sent,
            decreases ids@.len() - i,
        {
            assert(self.streams@.contains_key(ids@[i as int])) by {
                assert(ids@.to_set().contains(ids@[i as int]));
            }
            let s = self.streams.get(&ids[i]).unwrap();
            if !s.response_sent {
                return false;
            }
            i += 1;
        }
        assert forall|k: u32| #[trigger] self.streams@.contains_key(k) implies self.streams@[k].response_sent by {
            assert(ids@.to_set().contains(k));
            let j = choose|j: int| 0 <= j < ids@.len() && ids@[j] == k;
            assert(self.streams@[ids@[j]].response_sent);
        }
        true
    }

    /// Forgets a stream; an unknown stream is ignored.
    pub fn cleanup_stream(&mut self, stream_id: u32)
        ensures
            final(self).streams@ == old(self).streams@.remove(stream_id),
            final(self).hpack_decoder == old(self).hpack_decoder,
            final(self).flow_controller == old(self).flow_controller,
            final(self).push_manager == old(self).push_manager,
            final(self).config == old(self).config,
            final(self).next_stream_id == old(self).next_stream_id,
    {
        self.streams.remove(&stream_id);
    }

    /// A stream's response status, headers and body; an unknown stream is an error.
    pub fn get_stream_response(&self, stream_id: u32) -> (r: Result<(u32, Vec<(String, String)>, Vec<u8>), String>)
        ensures
            self.streams@.contains_key(stream_id) ==> (r matches Ok((st, h, b))
                && st == self.streams@[stream_id].response_status
                && h@ == self.streams@[stream_id].response_headers@
                && b@ == self.streams@[stream_id].response_body@),
            !self.streams@.contains_key(stream_id) ==> (r matches Err(m) && m@ == stream_missing(stream_id)),
    {
        match self.streams.get(&stream_id) {
            Some(s) => {
                let mut headers: Vec<(String, String)> = Vec::new();
                let mut i: usize = 0;
                while i < s.response_headers.len()
                    invariant
                        i <= s.response_headers@.len(),
                        headers@ == s.response_headers@.take(i as int),
                    decreases s.response_headers@.len() - i,
                {
                    headers.push((s.response_headers[i].0.clone(), s.response_headers[i].1.clone()));
                    assert(headers@ == s.response_headers@.take(i + 1));
                    i += 1;
                }
                assert(s.response_headers@.take(i as int) == s.response_headers@);
                Ok((s.response_status, headers, s.response_body.clone()))
            },
            None => Err(stream_missing_error(stream_id)),
        }
    }

    /// Whether a response arrived for the stream.
    pub fn has_response(&self, stream_id: u32) -> (r: bool)
        ensures
            r == (self.streams@.contains_key(stream_id) && self.streams@[stream_id].response_status > 0),
    {
        match self.streams.get(&stream_id) {
            Some(s) => s.response_status > 0,
            None => false,
        }
    }

    /// Appends response bytes for a stream, refusing bodies over the response limit.
    pub fn add_response_data(&mut self, stream_id: u32, data: &[u8]) -> (r: Result<(), String>)
        ensures
            !old(self).streams@.contains_key(stream_id) ==> (r matches Err(m) && m@ == stream_missing(stream_id))
                && final(self).streams@ == old(self).streams@,
            old(self).streams@.contains_key(stream_id) && old(self).streams@[stream_id].response_body@.len() + data@.len()
                > old(self).config.max_response_size ==> (r matches Err(m) && m@ == "Response body exceeds max size for stream "@
                + decimal(stream_id as nat)) && final(self).streams@ == old(self).streams@,
            old(self).streams@.contains_key(stream_id) && old(self).streams@[stream_id].response_body@.len() + data@.len()
                <= old(self).config.max_response_size ==> r is Ok && final(self).streams@ == old(self).streams@.insert(stream_id,
                StreamState { response_body: final(self).streams@[stream_id].response_body, ..old(self).streams@[stream_id] })
                && final(self).streams@[stream_id].response_body@ == old(self).streams@[stream_id].response_body@ + data@,
            final(self).hpack_decoder == old(self).hpack_decoder,
            final(self).flow_controller == old(self).flow_controller,
            final(self).push_manager == old(self).push_manager,
            final(self).config == old(self).config,
            final(self).next_stream_id == old(self).next_stream_id,
    {
        match self.streams.remove(&stream_id) {
            Some(mut s) => {
                if data.len() > self.config.max_response_size || s.response_body.len() > self.config.max_response_size - data.len() {
                    self.streams.insert(stream_id, s);
                    assert(self.streams@ =~= old(self).streams@);
                    let mut m = String::from_str("Response body exceeds max size for stream ");
                    push_decimal(&mut m, stream_id as u64);
                    return Err(m);
                }
                s.response_body.extend_from_slice(data);
                self.streams.insert(stream_id, s);
                Ok(())
            },
            None => {
                assert(self.streams@ =~= old(self).streams@);
                Err(stream_missing_error(stream_id))
            },
        }
    }

    /// Appends request bytes for a stream, refusing bodies over the request limit.
    pub fn add_request_data(&mut self, stream_id: u32, data: &[u8]) -> (r: Result<(), String>)
        ensures
            !old(self).streams@.contains_key(stream_id) ==> (r matches Err(m) && m@ == stream_missing(stream_id))
                && final(self).streams@ == old(self).streams@,
            old(self).streams@.contains_key(stream_id) && old(self).streams@[stream_id].request_body@.len() + data@.len()
                > old(self).config.max_request_size ==> (r matches Err(m) && m@ == "Request body exceeds max size for stream "@
                + decimal(stream_id as nat)) && final(self).streams@ == old(self).streams@,
            old(self).streams@.contains_key(stream_id) && old(self).streams@[stream_id].request_body@.len() + data@.len()
                <= old(self).config.max_request_size ==> r is Ok && final(self).streams@ == old(self).streams@.insert(stream_id,
                StreamState { request_body: final(self).streams@[stream_id].request_body, ..old(self).streams@[stream_id] })
                && final(self).streams@[stream_id].request_body@ == old(self).streams@[stream_id].request_body@ + data@,
            final(self).hpack_decoder == old(self).hpack_decoder,
            final(self).flow_controller == old(self).flow_controller,
            final(self).push_manager == old(self).push_manager,
            final(self).config == old(self).config,
            final(self).next_stream_id == old(self).next_stream_id,
    {
        match self.streams.remove(&stream_id) {
            Some(mut s) => {
                if data.len() > self.config.max_request_size || s.request_body.len() > self.config.max_request_size - data.len() {
                    self.streams.insert(stream_id, s);
                    assert(self.streams@ =~= old(self).streams@);
                    let mut m = String::from_str("Request body exceeds max size for stream ");
                    push_decimal(&mut m, stream_id as u64);
                    return Err(m);
                }
                s.request_body.extend_from_slice(data);
                self.streams.insert(stream_id, s);
                Ok(())
            },
            None => {
                assert(self.streams@ =~= old(self).streams@);
                Err(stream_missing_error(stream_id))
            },
        }
    }

    /// Takes a DATA frame's bytes for a stream, opening a record for an unknown stream. The
    /// bytes are kept even when the body passes the request limit, which is then an error;
    /// otherwise the frame's END_STREAM decides whether the request is complete.
    pub fn handle_client_data(&mut self, stream_id: u32, data: Vec<u8>, end_stream: bool) -> (r: Result<(), String>)
        ensures
            final(self).streams@.dom() == old(self).streams@.dom().insert(stream_id),
            forall|k: u32| k != stream_id && #[trigger] old(self).streams@.contains_key(k) ==> final(self).streams@[k] == old(self).streams@[k],
            ({
                let s2 = final(self).streams@[stream_id];
                let had = old(self).streams@.contains_key(stream_id);
                let s1 = old(self).streams@[stream_id];
                &&& had ==> s2 == StreamState { request_body: s2.request_body, request_complete: s2.request_complete, ..s1 }
                &&& !had ==> s2.stream_id == stream_id && s2.method@.len() == 0 && s2.path@.len() == 0
                    && s2.headers@.len() == 0 && !s2.response_sent && s2.response_status == 0
                    && s2.response_headers@.len() == 0 && s2.response_body@.len() == 0 && s2.window_size == 65535
                &&& s2.request_body@ == (if had { s1.request_body@ } else { Seq::<u8>::empty() }) + data@
                &&& s2.request_body@.len() > old(self).config.max_request_size ==> (r matches Err(m)
                    && m@ == "Request body exceeds maximum size"@) && s2.request_complete == (had && s1.request_complete)
                &&& s2.request_body@.len() <= old(self).config.max_request_size ==> r is Ok && s2.request_complete == end_stream
            }),
            final(self).hpack_decoder == old(self).hpack_decoder,
            final(self).flow_controller == old(self).flow_controller,
            final(self).push_manager == old(self).push_manager,
            final(self).config == old(self).config,
            final(self).next_stream_id == old(self).next_stream_id,
    {
        let mut s = match self.streams.remove(&stream_id) {
            Some(s) => s,
            None => StreamState::new(stream_id),
        };
        let mut data = data;
        s.request_body.append(&mut data);
        let too_big = s.request_body.len() > self.config.max_request_size;
        if !too_big {
            s.request_complete = end_stream;
        }
        self.streams.insert(stream_id, s);
        if too_big {
            return Err(String::from_str("Request body exceeds maximum size"));
        }
        Ok(())
    }

    /// The HTTP/1.1 request for a stream: request line, its headers, a Content-Length when
    /// it has a body, and the empty line; an unknown stream, or one without method or path,
    /// is an error.
    pub fn build_http11_request(&self, stream_id: u32) -> (r: Result<String, String>)
        ensures
            !self.streams@.contains_key(stream_id) ==> (r matches Err(m) && m@ == stream_missing(stream_id)),
            self.streams@.contains_key(stream_id) ==> ({
                let s = self.streams@[stream_id];
                if s.method@.len() == 0 || s.path@.len() == 0 {
                    r matches Err(m) && m@ == "Missing method or path for stream "@ + decimal(stream_id as nat)
                } else {
                    r matches Ok(t) && t@ == s.method@ + " "@ + s.path@ + " HTTP/1.1\r\n"@ + request_fields(s)
                }
            }),
    {
        match self.streams.get(&stream_id) {
            Some(s) => {
                if s.method.as_str().is_empty() || s.path.as_str().is_empty() {
                    let mut m = String::from_str("Missing method or path for stream ");
                    push_decimal(&mut m, stream_id as u64);
                    return Err(m);
                }
                let mut t = String::new();
                t.append(s.method.as_str());
                t.append(" ");
                t.append(s.path.as_str());
                t.append(" HTTP/1.1\r\n");
                t.append(stream_fields(s).as_str());
                Ok(t)
            },
            None => Err(stream_missing_error(stream_id)),
        }
    }

    /// What the bridge sends the proxy for a stream: the request head, with a fixed `Host:
    /// example.com` line before the stream's headers, and the body; an unknown stream, or
    /// one without method or path, is an error.
    pub fn proxy_request(&self, stream_id: u32) -> (r: Result<(String, Vec<u8>), String>)
        ensures
            !self.streams@.contains_key(stream_id) ==> (r matches Err(m) && m@ == stream_missing(stream_id)),
            self.streams@.contains_key(stream_id) ==> ({
                let s = self.streams@[stream_id];
                if s.method@.len() == 0 || s.path@.len() == 0 {
                    r matches Err(m) && m@ == "Missing method or path for stream "@ + decimal(stream_id as nat)
                } else {
                    r matches Ok((t, b)) && t@ == s.method@ + " "@ + s.path@ + " HTTP/1.1\r\n"@ + "Host: example.com\r\n"@
                        + request_fields(s) && b@ == s.request_body@
                }
            }),
    {
        match self.streams.get(&stream_id) {
            Some(s) => {
                if s.method.as_str().is_empty() || s.path.as_str().is_empty() {
                    let mut m = String::from_str("Missing method or path for stream ");
                    push_decimal(&mut m, stream_id as u64);
                    return Err(m);
                }
                let mut t = String::new();
                t.append(s.method.as_str());
                t.append(" ");
                t.append(s.path.as_str());
                t.append(" HTTP/1.1\r\n");
                t.append("Host: example.com\r\n");
                t.append(stream_fields(s).as_str());
                Ok((t, s.request_body.clone()))
            },
            None => Err(stream_missing_error(stream_id)),
        }
    }

    /// Applies a WINDOW_UPDATE to the flow controller (see `FlowController::handle_window_update`).
    pub fn handle_window_update(&mut self, stream_id: u32, increment: u32) -> (r: Result<(), String>)
        requires
            old(self).wf(),
        ensures
            final(self).wf(),
            final(self).streams@ == old(self).streams@,
            final(self).push_manager == old(self).push_manager,
            final(self).hpack_decoder == old(self).hpack_decoder,
            final(self).config == old(self).config,
            stream_id == 0 ==> (if old(self).flow_controller@.connection.available + increment > i32::MAX {
                r is Err && final(self).flow_controller@ == old(self).flow_controller@
            } else {
                r is Ok && final(self).flow_controller@ == (FlowControllerView {
                    connection: FlowWindowView {
                        available: (old(self).flow_controller@.connection.available + increment) as i32,
                        ..old(self).flow_controller@.connection
                    },
                    ..old(self).flow_controller@
                })
            }),
            stream_id != 0 && !old(self).flow_controller@.streams.contains_key(stream_id) ==> (r matches Err(m)
                && m@ == crate::h2::flow_controller::no_window_message(stream_id))
                && final(self).flow_controller@ == old(self).flow_controller@,
            stream_id != 0 && old(self).flow_controller@.streams.contains_key(stream_id) ==> ({
                let w = old(self).flow_controller@.streams[stream_id];
                if w.available + increment > i32::MAX {
                    r is Err && final(self).flow_controller@ == old(self).flow_controller@
                } else {
                    r is Ok && final(self).flow_controller@ == (FlowControllerView {
                        streams: old(self).flow_controller@.streams.insert(stream_id, FlowWindowView {
                            available: (w.available + increment) as i32,
                            ..w
                        }),
                        ..old(self).flow_controller@
                    })
                }
            }),
    {
        self.flow_controller.handle_window_update(stream_id, increment)
    }

    /// The bytes a stream's window still allows, if it has one.
    pub fn stream_window_available(&self, stream_id: u32) -> (r: Option<i32>)
        ensures
            r == (if self.flow_controller@.streams.contains_key(stream_id) {
                Some(self.flow_controller@.streams[stream_id].available)
            } else {
                None::<i32>
            }),
    {
        self.flow_controller.stream_window_available(stream_id)
    }

    /// The bytes the connection window still allows.
    pub fn connection_window_available(&self) -> (r: i32)
        ensures
            r == self.flow_controller@.connection.available,
    {
        self.flow_controller.connection_window_available()
    }

    /// Charges bytes sent on a stream to the connection and stream windows (see
    /// `consume_outcome`).
    pub fn consume_window(&mut self, stream_id: u32, bytes: u32) -> (r: Result<(), String>)
        requires
            old(self).wf(),
            bytes <= i32::MAX,
            old(self).flow_controller@.connection.total_consumed + bytes <= u64::MAX,
            old(self).flow_controller@.since_conn + bytes <= u32::MAX,
            old(self).flow_controller@.streams.contains_key(stream_id) ==>
                old(self).flow_controller@.streams[stream_id].total_consumed + bytes <= u64::MAX
                && old(self).flow_controller@.since_stream[stream_id] + bytes <= u32::MAX,
            old(self).flow_controller@.backpressure_events < u64::MAX,
        ensures
            final(self).wf(),
            final(self).streams@ == old(self).streams@,
            final(self).push_manager == old(self).push_manager,
            final(self).hpack_decoder == old(self).hpack_decoder,
            final(self).config == old(self).config,
            final(self).flow_controller@ == consume_outcome(old(self).flow_controller@, stream_id, bytes).0,
            match consume_outcome(old(self).flow_controller@, stream_id, bytes).1 {
                Ok(()) => r is Ok,
                Err(e) => r matches Err(m) && m@ == e,
            },
    {
        self.flow_controller.consume_data(stream_id, bytes)
    }

    /// The connection window, the number of stream windows (as an `i32`), the window
    /// updates sent and the backpressure events.
    pub fn flow_control_stats(&self) -> (r: (i32, i32, u64, u64))
        ensures
            r == (self.flow_controller@.connection.available, self.flow_controller@.streams.len() as i32,
                self.flow_controller@.updates_sent, self.flow_controller@.backpressure_events),
    {
        let st = self.flow_controller.stats();
        (st.connection_window_available, st.stream_count as i32, st.updates_sent, st.backpressure_events)
    }

    /// Opens a stream's flow-control window and a fresh record for it; a stream that has a
    /// window already is refused, and then nothing changes.
    pub fn create_stream_with_flow_control(&mut self, stream_id: u32) -> (r: Result<(), String>)
        requires
            old(self).wf(),
        ensures
            final(self).wf(),
            final(self).push_manager == old(self).push_manager,
            final(self).hpack_decoder == old(self).hpack_decoder,
            final(self).config == old(self).config,
            old(self).flow_controller@.streams.contains_key(stream_id) ==> (r matches Err(m)
                && m@ == "Stream "@ + decimal(stream_id as nat) + " window already exists"@)
                && final(self).flow_controller@ == old(self).flow_controller@ && final(self).streams@ == old(self).streams@,
            !old(self).flow_controller@.streams.contains_key(stream_id) ==> r is Ok
                && final(self).flow_controller@ == (FlowControllerView {
                    streams: old(self).flow_controller@.streams.insert(stream_id, fresh_window()),
                    since_stream: old(self).flow_controller@.since_stream.insert(stream_id, 0),
                    ..old(self).flow_controller@
                })
                && final(self).streams@.dom() == old(self).streams@.dom().insert(stream_id)
                && fresh_stream(final(self).streams@[stream_id], stream_id)
                && forall|k: u32| k != stream_id && #[trigger] old(self).streams@.contains_key(k)
                    ==> final(self).streams@[k] == old(self).streams@[k],
    {
        if let Err(e) = self.flow_controller.create_stream(stream_id) {
            return Err(e);
        }
        self.streams.insert(stream_id, StreamState::new(stream_id));
        Ok(())
    }

    /// Forgets a stream and its flow-control window.
    pub fn cleanup_stream_with_flow_control(&mut self, stream_id: u32)
        requires
            old(self).wf(),
        ensures
            final(self).wf(),
            final(self).streams@ == old(self).streams@.remove(stream_id),
            final(self).flow_controller@ == (FlowControllerView {
                streams: old(self).flow_controller@.streams.remove(stream_id),
                since_stream: old(self).flow_controller@.since_stream.remove(stream_id),
                ..old(self).flow_controller@
            }),
            final(self).push_manager == old(self).push_manager,
            final(self).hpack_decoder == old(self).hpack_decoder,
            final(self).config == old(self).config,
    {
        self.flow_controller.close_stream(stream_id);
        self.streams.remove(&stream_id);
    }

    /// A WINDOW_UPDATE frame for a stream: length 4, type 8, no flags, the stream id and the
    /// increment as 31-bit big-endian numbers.
    pub fn encode_window_update_frame(&self, stream_id: u32, increment: u32) -> (r: Vec<u8>)
        ensures
            r@ == seq![0u8, 0u8, 4u8, 8u8, 0u8] + be31(stream_id) + be31(increment),
    {
        let mut frame: Vec<u8> = vec![0u8, 0, 4, 8, 0];
        push_be31(&mut frame, stream_id);
        push_be31(&mut frame, increment);
        frame
    }

    /// Whether a window update is due for the stream.
    pub fn should_send_stream_window_update(&self, stream_id: u32) -> (r: bool)
        ensures
            r == (self.flow_controller@.since_stream.contains_key(stream_id)
                && self.flow_controller@.since_stream[stream_id] >= UPDATE_THRESHOLD),
    {
        self.flow_controller.should_update_stream(stream_id)
    }

    /// Whether a window update is due for the connection.
    pub fn should_send_connection_window_update(&self) -> (r: bool)
        ensures
            r == (self.flow_controller@.since_conn >= UPDATE_THRESHOLD),
    {
        self.flow_controller.should_update_connection()
    }

    /// The next stream window update due, for one of the bridge's streams: its id and the
    /// increment, which the flow controller then counts as sent.
    pub fn next_stream_window_update(&mut self) -> (r: Option<(u32, u32)>)
        requires
            old(self).wf(),
            old(self).flow_controller@.updates_sent < u64::MAX,
        ensures
            final(self).wf(),
            final(self).streams@ == old(self).streams@,
            final(self).push_manager == old(self).push_manager,
            final(self).hpack_decoder == old(self).hpack_decoder,
            final(self).config == old(self).config,
            match r {
                Some((id, inc)) => old(self).streams@.contains_key(id)
                    && old(self).flow_controller@.since_stream.contains_key(id)
                    && old(self).flow_controller@.since_stream[id] >= UPDATE_THRESHOLD
                    && inc == old(self).flow_controller@.since_stream[id]
                    && final(self).flow_controller@ == (FlowControllerView {
                        since_stream: old(self).flow_controller@.since_stream.insert(id, 0),
                        updates_sent: (old(self).flow_controller@.updates_sent + 1) as u64,
                        ..old(self).flow_controller@
                    }),
                None => final(self).flow_controller@ == old(self).flow_controller@
                    && forall|k: u32| #[trigger] old(self).streams@.contains_key(k) ==> !(
                        old(self).flow_controller@.since_stream.contains_key(k)
                        && old(self).flow_controller@.since_stream[k] >= UPDATE_THRESHOLD),
            },
    {
        let ids = self.stream_ids();
        let mut i: usize = 0;
        while i < ids.len()
            invariant
                i <= ids@.len(),
                self.wf(),
                ids@.to_set() == self.streams@.dom(),
                self.streams@ == old(self).streams@,
                self.push_manager == old(self).push_manager,
                self.hpack_decoder == old(self).hpack_decoder,
                self.config == old(self).config,
                self.flow_controller@ == old(self).flow_controller@,
                old(self).flow_controller@.updates_sent < u64::MAX,
                forall|j: int| 0 <= j < i ==> !(
                    old(self).flow_controller@.since_stream.contains_key(#[trigger] ids@[j])
                    && old(self).flow_controller@.since_stream[ids@[j]] >= UPDATE_THRESHOLD),
            decreases ids@.len() - i,
        {
            let id = ids[i];
            assert(ids@.to_set().contains(id));
            if let Some(increment) = self.flow_controller.get_stream_update(id) {
                return Some((id, increment));
            }
            i += 1;
        }
        assert forall|k: u32| #[trigger] old(self).streams@.contains_key(k) implies !(
            old(self).flow_controller@.since_stream.contains_key(k)
            && old(self).flow_controller@.since_stream[k] >= UPDATE_THRESHOLD) by {
            assert(ids@.to_set().contains(k));
            let j = choose|j: int| 0 <= j < ids@.len() && ids@[j] == k;
            assert(ids@[j] == k);
        }
        None
    }

    /// The connection's window update, when one is due.
    pub fn next_connection_window_update(&mut self) -> (r: Option<u32>)
        requires
            old(self).wf(),
            old(self).flow_controller@.updates_sent < u64::MAX,
        ensures
            final(self).wf(),
            final(self).streams@ == old(self).streams@,
            final(self).push_manager == old(self).push_manager,
            final(self).hpack_decoder == old(self).hpack_decoder,
            final(self).config == old(self).config,
            old(self).flow_controller@.since_conn >= UPDATE_THRESHOLD ==> r == Some(old(self).flow_controller@.since_conn)
                && final(self).flow_controller@ == (FlowControllerView {
                    since_conn: 0,
                    updates_sent: (old(self).flow_controller@.updates_sent + 1) as u64,
                    ..old(self).flow_controller@
                }),
            old(self).flow_controller@.since_conn < UPDATE_THRESHOLD ==> r is None
                && final(self).flow_controller@ == old(self).flow_controller@,
    {
        self.flow_controller.get_connection_update()
    }

    /// Whether the connection window is used up.
    pub fn is_connection_backpressured(&self) -> (r: bool)
        ensures
            r == (self.flow_controller@.connection.available <= 0),
    {
        self.flow_controller.connection_window_available() <= 0
    }

    /// Whether the stream has a window and it is used up.
    pub fn is_stream_backpressured(&self, stream_id: u32) -> (r: bool)
        ensures
            r == stream_blocked(self.flow_controller@, stream_id),
    {
        match self.flow_controller.stream_window_available(stream_id) {
            Some(w) => w <= 0,
            None => false,
        }
    }

    /// The backpressure events counted, and the number of the bridge's streams whose
    /// windows are used up.
    pub fn backpressure_stats(&self) -> (r: (u64, usize))
        ensures
            r.0 == self.flow_controller@.backpressure_events,
            r.1 == blocked_ids(self.streams@, self.flow_controller@).len(),
    {
        let ids = self.stream_ids();
        let mut n: usize = 0;
        let mut i: usize = 0;
        while i < ids.len()
            invariant
                i <= ids@.len(),
                ids@.to_set() == self.streams@.dom(),
                n == count_blocked(ids@.take(i as int), self.flow_controller@),
                n <= i,
            decreases ids@.len() - i,
        {
            assert(ids@.take(i + 1).drop_last() == ids@.take(i as int));
            if self.is_stream_backpressured(ids[i]) {
                n += 1;
            }
            i += 1;
        }
        assert(ids@.take(ids@.len() as int) == ids@);
        proof { lemma_count_blocked(ids@, self.flow_controller@); }
        assert(ids@.to_set().filter(|k: u32| stream_blocked(self.flow_controller@, k))
            =~= blocked_ids(self.streams@, self.flow_controller@));
        (self.flow_controller.stats().backpressure_events, n)
    }
}

/// The header lines and the Content-Length line (when there is a body) of a stream's
/// request, and the empty line that ends the head.
pub open spec fn request_fields(s: StreamState) -> Seq<char> {
    header_text(s.headers@)
        + (if s.request_body@.len() > 0 { "Content-Length: "@ + decimal(s.request_body@.len()) + "\r\n"@ } else { Seq::empty() })
        + "\r\n"@
}

fn stream_fields(s: &StreamState) -> (r: String)
    ensures
        r@ == request_fields(*s),
{
    let mut t = String::new();
    let mut i: usize = 0;
    while i < s.headers.len()
        invariant
            i <= s.headers@.len(),
            t@ == header_text(s.headers@.take(i as int)),
        decreases s.headers@.len() - i,
    {
        assert(s.headers@.take(i + 1).drop_last() == s.headers@.take(i as int));
        t.append(s.headers[i].0.as_str());
        t.append(": ");
        t.append(s.headers[i].1.as_str());
        t.append("\r\n");
        i += 1;
    }
    assert(s.headers@.take(s.headers@.len() as int) == s.headers@);
    if s.request_body.len() > 0 {
        t.append("Content-Length: ");
        push_decimal(&mut t, s.request_body.len() as u64);
        t.append("\r\n");
    }
    t.append("\r\n");
    t
}

/// A number's low 31 bits as four big-endian bytes.
pub open spec fn be31(v: u32) -> Seq<u8> {
    seq![((v / 16777216) % 128) as u8, ((v / 65536) % 256) as u8, ((v / 256) % 256) as u8, (v % 256) as u8]
}

fn push_be31(out: &mut Vec<u8>, v: u32)
    ensures
        final(out)@ == old(out)@ + be31(v),
{
    let b0 = ((v >> 24) & 0x7f) as u8;
    let b1 = ((v >> 16) & 0xff) as u8;
    let b2 = ((v >> 8) & 0xff) as u8;
    let b3 = (v & 0xff) as u8;
    assert(b0 == ((v / 16777216) % 128) as u8 && b1 == ((v / 65536) % 256) as u8
        && b2 == ((v / 256) % 256) as u8 && b3 == (v % 256) as u8) by (bit_vector)
        requires
            b0 == ((v >> 24) & 0x7f) as u8,
            b1 == ((v >> 16) & 0xff) as u8,
            b2 == ((v >> 8) & 0xff) as u8,
            b3 == (v & 0xff) as u8;
    out.push(b0);
    out.push(b1);
    out.push(b2);
    out.push(b3);
    assert(final(out)@ == old(out)@ + be31(v));
}

/// Whether a stream has a flow-control window and it is used up.
pub open spec fn stream_blocked(f: FlowControllerView, id: u32) -> bool {
    f.streams.contains_key(id) && f.streams[id].available <= 0
}

/// The bridge's streams whose windows are used up.
pub open spec fn blocked_ids(m: Map<u32, StreamState>, f: FlowControllerView) -> Set<u32> {
    m.dom().filter(|k: u32| stream_blocked(f, k))
}

/// The number of ids of `s` whose windows are used up.
pub open spec fn count_blocked(s: Seq<u32>, f: FlowControllerView) -> nat
    decreases s.len(),
{
    if s.len() == 0 {
        0
    } else {
        count_blocked(s.drop_last(), f) + if stream_blocked(f, s.last()) { 1nat } else { 0nat }
    }
}

proof fn lemma_count_blocked(s: Seq<u32>, f: FlowControllerView)
    requires
        s.no_duplicates(),
    ensures
        count_blocked(s, f) == s.to_set().filter(|k: u32| stream_blocked(f, k)).len(),
    decreases s.len(),
{
    let p = |k: u32| stream_blocked(f, k);
    if s.len() == 0 {
        assert(s.to_set().filter(p) =~= Set::<u32>::empty());
    } else {
        let t = s.drop_last();
        assert(t.no_duplicates()) by {
            assert forall|i: int, j: int| 0 <= i < t.len() && 0 <= j < t.len() && i != j implies t[i] != t[j] by {
                assert(t[i] == s[i] && t[j] == s[j]);
            }
        }
        lemma_count_blocked(t, f);
        assert(s.to_set() =~= t.to_set().insert(s.last())) by {
            assert(s == t.push(s.last()));
        }
        assert(!t.to_set().contains(s.last())) by {
            if t.to_set().contains(s.last()) {
                let i = choose|i: int| 0 <= i < t.len() && t[i] == s.last();
                assert(s[i] == s[s.len() - 1]);
            }
        }
        vstd::seq_lib::seq_to_set_is_finite(t);
        if p(s.last()) {
            assert(s.to_set().filter(p) =~= t.to_set().filter(p).insert(s.last()));
        } else {
            assert(s.to_set().filter(p) =~= t.to_set().filter(p));
        }
    }
}

/// The position of the field named `n` in `d`, if any.
pub open spec fn name_index(d: Seq<HeaderView>, n: Seq<char>) -> Option<int>
    decreases d.len(),
{
    if d.len() == 0 {
        None
    } else if d.last().0 == n {
        Some(d.len() - 1)
    } else {
        name_index(d.drop_last(), n)
    }
}

/// The fields as a map from name to value holds them: one field per name, with the value
/// last given, at the place the name first appeared.
pub open spec fn dedup_fields(fs: Seq<HeaderView>) -> Seq<HeaderView>
    decreases fs.len(),
{
    if fs.len() == 0 {
        Seq::empty()
    } else {
        let d = dedup_fields(fs.drop_last());
        match name_index(d, fs.last().0) {
            Some(i) => d.update(i, fs.last()),
            None => d.push(fs.last()),
        }
    }
}

/// The position `name_index` finds holds a field with that name.
pub proof fn lemma_name_index_bound(d: Seq<HeaderView>, n: Seq<char>)
    ensures
        name_index(d, n) matches Some(i) ==> 0 <= i < d.len() && d[i].0 == n,
    decreases d.len(),
{
    if d.len() > 0 && d.last().0 != n {
        lemma_name_index_bound(d.drop_last(), n);
    }
}

/// The position of the field named `n`, if any (see `name_index`).
fn find_name(d: &Vec<(String, String)>, n: &String) -> (r: Option<usize>)
    ensures
        r == match name_index(fields_view(d@), n@) { Some(i) => Some(i as usize), None => None::<usize> },
{
    let mut k: usize = d.len();
    assert(fields_view(d@).take(k as int) == fields_view(d@));
    while k > 0
        invariant
            k <= d@.len(),
            name_index(fields_view(d@), n@) == name_index(fields_view(d@).take(k as int), n@),
        decreases k,
    {
        assert(fields_view(d@).take(k as int).drop_last() == fields_view(d@).take(k - 1));
        assert(fields_view(d@).take(k as int).last() == (d@[k - 1].0@, d@[k - 1].1@));
        if str_eq(d[k - 1].0.as_str(), n.as_str()) {
            return Some(k - 1);
        }
        k -= 1;
    }
    None
}

/// The fields with one per name (see `dedup_fields`).
pub fn dedup_headers(fields: Vec<(String, String)>) -> (r: Vec<(String, String)>)
    ensures
        fields_view(r@) == dedup_fields(fields_view(fields@)),
{
    let mut out: Vec<(String, String)> = Vec::new();
    let mut i: usize = 0;
    while i < fields.len()
        invariant
            i <= fields@.len(),
            fields_view(out@) == dedup_fields(fields_view(fields@).take(i as int)),
        decreases fields@.len() - i,
    {
        let ghost fv = fields_view(fields@);
        assert(fv.take(i + 1).drop_last() == fv.take(i as int));
        assert(fv.take(i + 1).last() == (fields@[i as int].0@, fields@[i as int].1@));
        let n = fields[i].0.clone();
        let v = fields[i].1.clone();
        let out_len = out.len();
        match find_name(&out, &n) {
            Some(j) => {
                proof {
                    lemma_name_index_bound(fields_view(out@), n@);
                    assert(fields_view(out@).len() == out_len);
                    match name_index(fields_view(out@), n@) {
                        Some(i0) => { assert(i0 == j as int); },
                        None => { assert(false); },
                    }
                }
                assert(name_index(fields_view(out@), n@) == Some(j as int));
                let ghost before = out@;
                out.set(j, (n, v));
                assert(fields_view(out@) == fields_view(before).update(j as int, (fields@[i as int].0@, fields@[i as int].1@)));
                assert(fields_view(out@) == dedup_fields(fv.take(i + 1)));
            },
            None => {
                let ghost before = out@;
                out.push((n, v));
                assert(fields_view(out@) == fields_view(before).push((fields@[i as int].0@, fields@[i as int].1@)));
                assert(fields_view(out@) == dedup_fields(fv.take(i + 1)));
            },
        }
        i += 1;
    }
    assert(fields_view(fields@).take(i as int) == fields_view(fields@));
    out
}

/// The value of the last field named `n`, or empty.
pub open spec fn last_value(fs: Seq<HeaderView>, n: Seq<char>) -> Seq<char>
    decreases fs.len(),
{
    if fs.len() == 0 {
        Seq::empty()
    } else if fs.last().0 == n {
        fs.last().1
    } else {
        last_value(fs.drop_last(), n)
    }
}

/// Whether a field name is one of the request pseudo-headers the bridge reads.
pub open spec fn is_request_pseudo(n: Seq<char>) -> bool {
    n == ":method"@ || n == ":path"@ || n == ":authority"@ || n == ":scheme"@
}

/// The fields other than the request pseudo-headers, in order.
pub open spec fn regular_fields(fs: Seq<HeaderView>) -> Seq<HeaderView>
    decreases fs.len(),
{
    if fs.len() == 0 {
        Seq::empty()
    } else if is_request_pseudo(fs.last().0) {
        regular_fields(fs.drop_last())
    } else {
        regular_fields(fs.drop_last()).push(fs.last())
    }
}

/// What the decoder does with a block, for the callers that need it defined.
pub open spec fn decodes(d: HpackDecoder, data: Seq<u8>) -> BlockOutcome {
    block_decode(d.entries(), d.max(), data, 0, seq![])
}

/// The outcome of scanning pushed headers for CONNECT: the `:method` last seen, and whether
/// any `:method` was `CONNECT`; an authority field seen with CONNECT is refused.
pub open spec fn push_scan(hs: Seq<(String, String)>, method: Seq<char>, has_connect: bool) -> Result<bool, Seq<char>>
    decreases hs.len(),
{
    if hs.len() == 0 {
        Ok(has_connect)
    } else {
        let l = spec_str_to_lowercase(hs[0].0@);
        let m2 = if l == ":method"@ { hs[0].1@ } else { method };
        let c2 = if l == ":method"@ { has_connect || hs[0].1@ == "CONNECT"@ } else { has_connect };
        if (l == "authority"@ || l == ":authority"@) && (c2 || m2 == "CONNECT"@) {
            Err("PUSH_PROMISE: cannot use authority with CONNECT method"@)
        } else {
            push_scan(hs.drop_first(), m2, c2)
        }
    }
}

/// Whether pushed headers pass: no CONNECT method, and no authority with it.
pub open spec fn push_headers_check(hs: Seq<(String, String)>) -> Result<(), Seq<char>> {
    match push_scan(hs, Seq::empty(), false) {
        Err(e) => Err(e),
        Ok(true) => Err("PUSH_PROMISE: CONNECT method not allowed in server push"@),
        Ok(false) => Ok(()),
    }
}

/// The promised stream id of a PUSH_PROMISE payload, reserved bit cleared.
pub open spec fn promised_id(p: Seq<u8>) -> u32 {
    ((p[0] % 128) as nat * 16777216 + p[1] as nat * 65536 + p[2] as nat * 256 + p[3] as nat) as u32
}

/// The error a PUSH_PROMISE payload's promised id is refused with, if any.
pub open spec fn promise_error(p: Seq<u8>, parent: u32) -> Option<Seq<char>> {
    if p.len() < 4 {
        Some("PUSH_PROMISE frame too short"@)
    } else if promised_id(p) == 0 {
        Some("PUSH_PROMISE: promised stream ID cannot be 0"@)
    } else if promised_id(p) <= parent {
        Some("PUSH_PROMISE: promised stream ID "@ + decimal(promised_id(p) as nat) + " must be > parent "@
            + decimal(parent as nat))
    } else if promised_id(p) % 2 != 0 {
        Some("PUSH_PROMISE: promised stream ID "@ + decimal(promised_id(p) as nat)
            + " must be even (server-initiated)"@)
    } else {
        None
    }
}

impl H2ProxyBridge {
    /// Decodes a header block with the bridge's decoder (one field per name).
    fn decode_hpack_headers(&mut self, payload: &[u8]) -> (r: Result<Vec<(String, String)>, String>)
        requires
            old(self).wf(),
        ensures
            final(self).wf(),
            final(self).streams@ == old(self).streams@,
            final(self).flow_controller == old(self).flow_controller,
            final(self).push_manager == old(self).push_manager,
            final(self).config == old(self).config,
            final(self).next_stream_id == old(self).next_stream_id,
            match decodes(old(self).hpack_decoder, payload@) {
                BlockOutcome::Done { headers, entries, max } => r matches Ok(v) && fields_view(v@) == dedup_fields(headers)
                    && final(self).hpack_decoder.entries() == entries && final(self).hpack_decoder.max() == max,
                BlockOutcome::Fail { failure, entries, max } => r matches Err(m)
                    && m@ == "HPACK decode failed: "@ + failure.text()
                    && final(self).hpack_decoder.entries() == entries && final(self).hpack_decoder.max() == max,
            },
    {
        match self.hpack_decoder.decode(payload) {
            Ok(v) => Ok(v),
            Err(e) => {
                let mut m = String::from_str("HPACK decode failed: ");
                m.append(e.as_str());
                Err(m)
            },
        }
    }

    /// Takes a HEADERS frame's block for a stream: the pseudo-headers give the method and
    /// path (the last of each kind counts), the other fields (one per name) become the
    /// request headers, and END_STREAM completes the request. A block that does not decode
    /// leaves the streams alone; a missing method or path is an error after the stream's
    /// record was opened.
    pub fn handle_client_headers_with_hpack(&mut self, stream_id: u32, payload: &[u8], end_stream: bool) -> (r: Result<(), String>)
        requires
            old(self).wf(),
        ensures
            final(self).wf(),
            final(self).flow_controller == old(self).flow_controller,
            final(self).push_manager == old(self).push_manager,
            final(self).config == old(self).config,
            match decodes(old(self).hpack_decoder, payload@) {
                BlockOutcome::Fail { failure, .. } => (r matches Err(m) && m@ == "HPACK decode failed: "@ + failure.text())
                    && final(self).streams@ == old(self).streams@,
                BlockOutcome::Done { headers, .. } => ({
                    let d = dedup_fields(headers);
                    let method = last_value(d, ":method"@);
                    let path = last_value(d, ":path"@);
                    let had = old(self).streams@.contains_key(stream_id);
                    let s1 = old(self).streams@[stream_id];
                    let s2 = final(self).streams@[stream_id];
                    &&& final(self).streams@.dom() == old(self).streams@.dom().insert(stream_id)
                    &&& forall|k: u32| k != stream_id && #[trigger] old(self).streams@.contains_key(k)
                        ==> final(self).streams@[k] == old(self).streams@[k]
                    &&& method.len() == 0 ==> (r matches Err(m) && m@ == "Missing :method pseudo-header"@)
                    &&& method.len() > 0 && path.len() == 0 ==> (r matches Err(m) && m@ == "Missing :path pseudo-header"@)
                    &&& (method.len() == 0 || path.len() == 0) ==> (if had { s2 == s1 } else { fresh_stream(s2, stream_id) })
                    &&& method.len() > 0 && path.len() > 0 ==> r is Ok && s2.method@ == method && s2.path@ == path
                        && fields_view(s2.headers@) == regular_fields(d) && s2.request_complete == end_stream
                        && (had ==> s2 == StreamState { method: s2.method, path: s2.path, headers: s2.headers,
                            request_complete: s2.request_complete, ..s1 })
                        && (!had ==> s2.stream_id == stream_id && s2.request_body@.len() == 0 && !s2.response_sent
                            && s2.response_status == 0 && s2.response_headers@.len() == 0 && s2.response_body@.len() == 0
                            && s2.window_size == 65535)
                }),
            },
    {
        let decoded = self.decode_hpack_headers(payload)?;
        let headers = decoded;
        let mut s = match self.streams.remove(&stream_id) {
            Some(s) => s,
            None => StreamState::new(stream_id),
        };
        let ghost s1 = s;
        let mut method = String::new();
        let mut path = String::new();
        let mut regular: Vec<(String, String)> = Vec::new();
        let ghost hv = fields_view(headers@);
        let mut i: usize = 0;
        while i < headers.len()
            invariant
                i <= headers@.len(),
                hv == fields_view(headers@),
                method@ == last_value(hv.take(i as int), ":method"@),
                path@ == last_value(hv.take(i as int), ":path"@),
                fields_view(regular@) == regular_fields(hv.take(i as int)),
            decreases headers@.len() - i,
        {
            assert(hv.take(i + 1).drop_last() == hv.take(i as int));
            assert(hv.take(i + 1).last() == (headers@[i as int].0@, headers@[i as int].1@));
            proof {
                reveal_strlit(":method");
                reveal_strlit(":path");
                assert(":method"@[1] != ":path"@[1]);
            }
            let n = headers[i].0.as_str();
            if str_eq(n, ":method") {
                method = headers[i].1.clone();
            } else if str_eq(n, ":path") {
                path = headers[i].1.clone();
            } else if str_eq(n, ":authority") || str_eq(n, ":scheme") {
            } else {
                let ghost before = regular@;
                regular.push((headers[i].0.clone(), headers[i].1.clone()));
                assert(fields_view(regular@) == fields_view(before).push((headers@[i as int].0@, headers@[i as int].1@)));
            }
            i += 1;
        }
        assert(hv.take(i as int) == hv);
        if method.as_str().is_empty() {
            self.streams.insert(stream_id, s);
            return Err(String::from_str("Missing :method pseudo-header"));
        }
        if path.as_str().is_empty() {
            self.streams.insert(stream_id, s);
            return Err(String::from_str("Missing :path pseudo-header"));
        }
        s.method = method;
        s.path = path;
        s.headers = regular;
        s.request_complete = end_stream;
        self.streams.insert(stream_id, s);
        Ok(())
    }
}

/// The message a push registration is refused with, if any: a promised id already held,
/// one not above the parent's, or an odd one.
pub open spec fn register_failure(pm: Seq<ServerPush>, id: u32, parent: u32) -> Option<Seq<char>> {
    if has_promised(pm, id) {
        Some("Promised stream "@ + decimal(id as nat) + " already exists"@)
    } else if id <= parent {
        Some("Invalid promised stream ID: "@ + decimal(id as nat) + " (must be > parent "@ + decimal(parent as nat) + ")"@)
    } else if id % 2 != 0 {
        Some("Promised stream ID must be even (server-initiated), got "@ + decimal(id as nat))
    } else {
        None
    }
}

/// `pm2` is `pm` with a new push promised on `id` by `parent`, holding nothing yet.
pub open spec fn push_registered(pm: Seq<ServerPush>, pm2: Seq<ServerPush>, id: u32, parent: u32) -> bool {
    &&& pm2.len() == pm.len() + 1
    &&& pm2.take(pm.len() as int) == pm
    &&& pm2.last().promised_stream_id == id
    &&& pm2.last().parent_stream_id == parent
    &&& pm2.last().state == PushState::Promised
    &&& pm2.last().headers@.len() == 0
    &&& pm2.last().body@.len() == 0
    &&& pm2.last().total_size is None
}

fn prefixed(prefix: &str, e: String) -> (r: String)
    ensures
        r@ == prefix@ + e@,
{
    let mut m = String::from_str(prefix);
    m.append(e.as_str());
    m
}

impl H2ProxyBridge {
    /// Registers a push promised on `parent_stream_id` (see `register_failure`).
    pub fn register_server_push(&mut self, promised_stream_id: u32, parent_stream_id: u32) -> (r: Result<(), String>)
        requires
            old(self).wf(),
            old(self).push_manager.total() < u64::MAX,
        ensures
            final(self).wf(),
            final(self).streams@ == old(self).streams@,
            final(self).flow_controller == old(self).flow_controller,
            final(self).hpack_decoder == old(self).hpack_decoder,
            final(self).config == old(self).config,
            final(self).push_manager.completed() == old(self).push_manager.completed(),
            final(self).push_manager.rejected() == old(self).push_manager.rejected(),
            match register_failure(old(self).push_manager@, promised_stream_id, parent_stream_id) {
                Some(e) => (r matches Err(m) && m@ == "Server push registration failed: "@ + e)
                    && final(self).push_manager@ == old(self).push_manager@
                    && final(self).push_manager.total() == old(self).push_manager.total(),
                None => r is Ok && push_registered(old(self).push_manager@, final(self).push_manager@,
                    promised_stream_id, parent_stream_id)
                    && final(self).push_manager.total() == old(self).push_manager.total() + 1,
            },
    {
        match self.push_manager.register_push(promised_stream_id, parent_stream_id) {
            Ok(()) => {
                assert(self.push_manager@.take(old(self).push_manager@.len() as int) == old(self).push_manager@);
                Ok(())
            },
            Err(e) => Err(prefixed("Server push registration failed: ", e)),
        }
    }

    /// Stores headers on a registered push.
    pub fn add_push_headers(&mut self, promised_stream_id: u32, headers: Vec<(String, String)>) -> (r: Result<(), String>)
        requires
            old(self).wf(),
        ensures
            final(self).wf(),
            final(self).streams@ == old(self).streams@,
            final(self).flow_controller == old(self).flow_controller,
            final(self).hpack_decoder == old(self).hpack_decoder,
            final(self).config == old(self).config,
            final(self).push_manager.total() == old(self).push_manager.total(),
            final(self).push_manager.completed() == old(self).push_manager.completed(),
            final(self).push_manager.rejected() == old(self).push_manager.rejected(),
            !has_promised(old(self).push_manager@, promised_stream_id) ==> (r matches Err(m)
                && m@ == "Failed to add push headers: "@ + not_found_message(promised_stream_id))
                && final(self).push_manager@ == old(self).push_manager@,
            has_promised(old(self).push_manager@, promised_stream_id) ==> r is Ok && exists|i: int|
                0 <= i < old(self).push_manager@.len() && old(self).push_manager@[i].promised_stream_id == promised_stream_id
                && final(self).push_manager@ == old(self).push_manager@.update(i, final(self).push_manager@[i])
                && final(self).push_manager@[i].headers@ == headers@
                && final(self).push_manager@[i].state == PushState::HeadersReceived
                && final(self).push_manager@[i].body@ == old(self).push_manager@[i].body@
                && final(self).push_manager@[i].promised_stream_id == promised_stream_id
                && final(self).push_manager@[i].parent_stream_id == old(self).push_manager@[i].parent_stream_id,
    {
        match self.push_manager.add_headers_to_push(promised_stream_id, headers) {
            Ok(()) => Ok(()),
            Err(e) => Err(prefixed("Failed to add push headers: ", e)),
        }
    }

    /// Appends body bytes to a registered push that takes them.
    pub fn add_push_body_data(&mut self, promised_stream_id: u32, data: &[u8]) -> (r: Result<(), String>)
        requires
            old(self).wf(),
        ensures
            final(self).wf(),
            final(self).streams@ == old(self).streams@,
            final(self).flow_controller == old(self).flow_controller,
            final(self).hpack_decoder == old(self).hpack_decoder,
            final(self).config == old(self).config,
            final(self).push_manager.total() == old(self).push_manager.total(),
            final(self).push_manager.completed() == old(self).push_manager.completed(),
            final(self).push_manager.rejected() == old(self).push_manager.rejected(),
            r matches Err(m) ==> "Failed to add push body data: "@.is_prefix_of(m@),
            !has_promised(old(self).push_manager@, promised_stream_id) ==> (r matches Err(m)
                && m@ == "Failed to add push body data: "@ + not_found_message(promised_stream_id))
                && final(self).push_manager@ == old(self).push_manager@,
            has_promised(old(self).push_manager@, promised_stream_id) ==> exists|i: int|
                0 <= i < old(self).push_manager@.len() && old(self).push_manager@[i].promised_stream_id == promised_stream_id
                && final(self).push_manager@ == old(self).push_manager@.update(i, final(self).push_manager@[i])
                && (r is Ok <==> (old(self).push_manager@[i].state == PushState::HeadersReceived
                    || old(self).push_manager@[i].state == PushState::ReceivingData))
                && (r is Ok ==> final(self).push_manager@[i].body@ == old(self).push_manager@[i].body@ + data@)
                && (r is Err ==> final(self).push_manager@[i] == old(self).push_manager@[i]),
    {
        match self.push_manager.add_body_data(promised_stream_id, data) {
            Ok(()) => Ok(()),
            Err(e) => Err(prefixed("Failed to add push body data: ", e)),
        }
    }

    /// Marks a registered push completed.
    pub fn mark_push_completed(&mut self, promised_stream_id: u32) -> (r: Result<(), String>)
        requires
            old(self).wf(),
            old(self).push_manager.completed() < u64::MAX,
        ensures
            final(self).wf(),
            final(self).streams@ == old(self).streams@,
            final(self).flow_controller == old(self).flow_controller,
            final(self).hpack_decoder == old(self).hpack_decoder,
            final(self).config == old(self).config,
            final(self).push_manager.total() == old(self).push_manager.total(),
            final(self).push_manager.rejected() == old(self).push_manager.rejected(),
            !has_promised(old(self).push_manager@, promised_stream_id) ==> (r matches Err(m)
                && m@ == "Failed to mark push completed: "@ + not_found_message(promised_stream_id))
                && final(self).push_manager@ == old(self).push_manager@
                && final(self).push_manager.completed() == old(self).push_manager.completed(),
            has_promised(old(self).push_manager@, promised_stream_id) ==> r is Ok
                && final(self).push_manager.completed() == old(self).push_manager.completed() + 1
                && exists|i: int| 0 <= i < old(self).push_manager@.len()
                    && old(self).push_manager@[i].promised_stream_id == promised_stream_id
                    && final(self).push_manager@ == old(self).push_manager@.update(i,
                        ServerPush { state: PushState::Completed, ..old(self).push_manager@[i] }),
    {
        match self.push_manager.mark_push_completed(promised_stream_id) {
            Ok(()) => Ok(()),
            Err(e) => Err(prefixed("Failed to mark push completed: ", e)),
        }
    }

    /// Marks a registered push rejected.
    pub fn mark_push_rejected(&mut self, promised_stream_id: u32) -> (r: Result<(), String>)
        requires
            old(self).wf(),
            old(self).push_manager.rejected() < u64::MAX,
        ensures
            final(self).wf(),
            final(self).streams@ == old(self).streams@,
            final(self).flow_controller == old(self).flow_controller,
            final(self).hpack_decoder == old(self).hpack_decoder,
            final(self).config == old(self).config,
            final(self).push_manager.total() == old(self).push_manager.total(),
            final(self).push_manager.completed() == old(self).push_manager.completed(),
            !has_promised(old(self).push_manager@, promised_stream_id) ==> (r matches Err(m)
                && m@ == "Failed to mark push rejected: "@ + not_found_message(promised_stream_id))
                && final(self).push_manager@ == old(self).push_manager@
                && final(self).push_manager.rejected() == old(self).push_manager.rejected(),
            has_promised(old(self).push_manager@, promised_stream_id) ==> r is Ok
                && final(self).push_manager.rejected() == old(self).push_manager.rejected() + 1
                && exists|i: int| 0 <= i < old(self).push_manager@.len()
                    && old(self).push_manager@[i].promised_stream_id == promised_stream_id
                    && final(self).push_manager@ == old(self).push_manager@.update(i,
                        ServerPush { state: PushState::Rejected, ..old(self).push_manager@[i] }),
    {
        match self.push_manager.mark_push_rejected(promised_stream_id) {
            Ok(()) => Ok(()),
            Err(e) => Err(prefixed("Failed to mark push rejected: ", e)),
        }
    }

    /// Whether a push is registered for the promised stream.
    pub fn has_push(&self, promised_stream_id: u32) -> (r: bool)
        ensures
            r == has_promised(self.push_manager@, promised_stream_id),
    {
        self.push_manager.has_push(promised_stream_id)
    }

    /// The number of pushes held.
    pub fn active_push_count(&self) -> (r: usize)
        ensures
            r == self.push_manager@.len(),
    {
        self.push_manager.active_push_count()
    }

    /// The pushes registered, completed and rejected, and those neither completed nor
    /// rejected.
    pub fn push_stats(&self) -> (r: (u64, u64, u64, usize))
        requires
            self.push_manager.completed() + self.push_manager.rejected() <= self.push_manager.total(),
        ensures
            r == (self.push_manager.total(), self.push_manager.completed(), self.push_manager.rejected(),
                (self.push_manager.total() - self.push_manager.completed() - self.push_manager.rejected()) as usize),
    {
        let st = self.push_manager.get_stats();
        (st.total_pushes, st.completed_pushes, st.rejected_pushes, st.active_pushes)
    }

    /// Takes a PUSH_PROMISE payload on `parent_stream_id`: the promised id must be nonzero,
    /// above the parent's and even; the push is registered, and the header block that
    /// follows, decoded (one field per name), becomes its headers.
    pub fn parse_push_promise_frame(&mut self, frame_data: &[u8], parent_stream_id: u32) -> (r: Result<(), String>)
        requires
            old(self).wf(),
            old(self).push_manager.total() < u64::MAX,
        ensures
            final(self).wf(),
            final(self).streams@ == old(self).streams@,
            final(self).flow_controller == old(self).flow_controller,
            final(self).config == old(self).config,
            match promise_error(frame_data@, parent_stream_id) {
                Some(e) => (r matches Err(m) && m@ == e) && final(self).push_manager@ == old(self).push_manager@,
                None => if has_promised(old(self).push_manager@, promised_id(frame_data@)) {
                    (r matches Err(m) && m@ == "Server push registration failed: "@ + ("Promised stream "@
                        + decimal(promised_id(frame_data@) as nat) + " already exists"@))
                        && final(self).push_manager@ == old(self).push_manager@
                } else {
                    match decodes(old(self).hpack_decoder, frame_data@.skip(4)) {
                        BlockOutcome::Fail { failure, .. } => (r matches Err(m)
                            && m@ == "HPACK decode failed: "@ + failure.text())
                            && push_registered(old(self).push_manager@, final(self).push_manager@,
                                promised_id(frame_data@), parent_stream_id),
                        BlockOutcome::Done { headers, .. } => r is Ok
                            && final(self).push_manager@.len() == old(self).push_manager@.len() + 1
                            && final(self).push_manager@.take(old(self).push_manager@.len() as int) == old(self).push_manager@
                            && final(self).push_manager@.last().promised_stream_id == promised_id(frame_data@)
                            && final(self).push_manager@.last().parent_stream_id == parent_stream_id
                            && final(self).push_manager@.last().state == PushState::HeadersReceived
                            && fields_view(final(self).push_manager@.last().headers@) == dedup_fields(headers)
                            && final(self).push_manager@.last().body@.len() == 0,
                    }
                },
            },
    {
        if frame_data.len() < 4 {
            return Err(String::from_str("PUSH_PROMISE frame too short"));
        }
        let raw0 = frame_data[0];
        let b0 = raw0 & 0x7f;
        assert(b0 == raw0 % 128) by (bit_vector)
            requires b0 == raw0 & 0x7f;
        let promised: u32 = (b0 as u32) * 16777216 + (frame_data[1] as u32) * 65536 + (frame_data[2] as u32) * 256
            + (frame_data[3] as u32);
        assert(promised == promised_id(frame_data@));
        if promised == 0 {
            return Err(String::from_str("PUSH_PROMISE: promised stream ID cannot be 0"));
        }
        if promised <= parent_stream_id {
            let mut m = String::from_str("PUSH_PROMISE: promised stream ID ");
            push_decimal(&mut m, promised as u64);
            m.append(" must be > parent ");
            push_decimal(&mut m, parent_stream_id as u64);
            return Err(m);
        }
        if promised % 2 != 0 {
            let mut m = String::from_str("PUSH_PROMISE: promised stream ID ");
            push_decimal(&mut m, promised as u64);
            m.append(" must be even (server-initiated)");
            return Err(m);
        }
        self.register_server_push(promised, parent_stream_id)?;
        let ghost registered = self.push_manager@;
        let mut block: Vec<u8> = Vec::new();
        let mut i: usize = 4;
        while i < frame_data.len()
            invariant
                4 <= i <= frame_data@.len(),
                block@ == frame_data@.subrange(4, i as int),
            decreases frame_data@.len() - i,
        {
            block.push(frame_data[i]);
            assert(frame_data@.subrange(4, i + 1) == frame_data@.subrange(4, i as int).push(frame_data@[i as int]));
            i += 1;
        }
        assert(block@ == frame_data@.skip(4));
        let decoded = self.decode_hpack_headers(block.as_slice())?;
        let headers = decoded;
        let ghost hv = fields_view(headers@);
        assert(has_promised(self.push_manager@, promised)) by {
            assert(self.push_manager@[self.push_manager@.len() - 1].promised_stream_id == promised);
        }
        let ghost hs = headers@;
        self.add_push_headers(promised, headers)?;
        proof {
            let i = choose|i: int| 0 <= i < registered.len() && registered[i].promised_stream_id == promised
                && self.push_manager@ == registered.update(i, self.push_manager@[i])
                && self.push_manager@[i].headers@ == hs
                && self.push_manager@[i].state == PushState::HeadersReceived
                && self.push_manager@[i].body@ == registered[i].body@
                && self.push_manager@[i].promised_stream_id == promised
                && self.push_manager@[i].parent_stream_id == registered[i].parent_stream_id;
            if i < registered.len() - 1 {
                assert(registered.take(old(self).push_manager@.len() as int)[i] == old(self).push_manager@[i]);
                assert(has_promised(old(self).push_manager@, promised));
            }
            assert(i == registered.len() - 1);
            assert(self.push_manager@.take(old(self).push_manager@.len() as int) == registered.take(old(self).push_manager@.len() as int));
        }
        Ok(())
    }

    /// Checks a registered push's headers (see `push_headers_check`); an unknown push is an
    /// error.
    pub fn validate_push_promise_headers(&self, promised_stream_id: u32) -> (r: Result<(), String>)
        ensures
            !has_promised(self.push_manager@, promised_stream_id) ==> (r matches Err(m)
                && m@ == "PUSH_PROMISE: promised stream "@ + decimal(promised_stream_id as nat) + " not found"@),
            has_promised(self.push_manager@, promised_stream_id) ==> exists|i: int|
                0 <= i < self.push_manager@.len() && self.push_manager@[i].promised_stream_id == promised_stream_id
                && match push_headers_check(self.push_manager@[i].headers@) {
                    Ok(()) => r is Ok,
                    Err(e) => r matches Err(m) && m@ == e,
                },
    {
        match self.push_manager.get_push(promised_stream_id) {
            Some(push) => {
                let ghost pi = choose|i: int| 0 <= i < self.push_manager@.len() && self.push_manager@[i] == *push;
                assert(self.push_manager@[pi] == *push);
                let r = check_push_headers(&push.headers);
                assert(self.push_manager@[pi].headers@ == push.headers@);
                r
            },
            None => {
                let mut m = String::from_str("PUSH_PROMISE: promised stream ");
                push_decimal(&mut m, promised_stream_id as u64);
                m.append(" not found");
                Err(m)
            },
        }
    }
}

/// Checks pushed headers (see `push_headers_check`).
fn check_push_headers(hs: &Vec<(String, String)>) -> (r: Result<(), String>)
    ensures
        match push_headers_check(hs@) {
            Ok(()) => r is Ok,
            Err(e) => r matches Err(m) && m@ == e,
        },
{
    let mut method = String::new();
    let mut has_connect = false;
    let mut i: usize = 0;
    assert(hs@.skip(0) == hs@);
    while i < hs.len()
        invariant
            i <= hs@.len(),
            push_scan(hs@, Seq::empty(), false) == push_scan(hs@.skip(i as int), method@, has_connect),
        decreases hs@.len() - i,
    {
        assert(hs@.skip(i as int)[0] == hs@[i as int]);
        assert(hs@.skip(i as int).drop_first() == hs@.skip(i + 1));
        let l = str_to_lowercase(hs[i].0.as_str());
        if str_eq(l.as_str(), ":method") {
            method = hs[i].1.clone();
            if str_eq(hs[i].1.as_str(), "CONNECT") {
                has_connect = true;
            }
        }
        if str_eq(l.as_str(), "authority") || str_eq(l.as_str(), ":authority") {
            if has_connect || str_eq(method.as_str(), "CONNECT") {
                return Err(String::from_str("PUSH_PROMISE: cannot use authority with CONNECT method"));
            }
        }
        i += 1;
    }
    if has_connect {
        return Err(String::from_str("PUSH_PROMISE: CONNECT method not allowed in server push"));
    }
    Ok(())
}

/// What the bridge does with a frame from the client, by its type.
#[derive(Debug, Clone, Copy, PartialEq, Eq, Structural)]
pub enum ClientFrameAction {
    /// HEADERS: read the request head.
    Headers,
    /// DATA: add to the request body.
    Data,
    /// SETTINGS: acknowledge.
    SettingsAck,
    /// WINDOW_UPDATE and every other type: nothing.
    Ignore,
}

/// The action for a client frame of this type.
pub fn client_frame_action(frame_type: u8) -> (r: ClientFrameAction)
    ensures
        r == (if frame_type == 1 {
            ClientFrameAction::Headers
        } else if frame_type == 0 {
            ClientFrameAction::Data
        } else if frame_type == 4 {
            ClientFrameAction::SettingsAck
        } else {
            ClientFrameAction::Ignore
        }),
{
    if frame_type == 1 {
        ClientFrameAction::Headers
    } else if frame_type == 0 {
        ClientFrameAction::Data
    } else if frame_type == 4 {
        ClientFrameAction::SettingsAck
    } else {
        ClientFrameAction::Ignore
    }
}

/// The text of the error `str::parse::<u32>` reports for `s`.
pub uninterp spec fn u32_error_text(s: Seq<char>) -> Seq<char>;

/// The message of `str::parse::<u32>`'s error for `s`.
///
/// Trusted: the message is what `u32_error_text` names, a function of the text.
#[verifier::external_body]
fn parse_u32_error(s: &str) -> (r: String)
    ensures
        r@ == u32_error_text(s@),
{
    match s.parse::<u32>() {
        Ok(_) => String::new(),
        Err(e) => e.to_string(),
    }
}

/// What `str::parse::<u32>` accepts: as `parse_u64_spec`, within 32 bits.
pub open spec fn parse_u32_spec(s: Seq<char>) -> Option<u32> {
    match parse_u64_spec(s) {
        Some(n) => if n <= u32::MAX { Some(n as u32) } else { None },
        None => None,
    }
}

/// The header pair of a response line: the trimmed, lowercased text before its first `:`
/// and the trimmed text after it.
pub open spec fn response_pair(line: Seq<char>) -> Option<HeaderView> {
    match first_occurrence(line, ":"@) {
        Some(i) => Some((spec_str_to_lowercase(trim_spec(line.take(i))), trim_spec(line.skip(i + 1)))),
        None => None,
    }
}

/// The header pairs of response lines, up to the first empty line.
pub open spec fn response_fields(ls: Seq<Seq<char>>) -> Seq<HeaderView>
    decreases ls.len(),
{
    if ls.len() == 0 || ls[0].len() == 0 {
        Seq::empty()
    } else {
        match response_pair(ls[0]) {
            Some(p) => seq![p] + response_fields(ls.drop_first()),
            None => response_fields(ls.drop_first()),
        }
    }
}

/// What a proxy's reply gives: its status (the second word of the first line) and its
/// header pairs, or why it cannot be read.
pub open spec fn proxy_reply(data: Seq<u8>) -> Result<(u32, Seq<HeaderView>), Seq<char>> {
    let ls = lines_spec(utf8_lossy_text(data));
    if data.len() == 0 {
        Err("Proxy closed connection"@)
    } else if ls.len() == 0 {
        Err("Empty response from proxy"@)
    } else if words_spec(ls[0]).len() < 2 {
        Err("Invalid status line: "@ + ls[0])
    } else {
        match parse_u32_spec(words_spec(ls[0])[1]) {
            Some(st) => Ok((st, response_fields(ls.drop_first()))),
            None => Err(u32_error_text(words_spec(ls[0])[1])),
        }
    }
}

impl H2ProxyBridge {
    /// Records the proxy's reply to a stream's request (see `proxy_reply`): its status and
    /// headers; a reply that cannot be read, or an unknown stream, is an error and changes
    /// nothing.
    pub fn apply_proxy_response(&mut self, stream_id: u32, data: &[u8]) -> (r: Result<(), String>)
        ensures
            final(self).hpack_decoder == old(self).hpack_decoder,
            final(self).flow_controller == old(self).flow_controller,
            final(self).push_manager == old(self).push_manager,
            final(self).config == old(self).config,
            final(self).next_stream_id == old(self).next_stream_id,
            match proxy_reply(data@) {
                Err(e) => (r matches Err(m) && m@ == e) && final(self).streams@ == old(self).streams@,
                Ok((st, hs)) => if old(self).streams@.contains_key(stream_id) {
                    r is Ok && final(self).streams@ == old(self).streams@.insert(stream_id, StreamState {
                        response_status: st,
                        response_headers: final(self).streams@[stream_id].response_headers,
                        ..old(self).streams@[stream_id]
                    }) && fields_view(final(self).streams@[stream_id].response_headers@) == hs
                } else {
                    (r matches Err(m) && m@ == stream_missing(stream_id)) && final(self).streams@ == old(self).streams@
                },
            },
    {
        if data.len() == 0 {
            return Err(String::from_str("Proxy closed connection"));
        }
        let text = utf8_lossy(data);
        let ls = lines(text.as_str());
        if ls.len() == 0 {
            return Err(String::from_str("Empty response from proxy"));
        }
        assert(views(ls@)[0] == ls@[0]@);
        let words = split_whitespace(ls[0].as_str());
        if words.len() < 2 {
            return Err(concat_str("Invalid status line: ", ls[0].as_str()));
        }
        assert(views(words@)[1] == words@[1]@);
        let status: u32 = match parse_u64(words[1].as_str()) {
            Some(n) => if n <= 4294967295 {
                n as u32
            } else {
                return Err(parse_u32_error(words[1].as_str()));
            },
            None => {
                return Err(parse_u32_error(words[1].as_str()));
            },
        };
        let mut s = match self.streams.remove(&stream_id) {
            Some(s) => s,
            None => {
                assert(self.streams@ =~= old(self).streams@);
                return Err(stream_missing_error(stream_id));
            },
        };
        let ghost lv = views(ls@);
        let ghost rest = lv.drop_first();
        let mut headers: Vec<(String, String)> = Vec::new();
        let mut i: usize = 1;
        let mut stop = false;
        assert(rest.skip(0) == rest);
        while i < ls.len() && !stop
            invariant
                1 <= i <= ls@.len(),
                lv == views(ls@),
                rest == lv.drop_first(),
                !stop ==> response_fields(rest) == fields_view(headers@) + response_fields(rest.skip(i - 1)),
                stop ==> response_fields(rest) == fields_view(headers@),
            decreases ls@.len() - i, if stop { 0int } else { 1int },
        {
            proof { reveal_strlit(":"); }
            assert(rest.skip(i - 1)[0] == ls@[i as int]@);
            assert(rest.skip(i - 1).drop_first() == rest.skip(i as int));
            let line = ls[i].as_str();
            if line.is_empty() {
                assert(response_fields(rest.skip(i - 1)) == Seq::<HeaderView>::empty());
                assert(fields_view(headers@) + Seq::<HeaderView>::empty() == fields_view(headers@));
                stop = true;
            } else {
                match find_str(line, ":") {
                    Some(c) => {
                        assert(occurs_at(line@, ":"@, c as int));
                        assert(":"@.len() == 1);
                        let v = chars_of(line);
                        let n = v.len();
                        let name_text = string_of_chars(&v, 0, c);
                        let value_text = string_of_chars(&v, c + 1, n);
                        let name = str_to_lowercase(trim(name_text.as_str()).as_str());
                        let value = trim(value_text.as_str());
                        assert(response_pair(line@) == Some((name@, value@)));
                        let ghost before = headers@;
                        headers.push((name, value));
                        assert(fields_view(headers@) == fields_view(before).push((name@, value@)));
                        assert(fields_view(headers@) + response_fields(rest.skip(i as int))
                            == fields_view(before) + (seq![(name@, value@)] + response_fields(rest.skip(i as int))));
                    },
                    None => {
                        assert(response_pair(line@) is None);
                    },
                }
                i += 1;
            }
        }
        proof {
            if !stop {
                assert(rest.skip(i - 1).len() == 0);
                assert(fields_view(headers@) + Seq::<HeaderView>::empty() == fields_view(headers@));
            }
        }
        s.response_status = status;
        s.response_headers = headers;
        self.streams.insert(stream_id, s);
        Ok(())
    }
}

} // verus!
