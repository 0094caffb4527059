use vstd::prelude::*;
use std::collections::HashMap;
use crate::text::{decimal, push_decimal};

verus! {

broadcast use vstd::std_specs::hash::group_hash_axioms;

/// How a client stream is forwarded upstream.
#[derive(Debug, Clone)]
pub struct ForwardingState {
    pub client_stream_id: u32,
    pub upstream_stream_id: u32,
    pub request_complete: bool,
    pub response_complete: bool,
}

/// Buffers requests and responses of the streams forwarded to an upstream connection.
pub struct UpstreamWiring {
    pub forwarding_state: HashMap<u32, ForwardingState>,
    pub request_headers: HashMap<u32, HashMap<String, String>>,
    pub request_bodies: HashMap<u32, Vec<u8>>,
    pub response_buffers: HashMap<u32, Vec<u8>>,
    pub total_requests_forwarded: u64,
    pub total_responses_received: u64,
}

/// The bytes of each buffer.
pub open spec fn buffers_view(m: Map<u32, Vec<u8>>) -> Map<u32, Seq<u8>> {
    m.map_values(|b: Vec<u8>| b@)
}

/// A map with `k` bound to `old` (or nothing) followed by `more`.
pub open spec fn appended(m: Map<u32, Seq<u8>>, k: u32, more: Seq<u8>) -> Map<u32, Seq<u8>> {
    m.insert(k, if m.contains_key(k) { m[k] + more } else { more })
}

/// The message for a stream without request headers.
pub open spec fn no_headers_message(stream_id: u32) -> Seq<char> {
    "No headers for stream "@ + decimal(stream_id as nat)
}

/// The message for a stream without a response buffer.
pub open spec fn no_response_message(stream_id: u32) -> Seq<char> {
    "No response buffer for stream "@ + decimal(stream_id as nat)
}

impl UpstreamWiring {
    /// Nothing registered or buffered.
    pub fn new() -> (w: Self)
        ensures
            w.forwarding_state@ == Map::<u32, ForwardingState>::empty(),
            w.request_headers@ == Map::<u32, HashMap<String, String>>::empty(),
            buffers_view(w.request_bodies@) == Map::<u32, Seq<u8>>::empty(),
            buffers_view(w.response_buffers@) == Map::<u32, Seq<u8>>::empty(),
            w.total_requests_forwarded == 0,
            w.total_responses_received == 0,
    {
        let w = UpstreamWiring {
            forwarding_state: HashMap::new(),
            request_headers: HashMap::new(),
            request_bodies: HashMap::new(),
            response_buffers: HashMap::new(),
            total_requests_forwarded: 0,
            total_responses_received: 0,
        };
        assert(buffers_view(w.request_bodies@) =~= Map::<u32, Seq<u8>>::empty());
        assert(buffers_view(w.response_buffers@) =~= Map::<u32, Seq<u8>>::empty());
        w
    }

    /// Registers a stream, forwarded to the upstream stream of the same id, nothing complete;
    /// an earlier registration of the stream is replaced.
    pub fn register_stream(&mut self, stream_id: u32)
        ensures
            final(self).forwarding_state@ == old(self).forwarding_state@.insert(stream_id, ForwardingState {
                client_stream_id: stream_id,
                upstream_stream_id: stream_id,
                request_complete: false,
                response_complete: false,
            }),
            final(self).request_headers@ == old(self).request_headers@,
            final(self).request_bodies@ == old(self).request_bodies@,
            final(self).response_buffers@ == old(self).response_buffers@,
            final(self).total_requests_forwarded == old(self).total_requests_forwarded,
            final(self).total_responses_received == old(self).total_responses_received,
    {
        self.forwarding_state.insert(stream_id, ForwardingState {
            client_stream_id: stream_id,
            upstream_stream_id: stream_id,
            request_complete: false,
            response_complete: false,
        });
    }

    /// Stores a stream's request headers, replacing earlier ones.
    pub fn buffer_request_headers(&mut self, stream_id: u32, headers: HashMap<String, String>)
        ensures
            final(self).request_headers@ == old(self).request_headers@.insert(stream_id, headers),
            final(self).forwarding_state@ == old(self).forwarding_state@,
            final(self).request_bodies@ == old(self).request_bodies@,
            final(self).response_buffers@ == old(self).response_buffers@,
            final(self).total_requests_forwarded == old(self).total_requests_forwarded,
            final(self).total_responses_received == old(self).total_responses_received,
    {
        self.request_headers.insert(stream_id, headers);
    }

    /// Appends a chunk to a stream's request body.
    pub fn buffer_request_body(&mut self, stream_id: u32, mut chunk: Vec<u8>) -> (r: Result<(), String>)
        ensures
            r is Ok,
            buffers_view(final(self).request_bodies@) == appended(buffers_view(old(self).request_bodies@), stream_id, chunk@),
            final(self).forwarding_state@ == old(self).forwarding_state@,
            final(self).request_headers@ == old(self).request_headers@,
            final(self).response_buffers@ == old(self).response_buffers@,
            final(self).total_requests_forwarded == old(self).total_requests_forwarded,
            final(self).total_responses_received == old(self).total_responses_received,
    {
        let ghost before = buffers_view(self.request_bodies@);
        let ghost added = chunk@;
        let mut body = match self.request_bodies.remove(&stream_id) {
            Some(b) => b,
            None => Vec::new(),
        };
        body.append(&mut chunk);
        self.request_bodies.insert(stream_id, body);
        assert(buffers_view(self.request_bodies@) =~= appended(before, stream_id, added));
        Ok(())
    }

    /// Marks a registered stream's request complete; an unregistered stream is left alone.
    pub fn mark_request_complete(&mut self, stream_id: u32) -> (r: Result<(), String>)
        ensures
            r is Ok,
            final(self).forwarding_state@ == if old(self).forwarding_state@.contains_key(stream_id) {
                old(self).forwarding_state@.insert(stream_id, ForwardingState {
                    request_complete: true,
                    ..old(self).forwarding_state@[stream_id]
                })
            } else {
                old(self).forwarding_state@
            },
            final(self).request_headers@ == old(self).request_headers@,
            final(self).request_bodies@ == old(self).request_bodies@,
            final(self).response_buffers@ == old(self).response_buffers@,
            final(self).total_requests_forwarded == old(self).total_requests_forwarded,
            final(self).total_responses_received == old(self).total_responses_received,
    {
        let ghost before = self.forwarding_state@;
        match self.forwarding_state.remove(&stream_id) {
            Some(mut state) => {
                state.request_complete = true;
                self.forwarding_state.insert(stream_id, state);
            },
            None => {
                assert(self.forwarding_state@ =~= before);
            },
        }
        Ok(())
    }

    /// Marks a registered stream's response complete; an unregistered stream is left alone.
    pub fn mark_response_complete(&mut self, stream_id: u32) -> (r: Result<(), String>)
        ensures
            r is Ok,
            final(self).forwarding_state@ == if old(self).forwarding_state@.contains_key(stream_id) {
                old(self).forwarding_state@.insert(stream_id, ForwardingState {
                    response_complete: true,
                    ..old(self).forwarding_state@[stream_id]
                })
            } else {
                old(self).forwarding_state@
            },
            final(self).request_headers@ == old(self).request_headers@,
            final(self).request_bodies@ == old(self).request_bodies@,
            final(self).response_buffers@ == old(self).response_buffers@,
            final(self).total_requests_forwarded == old(self).total_requests_forwarded,
            final(self).total_responses_received == old(self).total_responses_received,
    {
        let ghost before = self.forwarding_state@;
        match self.forwarding_state.remove(&stream_id) {
            Some(mut state) => {
                state.response_complete = true;
                self.forwarding_state.insert(stream_id, state);
            },
            None => {
                assert(self.forwarding_state@ =~= before);
            },
        }
        Ok(())
    }

    /// Appends data to a stream's response buffer.
    pub fn buffer_response_data(&mut self, stream_id: u32, mut data: Vec<u8>) -> (r: Result<(), String>)
        ensures
            r is Ok,
            buffers_view(final(self).response_buffers@) == appended(buffers_view(old(self).response_buffers@), stream_id, data@),
            final(self).forwarding_state@ == old(self).forwarding_state@,
            final(self).request_headers@ == old(self).request_headers@,
            final(self).request_bodies@ == old(self).request_bodies@,
            final(self).total_requests_forwarded == old(self).total_requests_forwarded,
            final(self).total_responses_received == old(self).total_responses_received,
    {
        let ghost before = buffers_view(self.response_buffers@);
        let ghost added = data@;
        let mut buffer = match self.response_buffers.remove(&stream_id) {
            Some(b) => b,
            None => Vec::new(),
        };
        buffer.append(&mut data);
        self.response_buffers.insert(stream_id, buffer);
        assert(buffers_view(self.response_buffers@) =~= appended(before, stream_id, added));
        Ok(())
    }

    /// A stream's request headers and body (empty if none was buffered); an error without headers.
    pub fn get_complete_request(&self, stream_id: u32) -> (r: Result<(HashMap<String, String>, Vec<u8>), String>)
        ensures
            self.request_headers@.contains_key(stream_id) ==> (r matches Ok((h, b))
                && h@ == self.request_headers@[stream_id]@
                && b@ == if buffers_view(self.request_bodies@).contains_key(stream_id) {
                    buffers_view(self.request_bodies@)[stream_id]
                } else {
                    Seq::<u8>::empty()
                }),
            !self.request_headers@.contains_key(stream_id) ==> (r matches Err(e) && e@ == no_headers_message(stream_id)),
    {
        let headers = match self.request_headers.get(&stream_id) {
            Some(h) => h.clone(),
            None => {
                let mut msg = String::from_str("No headers for stream ");
                push_decimal(&mut msg, stream_id as u64);
                return Err(msg);
            },
        };
        let body = match self.request_bodies.get(&stream_id) {
            Some(b) => b.clone(),
            None => Vec::new(),
        };
        Ok((headers, body))
    }

    /// A stream's buffered response; an error when nothing was buffered.
    pub fn get_complete_response(&self, stream_id: u32) -> (r: Result<Vec<u8>, String>)
        ensures
            buffers_view(self.response_buffers@).contains_key(stream_id)
                ==> (r matches Ok(b) && b@ == buffers_view(self.response_buffers@)[stream_id]),
            !buffers_view(self.response_buffers@).contains_key(stream_id)
                ==> (r matches Err(e) && e@ == no_response_message(stream_id)),
    {
        match self.response_buffers.get(&stream_id) {
            Some(b) => Ok(b.clone()),
            None => {
                let mut msg = String::from_str("No response buffer for stream ");
                push_decimal(&mut msg, stream_id as u64);
                Err(msg)
            },
        }
    }

    /// Whether a stream has its request headers and its request is complete.
    pub fn is_request_ready(&self, stream_id: u32) -> (r: bool)
        ensures
            r == (self.request_headers@.contains_key(stream_id)
                && self.forwarding_state@.contains_key(stream_id)
                && self.forwarding_state@[stream_id].request_complete),
    {
        self.request_headers.contains_key(&stream_id) && match self.forwarding_state.get(&stream_id) {
            Some(s) => s.request_complete,
            None => false,
        }
    }

    /// Whether a stream has a response buffer and its response is complete.
    pub fn is_response_ready(&self, stream_id: u32) -> (r: bool)
        ensures
            r == (self.response_buffers@.contains_key(stream_id)
                && self.forwarding_state@.contains_key(stream_id)
                && self.forwarding_state@[stream_id].response_complete),
    {
        self.response_buffers.contains_key(&stream_id) && match self.forwarding_state.get(&stream_id) {
            Some(s) => s.response_complete,
            None => false,
        }
    }

    /// The numbers of registered streams, buffered requests and buffered responses, and the totals.
    pub fn stats(&self) -> (s: UpstreamWiringStats)
        ensures
            s.active_streams == self.forwarding_state@.len(),
            s.buffered_requests == self.request_headers@.len(),
            s.buffered_responses == self.response_buffers@.len(),
            s.total_requests_forwarded == self.total_requests_forwarded,
            s.total_responses_received == self.total_responses_received,
    {
        UpstreamWiringStats {
            active_streams: self.forwarding_state.len() as u64,
            buffered_requests: self.request_headers.len() as u64,
            buffered_responses: self.response_buffers.len() as u64,
            total_requests_forwarded: self.total_requests_forwarded,
            total_responses_received: self.total_responses_received,
        }
    }

    /// Forgets everything about a stream.
    pub fn cleanup_stream(&mut self, stream_id: u32)
        ensures
            final(self).forwarding_state@ == old(self).forwarding_state@.remove(stream_id),
            final(self).request_headers@ == old(self).request_headers@.remove(stream_id),
            final(self).request_bodies@ == old(self).request_bodies@.remove(stream_id),
            final(self).response_buffers@ == old(self).response_buffers@.remove(stream_id),
            final(self).total_requests_forwarded == old(self).total_requests_forwarded,
            final(self).total_responses_received == old(self).total_responses_received,
    {
        self.forwarding_state.remove(&stream_id);
        self.request_headers.remove(&stream_id);
        self.request_bodies.remove(&stream_id);
        self.response_buffers.remove(&stream_id);
    }
}

impl Default for UpstreamWiring {
    fn default() -> (w: Self)
        ensures
            w.forwarding_state@ == Map::<u32, ForwardingState>::empty(),
            w.request_headers@ == Map::<u32, HashMap<String, String>>::empty(),
            w.total_requests_forwarded == 0,
            w.total_responses_received == 0,
    {
        Self::new()
    }
}

/// Counts of an upstream wiring's streams and buffers.
#[derive(Debug, Clone)]
pub struct UpstreamWiringStats {
    pub active_streams: u64,
    pub buffered_requests: u64,
    pub buffered_responses: u64,
    pub total_requests_forwarded: u64,
    pub total_responses_received: u64,
}

} // verus!
