use vstd::prelude::*;
use std::collections::HashMap;
use crate::string_map::{holds_texts, map_put, map_len, map_entries, lists_map};
use crate::h2::h2_reader::{header_map_entries, header_entries, entries_view};
use crate::text::{decimal, push_decimal};

verus! {

/// What a stream's request holds until it is redacted: its headers (by name, one value
/// each), its body chunks, and how far it got.
pub struct StreamRedactionState {
    pub stream_id: u32,
    pub headers: HashMap<String, String>,
    pub body_chunks: Vec<Vec<u8>>,
    pub end_stream: bool,
    pub headers_complete: bool,
}

/// The text map the named entries give: each entry with a text value stored under its
/// name, a later one replacing an earlier one.
pub open spec fn entries_text_map(base: Map<Seq<char>, Seq<char>>, es: Seq<(Seq<char>, Option<Seq<char>>)>) -> Map<Seq<char>, Seq<char>>
    decreases es.len(),
{
    if es.len() == 0 {
        base
    } else {
        let m = entries_text_map(base, es.drop_last());
        match es.last().1 {
            Some(v) => m.insert(es.last().0, v),
            None => m,
        }
    }
}

/// The chunks joined in order.
pub open spec fn joined_chunks(cs: Seq<Vec<u8>>) -> Seq<u8>
    decreases cs.len(),
{
    if cs.len() == 0 { Seq::empty() } else { joined_chunks(cs.drop_last()) + cs.last()@ }
}

/// The number of bytes in the chunks.
pub open spec fn chunk_bytes(cs: Seq<Vec<u8>>) -> nat {
    joined_chunks(cs).len()
}

/// A stream's counters.
#[derive(Debug, Clone)]
pub struct StreamStats {
    pub stream_id: u32,
    pub headers_count: usize,
    pub body_chunks: usize,
    pub total_body_bytes: usize,
    pub end_stream: bool,
    pub headers_complete: bool,
}

impl StreamStats {
    /// The one-line summary of the counters.
    pub fn to_string(&self) -> (r: String)
        ensures
            r@ == "Stream "@ + decimal(self.stream_id as nat) + ": "@ + decimal(self.headers_count as nat)
                + " headers, "@ + decimal(self.body_chunks as nat) + " chunks, "@ + decimal(self.total_body_bytes as nat)
                + " bytes, end_stream="@ + (if self.end_stream { "true"@ } else { "false"@ }),
    {
        let mut r = String::from_str("Stream ");
        push_decimal(&mut r, self.stream_id as u64);
        r.append(": ");
        push_decimal(&mut r, self.headers_count as u64);
        r.append(" headers, ");
        push_decimal(&mut r, self.body_chunks as u64);
        r.append(" chunks, ");
        push_decimal(&mut r, self.total_body_bytes as u64);
        r.append(" bytes, end_stream=");
        r.append(if self.end_stream { "true" } else { "false" });
        r
    }
}

impl StreamRedactionState {
    /// A stream with no headers and no body yet.
    pub fn new(stream_id: u32) -> (s: Self)
        ensures
            s.stream_id == stream_id,
            holds_texts(s.headers@, Map::empty()),
            s.body_chunks@.len() == 0,
            !s.end_stream && !s.headers_complete,
    {
        let s = StreamRedactionState {
            stream_id,
            headers: HashMap::new(),
            body_chunks: Vec::new(),
            end_stream: false,
            headers_complete: false,
        };
        assert(holds_texts(s.headers@, Map::empty()));
        s
    }

    /// Takes the stream's header block: every entry whose value is text is stored under its
    /// name (a later value replacing an earlier one); headers already taken are an error.
    pub fn add_headers(&mut self, headers: http::HeaderMap) -> (r: Result<(), String>)
        ensures
            old(self).headers_complete ==> (r matches Err(m) && m@ == "Stream "@ + decimal(old(self).stream_id as nat)
                + " duplicate headers"@) && *final(self) == *old(self),
            !old(self).headers_complete ==> r is Ok && final(self).headers_complete
                && forall|t: Map<Seq<char>, Seq<char>>| holds_texts(old(self).headers@, t)
                    ==> holds_texts(final(self).headers@, entries_text_map(t, header_entries(headers))),
            final(self).stream_id == old(self).stream_id,
            final(self).body_chunks == old(self).body_chunks,
            final(self).end_stream == old(self).end_stream,
    {
        if self.headers_complete {
            let mut m = String::from_str("Stream ");
            push_decimal(&mut m, self.stream_id as u64);
            m.append(" duplicate headers");
            return Err(m);
        }
        let entries = header_map_entries(&headers);
        let ghost es = entries_view(entries@);
        let ghost start = self.headers@;
        let mut i: usize = 0;
        while i < entries.len()
            invariant
                i <= entries@.len(),
                es == entries_view(entries@),
                es == header_entries(headers),
                forall|t: Map<Seq<char>, Seq<char>>| holds_texts(start, t)
                    ==> holds_texts(self.headers@, entries_text_map(t, es.take(i as int))),
                self.stream_id == old(self).stream_id,
                self.body_chunks == old(self).body_chunks,
                self.end_stream == old(self).end_stream,
                !self.headers_complete,
                start == old(self).headers@,
            decreases entries@.len() - i,
        {
            assert(es.take(i + 1).drop_last() == es.take(i as int));
            assert(es.take(i + 1).last() == es[i as int]);
            match &entries[i].1 {
                Some(v) => {
                    map_put(&mut self.headers, entries[i].0.clone(), v.clone());
                },
                None => {},
            }
            i += 1;
        }
        assert(es.take(i as int) == es);
        self.headers_complete = true;
        Ok(())
    }

    /// Appends a body chunk; data after the end of the stream is an error.
    pub fn add_body_chunk(&mut self, chunk: Vec<u8>) -> (r: Result<(), String>)
        ensures
            old(self).end_stream ==> (r matches Err(m) && m@ == "Stream "@ + decimal(old(self).stream_id as nat)
                + " data after END_STREAM"@) && *final(self) == *old(self),
            !old(self).end_stream ==> r is Ok && final(self).body_chunks@ == old(self).body_chunks@.push(chunk),
            final(self).stream_id == old(self).stream_id,
            final(self).headers@ == old(self).headers@,
            final(self).end_stream == old(self).end_stream,
            final(self).headers_complete == old(self).headers_complete,
    {
        if self.end_stream {
            let mut m = String::from_str("Stream ");
            push_decimal(&mut m, self.stream_id as u64);
            m.append(" data after END_STREAM");
            return Err(m);
        }
        self.body_chunks.push(chunk);
        Ok(())
    }

    /// Records the end of the stream.
    pub fn mark_end_stream(&mut self)
        ensures
            final(self).end_stream,
            final(self).stream_id == old(self).stream_id,
            final(self).headers@ == old(self).headers@,
            final(self).body_chunks@ == old(self).body_chunks@,
            final(self).headers_complete == old(self).headers_complete,
    {
        self.end_stream = true;
    }

    /// Whether both the headers and the end of the stream arrived.
    pub fn is_complete(&self) -> (r: bool)
        ensures
            r == (self.headers_complete && self.end_stream),
    {
        self.headers_complete && self.end_stream
    }

    /// What is handed to the redactor once the stream is complete: its header pairs (in the
    /// map's order) and its body, the chunks joined; an incomplete stream is an error.
    pub fn redaction_input(&self) -> (r: Result<(Vec<(String, String)>, Vec<u8>), String>)
        ensures
            !(self.headers_complete && self.end_stream) ==> (r matches Err(m) && m@ == "Stream "@
                + decimal(self.stream_id as nat) + " not complete (headers_complete="@
                + (if self.headers_complete { "true"@ } else { "false"@ }) + ", end_stream="@
                + (if self.end_stream { "true"@ } else { "false"@ }) + ")"@),
            self.headers_complete && self.end_stream ==> (r matches Ok((hs, body))
                && lists_map(hs@, self.headers@) && body@ == joined_chunks(self.body_chunks@)),
    {
        if !self.is_complete() {
            let mut m = String::from_str("Stream ");
            push_decimal(&mut m, self.stream_id as u64);
            m.append(" not complete (headers_complete=");
            m.append(if self.headers_complete { "true" } else { "false" });
            m.append(", end_stream=");
            m.append(if self.end_stream { "true" } else { "false" });
            m.append(")");
            return Err(m);
        }
        let hs = map_entries(&self.headers);
        let mut body: Vec<u8> = Vec::new();
        let mut i: usize = 0;
        while i < self.body_chunks.len()
            invariant
                i <= self.body_chunks@.len(),
                body@ == joined_chunks(self.body_chunks@.take(i as int)),
            decreases self.body_chunks@.len() - i,
        {
            assert(self.body_chunks@.take(i + 1).drop_last() == self.body_chunks@.take(i as int));
            body.extend_from_slice(self.body_chunks[i].as_slice());
            i += 1;
        }
        assert(self.body_chunks@.take(i as int) == self.body_chunks@);
        Ok((hs, body))
    }

    /// The stream's counters; the body size is counted in a `usize`.
    pub fn stats(&self) -> (s: StreamStats)
        requires
            chunk_bytes(self.body_chunks@) <= usize::MAX,
        ensures
            s.stream_id == self.stream_id,
            s.headers_count == self.headers@.dom().len(),
            s.body_chunks == self.body_chunks@.len(),
            s.total_body_bytes == chunk_bytes(self.body_chunks@),
            s.end_stream == self.end_stream,
            s.headers_complete == self.headers_complete,
    {
        let mut total: usize = 0;
        let mut i: usize = 0;
        while i < self.body_chunks.len()
            invariant
                i <= self.body_chunks@.len(),
                total == chunk_bytes(self.body_chunks@.take(i as int)),
                chunk_bytes(self.body_chunks@) <= usize::MAX,
            decreases self.body_chunks@.len() - i,
        {
            assert(self.body_chunks@.take(i + 1).drop_last() == self.body_chunks@.take(i as int));
            proof { lemma_chunk_bytes_prefix(self.body_chunks@, i + 1); }
            total = total + self.body_chunks[i].len();
            i += 1;
        }
        assert(self.body_chunks@.take(i as int) == self.body_chunks@);
        StreamStats {
            stream_id: self.stream_id,
            headers_count: map_len(&self.headers),
            body_chunks: self.body_chunks.len(),
            total_body_bytes: total,
            end_stream: self.end_stream,
            headers_complete: self.headers_complete,
        }
    }
}

proof fn lemma_chunk_bytes_prefix(cs: Seq<Vec<u8>>, n: int)
    requires
        0 <= n <= cs.len(),
    ensures
        chunk_bytes(cs.take(n)) <= chunk_bytes(cs),
    decreases cs.len() - n,
{
    if n < cs.len() {
        lemma_chunk_bytes_prefix(cs, n + 1);
        assert(cs.take(n + 1).drop_last() == cs.take(n));
    } else {
        assert(cs.take(n) == cs);
    }
}

} // verus!
