use vstd::prelude::*;
use crate::http_headers::HttpHeaders;
use crate::text::first_occurrence;
use crate::unicode::spec_str_to_lowercase;

verus! {

/// How request bodies are streamed.
#[derive(Clone, Debug)]
pub struct StreamingRequestConfig {
    pub debug: bool,
    /// The largest header block accepted, in bytes.
    pub max_headers_size: usize,
}

impl Default for StreamingRequestConfig {
    fn default() -> (c: Self)
        ensures
            !c.debug,
            c.max_headers_size == 65536,
    {
        StreamingRequestConfig { debug: false, max_headers_size: 65536 }
    }
}

/// What streaming one message body moved and found.
#[derive(Debug, Clone)]
pub struct StreamingStats {
    pub bytes_read: u64,
    pub bytes_written: u64,
    pub chunks_processed: u64,
    pub patterns_found: u64,
}

impl Default for StreamingStats {
    fn default() -> (s: Self)
        ensures
            s.bytes_read == 0 && s.bytes_written == 0 && s.chunks_processed == 0 && s.patterns_found == 0,
    {
        StreamingStats { bytes_read: 0, bytes_written: 0, chunks_processed: 0, patterns_found: 0 }
    }
}

/// How much of a request body to read at a time.
pub const BODY_CHUNK: usize = 65536;

/// How a request body is streamed.
#[derive(Debug, Clone, Copy, PartialEq, Eq, Structural)]
pub enum RequestBody {
    /// Exactly this many bytes follow.
    Length(usize),
    /// A chunked body, which is not streamed.
    ChunkedUnsupported,
    /// No body.
    Empty,
}

/// What the headers of a request say of its body: a length wins over chunked coding.
pub fn request_body(headers: &HttpHeaders) -> (r: RequestBody)
    ensures
        r == match headers.content_length {
            Some(n) => RequestBody::Length(n),
            None => match headers.transfer_encoding {
                Some(te) => if first_occurrence(spec_str_to_lowercase(te@), "chunked"@) is Some {
                    RequestBody::ChunkedUnsupported
                } else {
                    RequestBody::Empty
                },
                None => RequestBody::Empty,
            },
        },
{
    match headers.content_length {
        Some(n) => RequestBody::Length(n),
        None => if headers.is_chunked() { RequestBody::ChunkedUnsupported } else { RequestBody::Empty },
    }
}

/// The size of the next piece of a body with `remaining` bytes left, and whether it is the last.
pub fn next_body_chunk(remaining: usize) -> (r: (usize, bool))
    requires
        remaining > 0,
    ensures
        r.0 == (if remaining < BODY_CHUNK { remaining } else { BODY_CHUNK }),
        r.1 == (r.0 == remaining),
        0 < r.0 <= remaining,
{
    let size = if remaining < BODY_CHUNK { remaining } else { BODY_CHUNK };
    (size, size == remaining)
}

/// The chunk count reported for a body of `content_length` bytes.
pub fn chunks_reported(content_length: usize) -> (r: u64)
    ensures
        r == content_length / BODY_CHUNK + 1,
{
    (content_length / BODY_CHUNK) as u64 + 1
}

} // verus!
