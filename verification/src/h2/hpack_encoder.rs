use vstd::prelude::*;
use crate::text::str_eq;
use crate::h2::frame_encoder::utf8_bytes;

verus! {

/// The static-table index used for a request method, or 0 where the method is sent literally.
pub open spec fn method_index(m: Seq<char>) -> u8 {
    if m == "GET"@ { 2 }
    else if m == "POST"@ { 3 }
    else if m == "HEAD"@ { 21 }
    else if m == "DELETE"@ { 5 }
    else if m == "PUT"@ { 4 }
    else if m == "CONNECT"@ { 6 }
    else if m == "OPTIONS"@ { 7 }
    else if m == "TRACE"@ { 8 }
    else { 0 }
}

/// The length byte written before a string: its byte length truncated to eight bits.
pub open spec fn len_byte(b: Seq<u8>) -> u8 {
    (b.len() as usize) as u8
}

/// The HPACK block for a request with the given method, path and host.
pub open spec fn request_block(method: Seq<char>, path: Seq<char>, host: Seq<char>) -> Seq<u8> {
    let mb = utf8_bytes(method);
    let pb = utf8_bytes(path);
    let hb = utf8_bytes(host);
    let idx = method_index(method);
    (if idx == 0 { seq![0x0Fu8, len_byte(mb)] + mb } else { seq![0x80u8 | idx] })
        + seq![0x44u8, len_byte(pb)] + pb + seq![0x87u8, 0x41u8, len_byte(hb)] + hb
}

/// The HEADERS frame (END_STREAM | END_HEADERS) carrying `payload` on `stream_id`.
pub open spec fn headers_frame(payload: Seq<u8>, stream_id: u32) -> Seq<u8> {
    let length = payload.len() as u32;
    seq![
        (length >> 16u32) as u8, (length >> 8u32) as u8, length as u8,
        1u8, 0x05u8,
        (stream_id >> 24u32) as u8, (stream_id >> 16u32) as u8, (stream_id >> 8u32) as u8, stream_id as u8,
    ] + payload
}

/// Encodes request pseudo-headers for an upstream HTTP/2 request.
pub struct HpackEncoder;

fn method_index_exec(method: &str) -> (r: u8)
    ensures
        r == method_index(method@),
{
    if str_eq(method, "GET") { 2 }
    else if str_eq(method, "POST") { 3 }
    else if str_eq(method, "HEAD") { 21 }
    else if str_eq(method, "DELETE") { 5 }
    else if str_eq(method, "PUT") { 4 }
    else if str_eq(method, "CONNECT") { 6 }
    else if str_eq(method, "OPTIONS") { 7 }
    else if str_eq(method, "TRACE") { 8 }
    else { 0 }
}

impl HpackEncoder {
    /// The HPACK block for `method`, `path` (literal `:path`), `:scheme https`, and `host`.
    pub fn encode_request_headers(method: &str, path: &str, host: &str) -> (r: Result<Vec<u8>, String>)
        ensures
            r matches Ok(out) && out@ == request_block(method@, path@, host@),
    {
        let mut payload: Vec<u8> = Vec::new();
        let idx = method_index_exec(method);
        if idx == 0 {
            payload.push(0x0F);
            payload.push(method.len() as u8);
            payload.extend_from_slice(method.as_bytes());
        } else {
            payload.push(0x80 | idx);
        }
        let ghost p1 = payload@;
        payload.push(0x44);
        payload.push(path.len() as u8);
        payload.extend_from_slice(path.as_bytes());
        let ghost p2 = payload@;
        payload.push(0x87);
        payload.push(0x41);
        payload.push(host.len() as u8);
        payload.extend_from_slice(host.as_bytes());
        assert(p2 =~= p1 + seq![0x44u8, len_byte(utf8_bytes(path@))] + utf8_bytes(path@));
        assert(payload@ =~= p2 + seq![0x87u8, 0x41u8, len_byte(utf8_bytes(host@))] + utf8_bytes(host@));
        assert(payload@ =~= request_block(method@, path@, host@));
        Ok(payload)
    }

    /// A HEADERS frame with END_STREAM and END_HEADERS carrying `payload`.
    pub fn encode_headers_frame(payload: &[u8], stream_id: u32) -> (out: Vec<u8>)
        ensures
            out@ == headers_frame(payload@, stream_id),
    {
        let mut frame: Vec<u8> = Vec::new();
        let length = payload.len() as u32;
        frame.push((length >> 16u32) as u8);
        frame.push((length >> 8u32) as u8);
        frame.push(length as u8);
        frame.push(1u8);
        frame.push(0x05u8);
        frame.push((stream_id >> 24u32) as u8);
        frame.push((stream_id >> 16u32) as u8);
        frame.push((stream_id >> 8u32) as u8);
        frame.push(stream_id as u8);
        let ghost head = frame@;
        frame.extend_from_slice(payload);
        assert(frame@ =~= head + payload@);
        assert(frame@ =~= headers_frame(payload@, stream_id));
        frame
    }
}

} // verus!
