use vstd::prelude::*;
use crate::bytes::{be24, be32, read_be_u24, read_be_u32};
use crate::text::{decimal, push_decimal};
use crate::h2::transcode::{H2Transcoder, TranscodeState};

verus! {

/// The fields of a nine-byte frame header: payload length, type, flags, stream id (the
/// reserved bit cleared).
pub open spec fn frame_header_fields(h: Seq<u8>) -> (u32, u8, u8, u32) {
    (be24(h[0], h[1], h[2]) as u32, h[3], h[4], (be32(h[5], h[6], h[7], h[8]) % 0x8000_0000) as u32)
}

/// Reads the fields of a nine-byte frame header.
pub fn read_frame_header(header: &[u8]) -> (r: (u32, u8, u8, u32))
    requires
        header@.len() >= 9,
    ensures
        r == frame_header_fields(header@),
{
    let length = read_be_u24(header, 0);
    let raw = read_be_u32(header, 5);
    let stream_id = raw & 0x7fff_ffff;
    assert(raw & 0x7fff_ffff == raw % 0x8000_0000) by (bit_vector);
    (length, header[3], header[4], stream_id)
}

/// A frame as the transcoder passes it on: its type, its payload, then 1 when END_STREAM
/// (flag 0x01) is set and 0 otherwise; with that flag.
pub fn frame_record(frame_type: u8, flags: u8, payload: &[u8]) -> (r: (Vec<u8>, bool))
    ensures
        r.1 == (flags & 1 != 0),
        r.0@ == seq![frame_type] + payload@ + seq![if r.1 { 1u8 } else { 0u8 }],
{
    let is_end_stream = (flags & 0x01) != 0;
    let mut frame_data: Vec<u8> = Vec::new();
    frame_data.push(frame_type);
    let mut i: usize = 0;
    while i < payload.len()
        invariant
            i <= payload@.len(),
            frame_data@ == seq![frame_type] + payload@.take(i as int),
        decreases payload@.len() - i,
    {
        frame_data.push(payload[i]);
        assert(payload@.take(i + 1) =~= payload@.take(i as int).push(payload@[i as int]));
        i += 1;
    }
    assert(payload@.take(i as int) =~= payload@);
    frame_data.push(if is_end_stream { 1u8 } else { 0u8 });
    assert(frame_data@ =~= seq![frame_type] + payload@ + seq![if is_end_stream { 1u8 } else { 0u8 }]);
    (frame_data, is_end_stream)
}

/// The status codes looked for in a HEADERS payload, in the order they are tried.
pub open spec fn searched_codes() -> Seq<u16> {
    seq![200u16, 301, 302, 304, 400, 401, 403, 404, 500, 502, 503]
}

/// The three ASCII digits of a three-digit code.
pub open spec fn code_bytes(code: u16) -> Seq<u8> {
    seq![(48 + code / 100) as u8, (48 + (code / 10) % 10) as u8, (48 + code % 10) as u8]
}

/// Whether `w` occurs in `p` as three consecutive bytes.
pub open spec fn has_window(p: Seq<u8>, w: Seq<u8>) -> bool {
    exists|i: int| 0 <= i && i + 3 <= p.len() && #[trigger] p.subrange(i, i + 3) == w
}

/// The first of `codes` whose digits occur in `p`; 200 when none does.
pub open spec fn first_code_in(p: Seq<u8>, codes: Seq<u16>) -> u16
    decreases codes.len(),
{
    if codes.len() == 0 {
        200
    } else if has_window(p, code_bytes(codes[0])) {
        codes[0]
    } else {
        first_code_in(p, codes.drop_first())
    }
}

/// The status an HPACK block announces, as this transcoder guesses it: an indexed field
/// with a static `:status` index gives its code; otherwise the first listed code whose
/// digits appear in the block; 200 for an empty block or when none appears.
pub open spec fn guessed_status(p: Seq<u8>) -> u16 {
    if p.len() == 0 {
        200
    } else if p[0] & 0x80 != 0 && 8 <= (p[0] & 0x7f) <= 14 {
        let i = p[0] & 0x7f;
        if i == 8 { 200 } else if i == 9 { 204 } else if i == 10 { 206 } else if i == 11 { 304 }
        else if i == 12 { 400 } else if i == 13 { 404 } else { 500 }
    } else {
        first_code_in(p, searched_codes())
    }
}

/// The HTTP/1.1 head built for a HEADERS payload.
pub open spec fn headers_frame_head(p: Seq<u8>) -> Seq<char> {
    if p.len() == 0 {
        "HTTP/1.1 200 OK\r\nConnection: close\r\n\r\n"@
    } else {
        "HTTP/1.1 "@ + decimal(guessed_status(p) as nat)
            + " OK\r\nConnection: close\r\nContent-Type: application/octet-stream\r\n\r\n"@
    }
}

/// What reading one frame while waiting for the response headers gives: the head,
/// a refusal, or nothing (the frame is skipped).
pub open spec fn response_frame_outcome(frame_type: u8, payload: Seq<u8>) -> Option<Result<Seq<char>, Seq<char>>> {
    if frame_type == 0x01 {
        Some(Ok(headers_frame_head(payload)))
    } else if frame_type == 0x00 {
        Some(Err("DATA frame before HEADERS"@))
    } else if frame_type == 0x03 {
        Some(Err("Stream reset by server (RST_STREAM)"@))
    } else if frame_type == 0x07 {
        Some(Err("Connection closed by server (GOAWAY)"@))
    } else {
        None
    }
}

/// Transcodes a response read from an HTTP/2 upstream into HTTP/1.1 for the client.
pub struct UpstreamResponseTranscoder {
    pub transcoder: H2Transcoder,
    pub response_headers: Option<String>,
}

impl UpstreamResponseTranscoder {
    /// A transcoder that has seen no headers.
    pub fn new() -> (t: Self)
        ensures
            t.response_headers is None,
            t.transcoder.current() == TranscodeState::WaitingForHeaders,
    {
        UpstreamResponseTranscoder { transcoder: H2Transcoder::new(), response_headers: None }
    }

    /// Handles one frame read while waiting for the response headers: HEADERS gives the
    /// head (also kept), DATA, RST_STREAM and GOAWAY are refused, other frames are skipped
    /// (`None`).
    pub fn on_response_frame(&mut self, frame_type: u8, payload: &[u8]) -> (r: Option<Result<String, String>>)
        ensures
            match response_frame_outcome(frame_type, payload@) {
                Some(Ok(h)) => (r matches Some(Ok(s)) && s@ == h)
                    && (final(self).response_headers matches Some(k) && k@ == h),
                Some(Err(m)) => (r matches Some(Err(e)) && e@ == m)
                    && final(self).response_headers == old(self).response_headers,
                None => r is None && final(self).response_headers == old(self).response_headers,
            },
    {
        if frame_type == 0x01 {
            let head = match self.parse_headers_frame(payload) {
                Ok(h) => h,
                Err(e) => { return Some(Err(e)); },
            };
            self.response_headers = Some(head.clone());
            Some(Ok(head))
        } else if frame_type == 0x00 {
            Some(Err(String::from_str("DATA frame before HEADERS")))
        } else if frame_type == 0x03 {
            Some(Err(String::from_str("Stream reset by server (RST_STREAM)")))
        } else if frame_type == 0x07 {
            Some(Err(String::from_str("Connection closed by server (GOAWAY)")))
        } else {
            None
        }
    }

    /// The HTTP/1.1 head for a HEADERS payload (see `headers_frame_head`).
    pub fn parse_headers_frame(&self, payload: &[u8]) -> (r: Result<String, String>)
        ensures
            r matches Ok(s) && s@ == headers_frame_head(payload@),
    {
        if payload.len() == 0 {
            return Ok(String::from_str("HTTP/1.1 200 OK\r\nConnection: close\r\n\r\n"));
        }
        let status_code = match self.extract_status_from_hpack(payload) {
            Ok(s) => s,
            Err(_) => String::from_str("200"),
        };
        let mut response = String::from_str("HTTP/1.1 ");
        response.append(status_code.as_str());
        response.append(" OK\r\nConnection: close\r\nContent-Type: application/octet-stream\r\n\r\n");
        Ok(response)
    }

    /// The status announced by an HPACK block, in decimal (see `guessed_status`).
    pub fn extract_status_from_hpack(&self, payload: &[u8]) -> (r: Result<String, String>)
        ensures
            r matches Ok(s) && s@ == decimal(guessed_status(payload@) as nat),
    {
        Ok(hpack_status(payload))
    }

    /// The first listed status code whose digits occur in the payload, in decimal; "200"
    /// when none does.
    pub fn find_status_code_pattern(&self, payload: &[u8]) -> (r: Result<String, String>)
        ensures
            r matches Ok(s) && s@ == decimal(first_code_in(payload@, searched_codes()) as nat),
    {
        Ok(status_pattern(payload))
    }
}

/// The status announced by an HPACK block, in decimal (see `guessed_status`).
pub fn hpack_status(payload: &[u8]) -> (r: String)
    ensures
        r@ == decimal(guessed_status(payload@) as nat),
{
    if payload.len() == 0 {
        return code_string(200);
    }
    let first_byte = payload[0];
    if (first_byte & 0x80) != 0 {
        let index = first_byte & 0x7f;
        let status: u16 = match index {
            8 => 200,
            9 => 204,
            10 => 206,
            11 => 304,
            12 => 400,
            13 => 404,
            14 => 500,
            _ => { return status_pattern(payload); },
        };
        return code_string(status);
    }
    status_pattern(payload)
}

/// The first listed status code whose digits occur in the payload, in decimal; "200" when
/// none does.
pub fn status_pattern(payload: &[u8]) -> (r: String)
    ensures
        r@ == decimal(first_code_in(payload@, searched_codes()) as nat),
{
    let codes: [u16; 11] = [200, 301, 302, 304, 400, 401, 403, 404, 500, 502, 503];
    assert(codes@ =~= searched_codes());
    assert(searched_codes().skip(0) =~= searched_codes());
    let mut k: usize = 0;
    while k < 11
        invariant
            k <= 11,
            codes@ == searched_codes(),
            first_code_in(payload@, searched_codes()) == first_code_in(payload@, searched_codes().skip(k as int)),
        decreases 11 - k,
    {
        let code = codes[k];
        assert(searched_codes().skip(k as int)[0] == code);
        assert(searched_codes().skip(k as int).drop_first() =~= searched_codes().skip(k + 1));
        if contains_code(payload, code) {
            return code_string(code);
        }
        k += 1;
    }
    assert(searched_codes().skip(11) =~= Seq::<u16>::empty());
    code_string(200)
}

impl Default for UpstreamResponseTranscoder {
    fn default() -> (t: Self)
        ensures
            t.response_headers is None,
    {
        Self::new()
    }
}

/// A three-digit code in decimal.
fn code_string(code: u16) -> (s: String)
    ensures
        s@ == decimal(code as nat),
{
    let mut s = String::new();
    push_decimal(&mut s, code as u64);
    s
}

/// Whether the digits of a three-digit code occur in `p`.
fn contains_code(p: &[u8], code: u16) -> (r: bool)
    requires
        100 <= code <= 999,
    ensures
        r == has_window(p@, code_bytes(code)),
{
    let d0 = (48 + code / 100) as u8;
    let d1 = (48 + (code / 10) % 10) as u8;
    let d2 = (48 + code % 10) as u8;
    let ghost w = code_bytes(code);
    assert(w == seq![d0, d1, d2]);
    if p.len() < 3 {
        return false;
    }
    let mut i: usize = 0;
    while i <= p.len() - 3
        invariant
            p@.len() >= 3,
            i <= p@.len() - 2,
            w == seq![d0, d1, d2],
            w == code_bytes(code),
            forall|j: int| 0 <= j < i ==> #[trigger] p@.subrange(j, j + 3) != w,
        decreases p@.len() - i,
    {
        if p[i] == d0 && p[i + 1] == d1 && p[i + 2] == d2 {
            let ghost k = i as int;
            assert(p@.subrange(k, k + 3) =~= w);
            assert(has_window(p@, w));
            return true;
        }
        assert(p@.subrange(i as int, i + 3)[0] == p@[i as int]);
        assert(p@.subrange(i as int, i + 3)[1] == p@[i + 1]);
        assert(p@.subrange(i as int, i + 3)[2] == p@[i + 2]);
        i += 1;
    }
    assert forall|j: int| 0 <= j && j + 3 <= p@.len() implies #[trigger] p@.subrange(j, j + 3) != w by {
        assert(j < i);
    }
    false
}

/// What one frame read for the body does: DATA appends its payload (and ends the body with
/// END_STREAM), GOAWAY is refused, other frames are skipped. The result is the new count of
/// bytes read and whether the body is done.
pub fn body_frame_step(body: &mut Vec<u8>, total_read: usize, frame_type: u8, payload: &[u8], is_end_stream: bool)
    -> (r: Result<(usize, bool), String>)
    requires
        total_read + payload@.len() <= usize::MAX,
    ensures
        frame_type == 0x00 ==> (r == Ok::<(usize, bool), String>(((total_read + payload@.len()) as usize, is_end_stream))
            && final(body)@ == old(body)@ + payload@),
        frame_type == 0x07 ==> (r matches Err(e) && e@ == "Connection closed by server while reading body"@
            && final(body)@ == old(body)@),
        frame_type != 0x00 && frame_type != 0x07 ==> (r == Ok::<(usize, bool), String>((total_read, false))
            && final(body)@ == old(body)@),
{
    if frame_type == 0x00 {
        let mut i: usize = 0;
        let ghost start = body@;
        while i < payload.len()
            invariant
                i <= payload@.len(),
                body@ == start + payload@.take(i as int),
            decreases payload@.len() - i,
        {
            body.push(payload[i]);
            assert(payload@.take(i + 1) =~= payload@.take(i as int).push(payload@[i as int]));
            i += 1;
        }
        assert(payload@.take(i as int) =~= payload@);
        Ok((total_read + payload.len(), is_end_stream))
    } else if frame_type == 0x07 {
        Err(String::from_str("Connection closed by server while reading body"))
    } else {
        Ok((total_read, false))
    }
}

} // verus!
