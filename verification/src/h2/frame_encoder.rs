use vstd::prelude::*;
use std::collections::HashMap;
use crate::string_map::{lists_map, map_entries, texts_fit};
use crate::bytes::{be24, be32};
use crate::h2::frame::{frame_type_of, FrameType};

verus! {

/// The nine-byte HTTP/2 frame header followed by the payload; the length is the payload
/// length truncated to 32 bits, the stream id has its reserved bit cleared.
pub open spec fn encoded_frame(frame_type: u8, stream_id: u32, payload: Seq<u8>, end_stream: bool) -> Seq<u8> {
    let length = payload.len() as u32;
    let sid = stream_id & 0x7FFF_FFFF;
    seq![
        (length >> 16u32) as u8, (length >> 8u32) as u8, length as u8,
        frame_type,
        if end_stream { 1u8 } else { 0u8 },
        (sid >> 24u32) as u8, (sid >> 16u32) as u8, (sid >> 8u32) as u8, sid as u8,
    ] + payload
}

/// The fields of a nine-byte frame header: the 24-bit length, the type, the flags and the
/// stream id without its reserved bit.
pub open spec fn header_fields(h: Seq<u8>) -> (u32, u8, u8, u32) {
    (
        ((h[0] as u32) << 16u32) | ((h[1] as u32) << 8u32) | (h[2] as u32),
        h[3],
        h[4],
        (((h[5] as u32) << 24u32) | ((h[6] as u32) << 16u32) | ((h[7] as u32) << 8u32) | (h[8] as u32)) & 0x7FFF_FFFF,
    )
}

/// A frame written by `encode_frame` reads back through `parse_frame_header` as its payload
/// length, its type, the END_STREAM flag and its stream id without the reserved bit, when
/// the payload length fits the 24-bit length field.
pub proof fn lemma_frame_header_round_trip(frame_type: u8, stream_id: u32, payload: Seq<u8>, end_stream: bool)
    requires
        payload.len() < 0x100_0000,
    ensures
        header_fields(encoded_frame(frame_type, stream_id, payload, end_stream).take(9))
            == (payload.len() as u32, frame_type, if end_stream { 1u8 } else { 0u8 }, stream_id & 0x7FFF_FFFF),
{
    let h = encoded_frame(frame_type, stream_id, payload, end_stream).take(9);
    let length = payload.len() as u32;
    let sid = stream_id & 0x7FFF_FFFF;
    assert(h[0] == (length >> 16u32) as u8 && h[1] == (length >> 8u32) as u8 && h[2] == length as u8);
    assert(h[5] == (sid >> 24u32) as u8 && h[6] == (sid >> 16u32) as u8 && h[7] == (sid >> 8u32) as u8 && h[8] == sid as u8);
    assert(((((length >> 16u32) as u8) as u32) << 16u32) | ((((length >> 8u32) as u8) as u32) << 8u32)
        | ((length as u8) as u32) == length) by (bit_vector)
        requires
            length < 0x100_0000,
    ;
    assert((((((sid >> 24u32) as u8) as u32) << 24u32) | ((((sid >> 16u32) as u8) as u32) << 16u32)
        | ((((sid >> 8u32) as u8) as u32) << 8u32) | ((sid as u8) as u32)) & 0x7FFF_FFFF == sid) by (bit_vector)
        requires
            sid == stream_id & 0x7FFF_FFFF,
    ;
}

/// A DATA frame written by `encode_data_frame` reads back through `Frame::parse`: nine
/// header bytes, then the data; the length is the data's, the type DATA, END_STREAM set
/// exactly when asked, and the stream id is the one given without its reserved bit, when the
/// data's length fits the 24-bit length field.
pub proof fn lemma_data_frame_round_trip(stream_id: u32, data: Seq<u8>, end_stream: bool)
    requires
        data.len() < 0x100_0000,
    ensures
        ({
            let f = encoded_frame(0, stream_id, data, end_stream);
            &&& f.len() == 9 + data.len()
            &&& f.skip(9) == data
            &&& be24(f[0], f[1], f[2]) == data.len()
            &&& frame_type_of(f[3]) == FrameType::Data
            &&& f[4] == (if end_stream { 1u8 } else { 0u8 })
            &&& (f[4] & 0x1 != 0) == end_stream
            &&& be32(f[5] & 0x7f, f[6], f[7], f[8]) == stream_id & 0x7FFF_FFFF
        }),
{
    let f = encoded_frame(0, stream_id, data, end_stream);
    let length = data.len() as u32;
    let sid = stream_id & 0x7FFF_FFFF;
    assert(f.skip(9) =~= data);
    let (b0, b1, b2) = ((length >> 16u32) as u8, (length >> 8u32) as u8, length as u8);
    assert((b0 as u32) * 65536u32 + (b1 as u32) * 256u32 + (b2 as u32) == length) by (bit_vector)
        requires
            length < 0x100_0000,
            b0 == (length >> 16u32) as u8,
            b1 == (length >> 8u32) as u8,
            b2 == length as u8,
    ;
    let (s5, s6, s7, s8) = ((sid >> 24u32) as u8, (sid >> 16u32) as u8, (sid >> 8u32) as u8, sid as u8);
    assert(((s5 & 0x7f) as u64) * 16777216u64 + (s6 as u64) * 65536u64 + (s7 as u64) * 256u64 + (s8 as u64) == sid as u64)
        by (bit_vector)
        requires
            sid == stream_id & 0x7FFF_FFFF,
            s5 == (sid >> 24u32) as u8,
            s6 == (sid >> 16u32) as u8,
            s7 == (sid >> 8u32) as u8,
            s8 == sid as u8,
    ;
    assert((1u8 & 0x1) != 0 && (0u8 & 0x1) == 0) by (bit_vector);
    assert(f[0] == b0 && f[1] == b1 && f[2] == b2 && f[3] == 0 && f[5] == s5 && f[6] == s6 && f[7] == s7 && f[8] == s8);
}

/// The HPACK continuation bytes for `remaining` (seven bits per byte, low bits first).
pub open spec fn int_continuation(remaining: u64) -> Seq<u8>
    decreases remaining,
{
    if remaining >= 128 {
        seq![(remaining % 128 + 128) as u8] + int_continuation(remaining / 128)
    } else {
        seq![remaining as u8]
    }
}

/// The HPACK integer encoding of `value` with a prefix of `prefix_bits` bits (RFC 7541,
/// Section 5.1), the first byte combined with `pattern`.
pub open spec fn hpack_integer(value: u64, prefix_bits: u8, pattern: u8) -> Seq<u8> {
    let max_prefix = ((1u64 << prefix_bits) - 1) as u64;
    if value < max_prefix {
        seq![pattern | ((value & 0xFF) as u8)]
    } else {
        seq![pattern | ((max_prefix & 0xFF) as u8)] + int_continuation((value - max_prefix) as u64)
    }
}

/// An HPACK string literal without Huffman coding: 7-bit-prefix length, then the bytes.
pub open spec fn hpack_string(bytes: Seq<u8>) -> Seq<u8> {
    hpack_integer(bytes.len() as u64, 7, 0) + bytes
}

/// A literal header field without indexing, new name (RFC 7541, Section 6.2.2).
pub open spec fn hpack_literal(name: Seq<u8>, value: Seq<u8>) -> Seq<u8> {
    seq![0u8] + hpack_string(name) + hpack_string(value)
}

/// The UTF-8 bytes of a string.
pub open spec fn utf8_bytes(s: Seq<char>) -> Seq<u8> {
    vstd::utf8::encode_utf8(s)
}

/// The literal encodings of `entries`, concatenated in order.
pub open spec fn hpack_literals(entries: Seq<(String, String)>) -> Seq<u8>
    decreases entries.len(),
{
    if entries.len() == 0 {
        Seq::empty()
    } else {
        hpack_literals(entries.drop_last())
            + hpack_literal(utf8_bytes(entries.last().0@), utf8_bytes(entries.last().1@))
    }
}

/// A minimal HPACK encoder that emits literal fields without indexing.
pub struct HpackEncoder {
    pub dynamic_table: Vec<(String, String)>,
    pub max_size: usize,
}

impl HpackEncoder {
    /// An encoder with an empty table of 4096 bytes.
    pub fn new() -> (e: Self)
        ensures
            e.dynamic_table@.len() == 0,
            e.max_size == 4096,
    {
        HpackEncoder { dynamic_table: Vec::new(), max_size: 4096 }
    }

    /// Encodes every entry of `headers` as a literal field, in the map's iteration order.
    pub fn encode(&mut self, headers: &HashMap<String, String>) -> (r: Result<Vec<u8>, String>)
        ensures
            r matches Ok(out) && exists|entries: Seq<(String, String)>|
                lists_map(entries, headers@) && texts_fit(entries) && out@ == hpack_literals(entries),
            final(self).dynamic_table@ == old(self).dynamic_table@,
            final(self).max_size == old(self).max_size,
    {
        let entries = map_entries(headers);
        let out = self.encode_list(entries.as_slice());
        Ok(out)
    }

    /// Encodes `entries` as literal fields, in order.
    pub fn encode_list(&self, entries: &[(String, String)]) -> (out: Vec<u8>)
        ensures
            out@ == hpack_literals(entries@),
    {
        let mut out: Vec<u8> = Vec::new();
        let mut i: usize = 0;
        while i < entries.len()
            invariant
                i <= entries@.len(),
                out@ == hpack_literals(entries@.take(i as int)),
            decreases entries@.len() - i,
        {
            assert(entries@.take(i + 1).drop_last() =~= entries@.take(i as int));
            let lit = self.literal_bytes(entries[i].0.as_str(), entries[i].1.as_str());
            let ghost before = out@;
            out.extend_from_slice(lit.as_slice());
            assert(out@ =~= before + lit@);
            i = i + 1;
        }
        assert(entries@.take(i as int) =~= entries@);
        out
    }

    /// A literal header field without indexing.
    pub fn encode_literal_header(&self, name: &str, value: &str) -> (r: Result<Vec<u8>, String>)
        ensures
            r matches Ok(out) && out@ == hpack_literal(utf8_bytes(name@), utf8_bytes(value@)),
    {
        Ok(self.literal_bytes(name, value))
    }

    /// A string literal: its length as a 7-bit-prefix integer, then its UTF-8 bytes.
    pub fn encode_string(&self, s: &str) -> (r: Result<Vec<u8>, String>)
        ensures
            r matches Ok(out) && out@ == hpack_string(utf8_bytes(s@)),
    {
        Ok(self.string_bytes(s))
    }

    /// The HPACK integer encoding of `value` with a `prefix_bits`-bit prefix.
    pub fn encode_integer(&self, value: u64, prefix_bits: u8, pattern: u8) -> (r: Result<Vec<u8>, String>)
        requires
            prefix_bits < 64,
        ensures
            r matches Ok(out) && out@ == hpack_integer(value, prefix_bits, pattern),
    {
        Ok(self.integer_bytes(value, prefix_bits, pattern))
    }

    fn literal_bytes(&self, name: &str, value: &str) -> (out: Vec<u8>)
        ensures
            out@ == hpack_literal(utf8_bytes(name@), utf8_bytes(value@)),
    {
        let mut out: Vec<u8> = vec![0x00];
        let n = self.string_bytes(name);
        let v = self.string_bytes(value);
        let ghost a = out@;
        out.extend_from_slice(n.as_slice());
        let ghost b = out@;
        out.extend_from_slice(v.as_slice());
        assert(b =~= a + n@);
        assert(out@ =~= b + v@);
        assert(out@ =~= seq![0u8] + n@ + v@);
        out
    }

    fn string_bytes(&self, s: &str) -> (out: Vec<u8>)
        ensures
            out@ == hpack_string(utf8_bytes(s@)),
    {
        let bytes = s.as_bytes();
        let mut out = self.integer_bytes(bytes.len() as u64, 7, 0x00);
        let ghost a = out@;
        out.extend_from_slice(bytes);
        assert(out@ =~= a + bytes@);
        out
    }

    fn integer_bytes(&self, value: u64, prefix_bits: u8, pattern: u8) -> (out: Vec<u8>)
        requires
            prefix_bits < 64,
        ensures
            out@ == hpack_integer(value, prefix_bits, pattern),
    {
        assert(1u64 << prefix_bits >= 1) by (bit_vector)
            requires prefix_bits < 64;
        let max_prefix_value = (1u64 << prefix_bits) - 1;
        if value < max_prefix_value {
            let out = vec![pattern | ((value & 0xFF) as u8)];
            assert(out@ =~= hpack_integer(value, prefix_bits, pattern));
            return out;
        }
        let mut out = vec![pattern | ((max_prefix_value & 0xFF) as u8)];
        let mut remaining = value - max_prefix_value;
        let ghost first = out@;
        while remaining >= 128
            invariant
                out@.len() >= 1,
                first + int_continuation((value - max_prefix_value) as u64) == out@ + int_continuation(remaining),
            decreases remaining,
        {
            let ghost before = out@;
            out.push((remaining % 128 + 128) as u8);
            assert(out@ =~= before + seq![(remaining % 128 + 128) as u8]);
            remaining = remaining / 128;
        }
        let ghost before = out@;
        out.push(remaining as u8);
        assert(out@ =~= before + int_continuation(remaining));
        out
    }
}

/// Frame encoding helpers.
pub struct FrameEncoder;

impl FrameEncoder {
    /// A HEADERS frame whose payload holds every entry of `headers` as a literal field.
    pub fn encode_headers_frame(stream_id: u32, headers: &HashMap<String, String>, end_stream: bool) -> (r: Result<Vec<u8>, String>)
        ensures
            r matches Ok(out) && exists|entries: Seq<(String, String)>| lists_map(entries, headers@)
                && out@ == encoded_frame(1, stream_id, hpack_literals(entries), end_stream),
    {
        let mut encoder = HpackEncoder::new();
        let entries = map_entries(headers);
        let payload = encoder.encode_list(entries.as_slice());
        Self::encode_frame(0x01, stream_id, payload.as_slice(), end_stream)
    }

    /// A DATA frame carrying `data`.
    pub fn encode_data_frame(stream_id: u32, data: &[u8], end_stream: bool) -> (r: Result<Vec<u8>, String>)
        ensures
            r matches Ok(out) && out@ == encoded_frame(0, stream_id, data@, end_stream),
    {
        Self::encode_frame(0x00, stream_id, data, end_stream)
    }

    /// A frame of type `frame_type` carrying `payload`.
    pub fn encode_frame(frame_type: u8, stream_id: u32, payload: &[u8], end_stream: bool) -> (r: Result<Vec<u8>, String>)
        ensures
            r matches Ok(out) && out@ == encoded_frame(frame_type, stream_id, payload@, end_stream),
    {
        let mut frame: Vec<u8> = Vec::new();
        let length = payload.len() as u32;
        frame.push((length >> 16u32) as u8);
        frame.push((length >> 8u32) as u8);
        frame.push(length as u8);
        frame.push(frame_type);
        let flags: u8 = if end_stream { 0x01 } else { 0x00 };
        frame.push(flags);
        let sid = stream_id & 0x7FFF_FFFF;
        frame.push((sid >> 24u32) as u8);
        frame.push((sid >> 16u32) as u8);
        frame.push((sid >> 8u32) as u8);
        frame.push(sid as u8);
        let ghost head = frame@;
        frame.extend_from_slice(payload);
        assert(frame@ =~= head + payload@);
        assert(frame@ =~= encoded_frame(frame_type, stream_id, payload@, end_stream));
        Ok(frame)
    }

    /// Reads a nine-byte frame header: (length, type, flags, stream id without the reserved bit).
    pub fn parse_frame_header(header: &[u8; 9]) -> (r: Result<(u32, u8, u8, u32), String>)
        ensures
            r == Ok::<(u32, u8, u8, u32), String>(header_fields(header@)),
    {
        let length = ((header[0] as u32) << 16u32) | ((header[1] as u32) << 8u32) | (header[2] as u32);
        let frame_type = header[3];
        let flags = header[4];
        let stream_id = (((header[5] as u32) << 24u32) | ((header[6] as u32) << 16u32)
            | ((header[7] as u32) << 8u32) | (header[8] as u32)) & 0x7FFF_FFFF;
        Ok((length, frame_type, flags, stream_id))
    }
}

} // verus!
