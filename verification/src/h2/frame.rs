use vstd::prelude::*;
use crate::bytes::{be24, be32, read_be_u24};
use crate::text::{decimal, push_decimal};

verus! {

/// HTTP/2 frame types (RFC 7540, Section 6).
#[derive(Debug, Clone, Copy, PartialEq, Eq, Structural)]
pub enum FrameType {
    Data,
    Headers,
    Priority,
    RstStream,
    Settings,
    PushPromise,
    Ping,
    GoAway,
    WindowUpdate,
    Continuation,
    Unknown(u8),
}

/// The frame type for a type byte.
pub open spec fn frame_type_of(ty: u8) -> FrameType {
    if ty == 0 { FrameType::Data }
    else if ty == 1 { FrameType::Headers }
    else if ty == 2 { FrameType::Priority }
    else if ty == 3 { FrameType::RstStream }
    else if ty == 4 { FrameType::Settings }
    else if ty == 5 { FrameType::PushPromise }
    else if ty == 6 { FrameType::Ping }
    else if ty == 7 { FrameType::GoAway }
    else if ty == 8 { FrameType::WindowUpdate }
    else if ty == 9 { FrameType::Continuation }
    else { FrameType::Unknown(ty) }
}

/// The type byte of a frame type.
pub open spec fn frame_type_byte(t: FrameType) -> u8 {
    match t {
        FrameType::Data => 0,
        FrameType::Headers => 1,
        FrameType::Priority => 2,
        FrameType::RstStream => 3,
        FrameType::Settings => 4,
        FrameType::PushPromise => 5,
        FrameType::Ping => 6,
        FrameType::GoAway => 7,
        FrameType::WindowUpdate => 8,
        FrameType::Continuation => 9,
        FrameType::Unknown(n) => n,
    }
}

/// The RFC name of a frame type.
pub open spec fn frame_type_name(t: FrameType) -> Seq<char> {
    match t {
        FrameType::Data => "DATA"@,
        FrameType::Headers => "HEADERS"@,
        FrameType::Priority => "PRIORITY"@,
        FrameType::RstStream => "RST_STREAM"@,
        FrameType::Settings => "SETTINGS"@,
        FrameType::PushPromise => "PUSH_PROMISE"@,
        FrameType::Ping => "PING"@,
        FrameType::GoAway => "GOAWAY"@,
        FrameType::WindowUpdate => "WINDOW_UPDATE"@,
        FrameType::Continuation => "CONTINUATION"@,
        FrameType::Unknown(_) => "UNKNOWN"@,
    }
}

/// How a frame type is displayed: its name, or `UNKNOWN(n)`.
pub open spec fn frame_type_display(t: FrameType) -> Seq<char> {
    match t {
        FrameType::Unknown(n) => "UNKNOWN("@ + decimal(n as nat) + ")"@,
        _ => frame_type_name(t),
    }
}

impl FrameType {
    /// The frame type for a type byte; unassigned bytes give `Unknown`.
    pub fn from_u8(ty: u8) -> (r: Self)
        ensures
            r == frame_type_of(ty),
    {
        match ty {
            0x0 => FrameType::Data,
            0x1 => FrameType::Headers,
            0x2 => FrameType::Priority,
            0x3 => FrameType::RstStream,
            0x4 => FrameType::Settings,
            0x5 => FrameType::PushPromise,
            0x6 => FrameType::Ping,
            0x7 => FrameType::GoAway,
            0x8 => FrameType::WindowUpdate,
            0x9 => FrameType::Continuation,
            other => FrameType::Unknown(other),
        }
    }

    /// The type byte.
    pub fn to_u8(&self) -> (r: u8)
        ensures
            r == frame_type_byte(*self),
    {
        match self {
            FrameType::Data => 0x0,
            FrameType::Headers => 0x1,
            FrameType::Priority => 0x2,
            FrameType::RstStream => 0x3,
            FrameType::Settings => 0x4,
            FrameType::PushPromise => 0x5,
            FrameType::Ping => 0x6,
            FrameType::GoAway => 0x7,
            FrameType::WindowUpdate => 0x8,
            FrameType::Continuation => 0x9,
            FrameType::Unknown(n) => *n,
        }
    }

    /// The RFC name (`UNKNOWN` for unassigned types).
    pub fn as_str(&self) -> (r: &'static str)
        ensures
            r@ == frame_type_name(*self),
    {
        match self {
            FrameType::Data => "DATA",
            FrameType::Headers => "HEADERS",
            FrameType::Priority => "PRIORITY",
            FrameType::RstStream => "RST_STREAM",
            FrameType::Settings => "SETTINGS",
            FrameType::PushPromise => "PUSH_PROMISE",
            FrameType::Ping => "PING",
            FrameType::GoAway => "GOAWAY",
            FrameType::WindowUpdate => "WINDOW_UPDATE",
            FrameType::Continuation => "CONTINUATION",
            FrameType::Unknown(_) => "UNKNOWN",
        }
    }

    /// The display form: the name, or `UNKNOWN(n)`.
    pub fn to_string(&self) -> (r: String)
        ensures
            r@ == frame_type_display(*self),
    {
        match self {
            FrameType::Unknown(n) => {
                let mut s = String::from_str("UNKNOWN(");
                push_decimal(&mut s, *n as u64);
                s.append(")");
                s
            },
            _ => self.as_str().to_owned(),
        }
    }
}

/// Every type byte maps back to itself.
pub proof fn lemma_frame_type_byte_roundtrip(ty: u8)
    ensures
        frame_type_byte(frame_type_of(ty)) == ty,
{
}

/// The flags byte of a frame.
#[derive(Debug, Clone, Copy, PartialEq, Eq, Structural)]
pub struct FrameFlags(u8);

impl View for FrameFlags {
    type V = u8;

    closed spec fn view(&self) -> u8 {
        self.0
    }
}

/// The display form of a flags byte: the set flags joined by `|`, or `none`.
pub open spec fn flags_display(b: u8) -> Seq<char> {
    let names = (if b & 1 != 0 { seq!["END_STREAM"@] } else { Seq::<Seq<char>>::empty() })
        + (if b & 4 != 0 { seq!["END_HEADERS"@] } else { Seq::<Seq<char>>::empty() })
        + (if b & 8 != 0 { seq!["PADDED"@] } else { Seq::<Seq<char>>::empty() })
        + (if b & 32 != 0 { seq!["PRIORITY"@] } else { Seq::<Seq<char>>::empty() });
    if names.len() == 0 { "none"@ } else { join_bar(names) }
}

/// Joins names with `|`.
pub open spec fn join_bar(names: Seq<Seq<char>>) -> Seq<char>
    decreases names.len(),
{
    if names.len() == 0 {
        Seq::empty()
    } else if names.len() == 1 {
        names[0]
    } else {
        join_bar(names.drop_last()) + "|"@ + names.last()
    }
}

impl FrameFlags {
    /// Flags from their byte.
    pub fn new(byte: u8) -> (f: Self)
        ensures
            f@ == byte,
    {
        FrameFlags(byte)
    }

    /// END_STREAM (0x1).
    pub fn end_stream(&self) -> (r: bool)
        ensures
            r == (self@ & 0x1 != 0),
    {
        self.0 & 0x1 != 0
    }

    /// END_HEADERS (0x4).
    pub fn end_headers(&self) -> (r: bool)
        ensures
            r == (self@ & 0x4 != 0),
    {
        self.0 & 0x4 != 0
    }

    /// PADDED (0x8).
    pub fn padded(&self) -> (r: bool)
        ensures
            r == (self@ & 0x8 != 0),
    {
        self.0 & 0x8 != 0
    }

    /// PRIORITY (0x20).
    pub fn priority(&self) -> (r: bool)
        ensures
            r == (self@ & 0x20 != 0),
    {
        self.0 & 0x20 != 0
    }

    /// ACK (0x1, on SETTINGS and PING).
    pub fn ack(&self) -> (r: bool)
        ensures
            r == (self@ & 0x1 != 0),
    {
        self.0 & 0x1 != 0
    }

    /// The flags byte.
    pub fn raw(&self) -> (r: u8)
        ensures
            r == self@,
    {
        self.0
    }

    /// The display form: set flags joined by `|`, or `none`.
    pub fn to_string(&self) -> (r: String)
        ensures
            r@ == flags_display(self@),
    {
        let b = self.0;
        let ghost names = (if b & 1 != 0 { seq!["END_STREAM"@] } else { Seq::<Seq<char>>::empty() })
            + (if b & 4 != 0 { seq!["END_HEADERS"@] } else { Seq::<Seq<char>>::empty() })
            + (if b & 8 != 0 { seq!["PADDED"@] } else { Seq::<Seq<char>>::empty() })
            + (if b & 32 != 0 { seq!["PRIORITY"@] } else { Seq::<Seq<char>>::empty() });
        let mut out = String::new();
        let mut count: usize = 0;
        let ghost mut acc = Seq::<Seq<char>>::empty();
        if b & 1 != 0 {
            Self::append_flag(&mut out, count, "END_STREAM", Ghost(acc));
            proof { acc = acc.push("END_STREAM"@); }
            count = count + 1;
        }
        if b & 4 != 0 {
            Self::append_flag(&mut out, count, "END_HEADERS", Ghost(acc));
            proof { acc = acc.push("END_HEADERS"@); }
            count = count + 1;
        }
        if b & 8 != 0 {
            Self::append_flag(&mut out, count, "PADDED", Ghost(acc));
            proof { acc = acc.push("PADDED"@); }
            count = count + 1;
        }
        if b & 32 != 0 {
            Self::append_flag(&mut out, count, "PRIORITY", Ghost(acc));
            proof { acc = acc.push("PRIORITY"@); }
            count = count + 1;
        }
        assert(acc =~= names);
        if count == 0 {
            return "none".to_owned();
        }
        out
    }

    fn append_flag(out: &mut String, count: usize, name: &str, Ghost(acc): Ghost<Seq<Seq<char>>>)
        requires
            acc.len() == count,
            old(out)@ == join_bar(acc),
        ensures
            final(out)@ == join_bar(acc.push(name@)),
    {
        assert(acc.push(name@).drop_last() =~= acc);
        if count > 0 {
            out.append("|");
        } else {
            assert(acc =~= Seq::<Seq<char>>::empty());
        }
        out.append(name);
    }
}

/// A parsed frame header.
#[derive(Debug, Clone)]
pub struct Frame {
    pub length: u32,
    pub frame_type: FrameType,
    pub flags: FrameFlags,
    pub stream_id: u32,
}

/// The display form of a frame header.
pub open spec fn frame_display(f: Frame) -> Seq<char> {
    frame_type_display(f.frame_type) + " length="@ + decimal(f.length as nat) + " flags="@
        + flags_display(f.flags@) + " stream="@ + decimal(f.stream_id as nat)
}

impl Frame {
    /// Parses the nine-byte frame header at the start of `header`: 24-bit length, type,
    /// flags, and a 31-bit stream id (the reserved bit cleared).
    pub fn parse(header: &[u8]) -> (r: Result<Self, String>)
        ensures
            header@.len() < 9 ==> r is Err && r->Err_0@ == "Frame header too short: "@
                + decimal(header@.len()) + " bytes"@,
            header@.len() >= 9 ==> (r matches Ok(f)
                && f.length == be24(header@[0], header@[1], header@[2])
                && f.frame_type == frame_type_of(header@[3])
                && f.flags@ == header@[4]
                && f.stream_id == be32(header@[5] & 0x7f, header@[6], header@[7], header@[8])),
    {
        if header.len() < 9 {
            let mut msg = String::from_str("Frame header too short: ");
            push_decimal(&mut msg, header.len() as u64);
            msg.append(" bytes");
            return Err(msg);
        }
        let length = read_be_u24(header, 0);
        let frame_type = FrameType::from_u8(header[3]);
        let flags = FrameFlags::new(header[4]);
        let b5 = header[5] & 0x7F;
        let b6 = header[6];
        let b7 = header[7];
        let b8 = header[8];
        let stream_id = ((b5 as u32) << 24u32) | ((b6 as u32) << 16u32) | ((b7 as u32) << 8u32) | (b8 as u32);
        assert(stream_id == (b5 as u32) * 16777216u32 + (b6 as u32) * 65536u32 + (b7 as u32) * 256u32 + (b8 as u32))
            by (bit_vector)
            requires
                stream_id == ((b5 as u32) << 24u32) | ((b6 as u32) << 16u32) | ((b7 as u32) << 8u32) | (b8 as u32),
        ;
        Ok(Frame { length, frame_type, flags, stream_id })
    }

    /// Whether this is a HEADERS frame.
    pub fn is_headers(&self) -> (r: bool)
        ensures
            r == (self.frame_type == FrameType::Headers),
    {
        match self.frame_type {
            FrameType::Headers => true,
            _ => false,
        }
    }

    /// Whether this is a DATA frame.
    pub fn is_data(&self) -> (r: bool)
        ensures
            r == (self.frame_type == FrameType::Data),
    {
        match self.frame_type {
            FrameType::Data => true,
            _ => false,
        }
    }

    /// Whether this is a CONTINUATION frame.
    pub fn is_continuation(&self) -> (r: bool)
        ensures
            r == (self.frame_type == FrameType::Continuation),
    {
        match self.frame_type {
            FrameType::Continuation => true,
            _ => false,
        }
    }

    /// Whether END_STREAM is set.
    pub fn is_end_stream(&self) -> (r: bool)
        ensures
            r == (self.flags@ & 0x1 != 0),
    {
        self.flags.end_stream()
    }

    /// Whether END_HEADERS is set.
    pub fn is_end_headers(&self) -> (r: bool)
        ensures
            r == (self.flags@ & 0x4 != 0),
    {
        self.flags.end_headers()
    }

    /// The display form: `TYPE length=N flags=F stream=S`.
    pub fn to_string(&self) -> (r: String)
        ensures
            r@ == frame_display(*self),
    {
        let mut s = self.frame_type.to_string();
        s.append(" length=");
        push_decimal(&mut s, self.length as u64);
        s.append(" flags=");
        let f = self.flags.to_string();
        s.append(f.as_str());
        s.append(" stream=");
        push_decimal(&mut s, self.stream_id as u64);
        s
    }
}

/// The frame type names of RFC 7540, Section 6, by type byte, from 0x0 to 0x9.
pub open spec fn rfc7540_frame_names() -> Seq<Seq<char>> {
    seq!["DATA"@, "HEADERS"@, "PRIORITY"@, "RST_STREAM"@, "SETTINGS"@, "PUSH_PROMISE"@, "PING"@, "GOAWAY"@,
        "WINDOW_UPDATE"@, "CONTINUATION"@]
}

/// A type byte read by `FrameType::from_u8` is named by `as_str` as RFC 7540, Section 6 names
/// that byte's frame type (0x6 is PING, 0x7 is GOAWAY); bytes past 0x9 are unknown types.
pub proof fn lemma_frame_type_names(b: u8)
    ensures
        b < 10 ==> frame_type_name(frame_type_of(b)) == rfc7540_frame_names()[b as int],
        b < 10 <==> !(frame_type_of(b) is Unknown),
{
    let t = rfc7540_frame_names();
    assert(t.len() == 10);
    if b < 10 {
        assert(frame_type_name(frame_type_of(b)) == t[b as int]);
    }
}

/// The frames the crate builds read back through `Frame::parse` as the type they carry:
/// a DATA frame, a request HEADERS frame, an empty SETTINGS frame and a WINDOW_UPDATE frame.
pub proof fn lemma_built_frame_types(stream_id: u32, increment: u32, payload: Seq<u8>, end_stream: bool)
    ensures
        frame_type_of(crate::h2::frame_encoder::encoded_frame(0, stream_id, payload, end_stream)[3]) == FrameType::Data,
        frame_type_of(crate::h2::hpack_encoder::headers_frame(payload, stream_id)[3]) == FrameType::Headers,
        frame_type_of(seq![0u8, 0u8, 0u8, 4u8, 0u8, 0u8, 0u8, 0u8, 0u8][3]) == FrameType::Settings,
        frame_type_of((seq![0u8, 0u8, 4u8, 8u8, 0u8] + crate::h2::h2_proxy_bridge::be31(stream_id)
            + crate::h2::h2_proxy_bridge::be31(increment))[3]) == FrameType::WindowUpdate,
{
    assert((seq![0u8, 0u8, 4u8, 8u8, 0u8] + crate::h2::h2_proxy_bridge::be31(stream_id)
        + crate::h2::h2_proxy_bridge::be31(increment))[3] == 8u8);
}

} // verus!
