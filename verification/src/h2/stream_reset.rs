use vstd::prelude::*;
use crate::bytes::{be32, be32_bytes, read_be_u32, push_be_u32, lemma_be32_roundtrip};
use crate::text::{decimal, hex_lower, push_decimal, push_hex_lower};

verus! {

/// RST_STREAM error codes (RFC 7540, Section 7).
#[derive(Debug, Clone, Copy, PartialEq, Eq, Hash, Structural)]
pub enum ErrorCode {
    NoError,
    ProtocolError,
    InternalError,
    FlowControlError,
    StreamClosedError,
    FrameSizeError,
    RefusedStreamError,
    CancelError,
    CompressionError,
    ConnectionError,
}

/// The wire value of an error code.
pub open spec fn error_code_value(c: ErrorCode) -> u32 {
    match c {
        ErrorCode::NoError => 0x0,
        ErrorCode::ProtocolError => 0x1,
        ErrorCode::InternalError => 0x2,
        ErrorCode::FlowControlError => 0x3,
        ErrorCode::StreamClosedError => 0x5,
        ErrorCode::FrameSizeError => 0x6,
        ErrorCode::RefusedStreamError => 0x7,
        ErrorCode::CancelError => 0x8,
        ErrorCode::CompressionError => 0x9,
        ErrorCode::ConnectionError => 0xa,
    }
}

/// The error code with wire value `code`, if any.
pub open spec fn error_code_from_value(code: u32) -> Option<ErrorCode> {
    if code == 0x0 { Some(ErrorCode::NoError) }
    else if code == 0x1 { Some(ErrorCode::ProtocolError) }
    else if code == 0x2 { Some(ErrorCode::InternalError) }
    else if code == 0x3 { Some(ErrorCode::FlowControlError) }
    else if code == 0x5 { Some(ErrorCode::StreamClosedError) }
    else if code == 0x6 { Some(ErrorCode::FrameSizeError) }
    else if code == 0x7 { Some(ErrorCode::RefusedStreamError) }
    else if code == 0x8 { Some(ErrorCode::CancelError) }
    else if code == 0x9 { Some(ErrorCode::CompressionError) }
    else if code == 0xa { Some(ErrorCode::ConnectionError) }
    else { None }
}

/// The RFC name of an error code.
pub open spec fn error_code_name(c: ErrorCode) -> Seq<char> {
    match c {
        ErrorCode::NoError => "NO_ERROR"@,
        ErrorCode::ProtocolError => "PROTOCOL_ERROR"@,
        ErrorCode::InternalError => "INTERNAL_ERROR"@,
        ErrorCode::FlowControlError => "FLOW_CONTROL_ERROR"@,
        ErrorCode::StreamClosedError => "STREAM_CLOSED_ERROR"@,
        ErrorCode::FrameSizeError => "FRAME_SIZE_ERROR"@,
        ErrorCode::RefusedStreamError => "REFUSED_STREAM_ERROR"@,
        ErrorCode::CancelError => "CANCEL_ERROR"@,
        ErrorCode::CompressionError => "COMPRESSION_ERROR"@,
        ErrorCode::ConnectionError => "CONNECTION_ERROR"@,
    }
}

impl ErrorCode {
    /// The error code with wire value `code`, or `None` for an unknown value.
    pub fn from_u32(code: u32) -> (r: Option<Self>)
        ensures
            r == error_code_from_value(code),
    {
        match code {
            0x0 => Some(ErrorCode::NoError),
            0x1 => Some(ErrorCode::ProtocolError),
            0x2 => Some(ErrorCode::InternalError),
            0x3 => Some(ErrorCode::FlowControlError),
            0x5 => Some(ErrorCode::StreamClosedError),
            0x6 => Some(ErrorCode::FrameSizeError),
            0x7 => Some(ErrorCode::RefusedStreamError),
            0x8 => Some(ErrorCode::CancelError),
            0x9 => Some(ErrorCode::CompressionError),
            0xa => Some(ErrorCode::ConnectionError),
            _ => None,
        }
    }

    /// The wire value of this error code.
    pub fn as_u32(&self) -> (r: u32)
        ensures
            r == error_code_value(*self),
    {
        match self {
            ErrorCode::NoError => 0x0,
            ErrorCode::ProtocolError => 0x1,
            ErrorCode::InternalError => 0x2,
            ErrorCode::FlowControlError => 0x3,
            ErrorCode::StreamClosedError => 0x5,
            ErrorCode::FrameSizeError => 0x6,
            ErrorCode::RefusedStreamError => 0x7,
            ErrorCode::CancelError => 0x8,
            ErrorCode::CompressionError => 0x9,
            ErrorCode::ConnectionError => 0xa,
        }
    }

    /// The RFC name of this error code.
    pub fn name(&self) -> (r: &'static str)
        ensures
            r@ == error_code_name(*self),
    {
        match self {
            ErrorCode::NoError => "NO_ERROR",
            ErrorCode::ProtocolError => "PROTOCOL_ERROR",
            ErrorCode::InternalError => "INTERNAL_ERROR",
            ErrorCode::FlowControlError => "FLOW_CONTROL_ERROR",
            ErrorCode::StreamClosedError => "STREAM_CLOSED_ERROR",
            ErrorCode::FrameSizeError => "FRAME_SIZE_ERROR",
            ErrorCode::RefusedStreamError => "REFUSED_STREAM_ERROR",
            ErrorCode::CancelError => "CANCEL_ERROR",
            ErrorCode::CompressionError => "COMPRESSION_ERROR",
            ErrorCode::ConnectionError => "CONNECTION_ERROR",
        }
    }
}

/// Every known code maps back to itself through its wire value.
pub proof fn lemma_error_code_value_roundtrip(c: ErrorCode)
    ensures
        error_code_from_value(error_code_value(c)) == Some(c),
{
}

/// A reset of one stream.
#[derive(Debug, Clone, PartialEq, Eq, Structural)]
pub struct StreamReset {
    pub stream_id: u32,
    pub error_code: ErrorCode,
    pub reset_time: u64,
}

impl StreamReset {
    /// A reset of `stream_id` with time 0.
    pub fn new(stream_id: u32, error_code: ErrorCode) -> (r: Self)
        ensures
            r == (StreamReset { stream_id, error_code, reset_time: 0 }),
    {
        StreamReset { stream_id, error_code, reset_time: 0 }
    }

    /// A reset of `stream_id` at `time`.
    pub fn with_time(stream_id: u32, error_code: ErrorCode, time: u64) -> (r: Self)
        ensures
            r == (StreamReset { stream_id, error_code, reset_time: time }),
    {
        StreamReset { stream_id, error_code, reset_time: time }
    }
}

/// RST_STREAM frame payload codec.
pub struct RstStreamFrame;

/// The message for a payload of the wrong size.
pub open spec fn rst_size_message(len: nat) -> Seq<char> {
    "RST_STREAM payload size invalid: "@ + decimal(len) + " bytes (expected: 4)"@
}

/// The message for an unknown error code.
pub open spec fn unknown_code_message(code: nat) -> Seq<char> {
    "Unknown error code: 0x"@ + hex_lower(code)
}

impl RstStreamFrame {
    pub const FRAME_TYPE: u8 = 0x03;
    pub const PAYLOAD_SIZE: usize = 4;

    /// Parses a RST_STREAM payload: exactly four bytes holding a known big-endian error code.
    pub fn parse(payload: &[u8]) -> (r: Result<ErrorCode, String>)
        ensures
            payload@.len() != 4 ==> r is Err && r->Err_0@ == rst_size_message(payload@.len()),
            payload@.len() == 4 ==> {
                let code = be32(payload@[0], payload@[1], payload@[2], payload@[3]);
                match error_code_from_value(code as u32) {
                    Some(c) => r == Ok::<ErrorCode, String>(c),
                    None => r is Err && r->Err_0@ == unknown_code_message(code),
                }
            },
    {
        if payload.len() != Self::PAYLOAD_SIZE {
            let mut msg = String::from_str("RST_STREAM payload size invalid: ");
            push_decimal(&mut msg, payload.len() as u64);
            msg.append(" bytes (expected: 4)");
            return Err(msg);
        }
        let raw = read_be_u32(payload, 0);
        match ErrorCode::from_u32(raw) {
            Some(c) => Ok(c),
            None => {
                let mut msg = String::from_str("Unknown error code: 0x");
                push_hex_lower(&mut msg, raw as u64);
                Err(msg)
            },
        }
    }

    /// Encodes an error code as a four-byte big-endian payload.
    pub fn encode(error_code: ErrorCode) -> (r: Vec<u8>)
        ensures
            r@ == be32_bytes(error_code_value(error_code)),
    {
        let mut out: Vec<u8> = Vec::new();
        push_be_u32(&mut out, error_code.as_u32());
        assert(out@ =~= be32_bytes(error_code_value(error_code)));
        out
    }

    /// RST_STREAM is refused on stream 0 (the connection).
    pub fn validate(stream_id: u32) -> (r: Result<(), String>)
        ensures
            r is Ok <==> stream_id != 0,
            r is Err ==> r->Err_0@ == "RST_STREAM cannot be sent on stream 0 (connection)"@,
    {
        if stream_id == 0 {
            return Err("RST_STREAM cannot be sent on stream 0 (connection)".to_owned());
        }
        Ok(())
    }
}

/// Decoding an encoded RST_STREAM payload gives back the error code.
pub proof fn lemma_rst_stream_roundtrip(c: ErrorCode)
    ensures
        ({
            let b = be32_bytes(error_code_value(c));
            error_code_from_value(be32(b[0], b[1], b[2], b[3]) as u32) == Some(c)
        }),
{
    lemma_be32_roundtrip(error_code_value(c));
}

/// Whether some reset in `s` is for `stream_id`.
pub open spec fn has_stream(s: Seq<StreamReset>, stream_id: u32) -> bool {
    exists|i: int| 0 <= i < s.len() && s[i].stream_id == stream_id
}

/// No two resets in `s` are for the same stream.
pub open spec fn distinct_streams(s: Seq<StreamReset>) -> bool {
    forall|i: int, j: int| 0 <= i < s.len() && 0 <= j < s.len() && i != j
        ==> s[i].stream_id != s[j].stream_id
}

/// The number of resets in `s` with error code `c`.
pub open spec fn count_code(s: Seq<StreamReset>, c: ErrorCode) -> nat
    decreases s.len(),
{
    if s.len() == 0 {
        0
    } else {
        count_code(s.drop_last(), c) + if s.last().error_code == c { 1nat } else { 0nat }
    }
}

/// The position of an error code in a per-code table.
pub open spec fn code_index(c: ErrorCode) -> int {
    match c {
        ErrorCode::NoError => 0,
        ErrorCode::ProtocolError => 1,
        ErrorCode::InternalError => 2,
        ErrorCode::FlowControlError => 3,
        ErrorCode::StreamClosedError => 4,
        ErrorCode::FrameSizeError => 5,
        ErrorCode::RefusedStreamError => 6,
        ErrorCode::CancelError => 7,
        ErrorCode::CompressionError => 8,
        ErrorCode::ConnectionError => 9,
    }
}

fn code_slot(c: ErrorCode) -> (r: usize)
    ensures
        r == code_index(c),
{
    match c {
        ErrorCode::NoError => 0,
        ErrorCode::ProtocolError => 1,
        ErrorCode::InternalError => 2,
        ErrorCode::FlowControlError => 3,
        ErrorCode::StreamClosedError => 4,
        ErrorCode::FrameSizeError => 5,
        ErrorCode::RefusedStreamError => 6,
        ErrorCode::CancelError => 7,
        ErrorCode::CompressionError => 8,
        ErrorCode::ConnectionError => 9,
    }
}

/// Per-error-code counts; a code that does not occur has no entry.
#[derive(Debug, Clone)]
pub struct ErrorCodeCounts {
    counts: Vec<usize>,
}

impl ErrorCodeCounts {
    /// The count recorded for `c`, or `None` where `c` does not occur.
    pub closed spec fn count_of(&self, c: ErrorCode) -> Option<usize> {
        if self.counts@.len() == 10 && self.counts@[code_index(c)] > 0 {
            Some(self.counts@[code_index(c)])
        } else {
            None
        }
    }

    /// The count for `code`, or `None` where no reset has that code.
    pub fn get(&self, code: &ErrorCode) -> (r: Option<&usize>)
        ensures
            match self.count_of(*code) {
                Some(n) => r == Some(&n),
                None => r is None,
            },
    {
        let k = code_slot(*code);
        if self.counts.len() == 10 && self.counts[k] > 0 {
            Some(&self.counts[k])
        } else {
            None
        }
    }
}

/// Records RST_STREAM resets, one per stream.
pub struct StreamResetManager {
    resets: Vec<StreamReset>,
    total_resets: u64,
}

/// Statistics over the recorded resets.
#[derive(Debug, Clone)]
pub struct StreamResetStats {
    pub total_resets: u64,
    pub reset_streams: usize,
    pub by_error_code: ErrorCodeCounts,
}

impl View for StreamResetManager {
    type V = Seq<StreamReset>;

    closed spec fn view(&self) -> Seq<StreamReset> {
        self.resets@
    }
}

impl StreamResetManager {
    /// The manager's invariant: one reset per stream, and the total counts them.
    pub closed spec fn wf(&self) -> bool {
        &&& distinct_streams(self.resets@)
        &&& self.total_resets == self.resets@.len()
    }

    /// An empty manager.
    pub fn new() -> (m: Self)
        ensures
            m.wf(),
            m@ == Seq::<StreamReset>::empty(),
    {
        StreamResetManager { resets: Vec::new(), total_resets: 0 }
    }

    fn find(&self, stream_id: u32) -> (r: Option<usize>)
        ensures
            match r {
                Some(i) => i < self.resets@.len() && self.resets@[i as int].stream_id == stream_id,
                None => !has_stream(self.resets@, stream_id),
            },
    {
        let mut i: usize = 0;
        while i < self.resets.len()
            invariant
                i <= self.resets@.len(),
                forall|j: int| 0 <= j < i ==> self.resets@[j].stream_id != stream_id,
            decreases self.resets@.len() - i,
        {
            if self.resets[i].stream_id == stream_id {
                return Some(i);
            }
            i = i + 1;
        }
        None
    }

    /// Records a reset; a second reset of the same stream is refused.
    pub fn record_reset(&mut self, reset: StreamReset) -> (r: Result<(), String>)
        requires
            old(self).wf(),
            old(self)@.len() < u64::MAX,
        ensures
            final(self).wf(),
            has_stream(old(self)@, reset.stream_id) ==> r is Err && final(self)@ == old(self)@
                && r->Err_0@ == "Stream "@ + decimal(reset.stream_id as nat) + " already reset"@,
            !has_stream(old(self)@, reset.stream_id) ==> r is Ok && final(self)@ == old(self)@.push(reset),
    {
        if self.find(reset.stream_id).is_some() {
            let mut msg = String::from_str("Stream ");
            push_decimal(&mut msg, reset.stream_id as u64);
            msg.append(" already reset");
            return Err(msg);
        }
        let ghost prev = self.resets@;
        self.resets.push(reset);
        self.total_resets = self.total_resets + 1;
        assert(distinct_streams(self.resets@)) by {
            assert forall|i: int, j: int|
                0 <= i < self.resets@.len() && 0 <= j < self.resets@.len() && i != j
                implies self.resets@[i].stream_id != self.resets@[j].stream_id by {
                if i < prev.len() && j < prev.len() {
                } else if i == prev.len() {
                    assert(prev[j].stream_id == self.resets@[j].stream_id);
                } else {
                    assert(prev[i].stream_id == self.resets@[i].stream_id);
                }
            }
        }
        Ok(())
    }

    /// The reset recorded for `stream_id`, if any.
    pub fn get_reset(&self, stream_id: u32) -> (r: Option<&StreamReset>)
        requires
            self.wf(),
        ensures
            match r {
                Some(x) => self@.contains(*x) && x.stream_id == stream_id,
                None => !has_stream(self@, stream_id),
            },
    {
        match self.find(stream_id) {
            Some(i) => Some(&self.resets[i]),
            None => None,
        }
    }

    /// Whether `stream_id` has been reset.
    pub fn is_reset(&self, stream_id: u32) -> (r: bool)
        ensures
            r == has_stream(self@, stream_id),
    {
        self.find(stream_id).is_some()
    }

    /// The reset stream ids, in the order they were recorded.
    pub fn get_all_resets(&self) -> (r: Vec<u32>)
        ensures
            r@ == self@.map_values(|x: StreamReset| x.stream_id),
    {
        let mut out: Vec<u32> = Vec::new();
        let mut i: usize = 0;
        while i < self.resets.len()
            invariant
                i <= self.resets@.len(),
                out@ == self.resets@.take(i as int).map_values(|x: StreamReset| x.stream_id),
            decreases self.resets@.len() - i,
        {
            out.push(self.resets[i].stream_id);
            i = i + 1;
            assert(out@ =~= self.resets@.take(i as int).map_values(|x: StreamReset| x.stream_id));
        }
        assert(self.resets@.take(i as int) =~= self.resets@);
        out
    }

    /// Totals and per-code counts of the recorded resets.
    pub fn stats(&self) -> (st: StreamResetStats)
        requires
            self.wf(),
        ensures
            st.total_resets == self@.len(),
            st.reset_streams == self@.len(),
            forall|c: ErrorCode| #[trigger] st.by_error_code.count_of(c)
                == (if count_code(self@, c) > 0 { Some(count_code(self@, c) as usize) } else { None }),
    {
        let mut counts: Vec<usize> = vec![0, 0, 0, 0, 0, 0, 0, 0, 0, 0];
        let mut i: usize = 0;
        while i < self.resets.len()
            invariant
                i <= self.resets@.len(),
                counts@.len() == 10,
                forall|c: ErrorCode| #[trigger] counts@[code_index(c)]
                    == count_code(self.resets@.take(i as int), c),
                forall|c: ErrorCode| count_code(self.resets@.take(i as int), c) <= i,
            decreases self.resets@.len() - i,
        {
            let code = self.resets[i].error_code;
            let ghost pre = self.resets@.take(i as int);
            let ghost post = self.resets@.take(i + 1);
            assert(post.drop_last() =~= pre);
            assert(forall|c: ErrorCode| #[trigger] count_code(post, c)
                == count_code(pre, c) + if c == code { 1nat } else { 0nat });
            let k = code_slot(code);
            let v = counts[k];
            counts.set(k, v + 1);
            i = i + 1;
        }
        assert(self.resets@.take(i as int) =~= self.resets@);
        StreamResetStats {
            total_resets: self.total_resets,
            reset_streams: self.resets.len(),
            by_error_code: ErrorCodeCounts { counts },
        }
    }

    /// Forgets all resets.
    pub fn clear(&mut self)
        ensures
            final(self).wf(),
            final(self)@ == Seq::<StreamReset>::empty(),
    {
        self.resets.clear();
        self.total_resets = 0;
    }

    /// The number of reset streams.
    pub fn reset_count(&self) -> (n: usize)
        ensures
            n == self@.len(),
    {
        self.resets.len()
    }
}

} // verus!
