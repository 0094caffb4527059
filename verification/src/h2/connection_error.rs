use vstd::prelude::*;
use vstd::slice::{slice_subrange, slice_to_vec};
use crate::bytes::{be32, be32_bytes, read_be_u32, push_be_u32, lemma_be32_roundtrip};
use crate::text::{hex_lower, push_hex_lower, str_eq};

verus! {

/// GOAWAY / connection error codes (RFC 7540, Section 7).
#[derive(Debug, Clone, Copy, PartialEq, Eq, Hash, Structural)]
pub enum ConnectionErrorCode {
    NoError,
    ProtocolError,
    InternalError,
    FlowControlError,
    SettingsTimeout,
    StreamClosedError,
    FrameSizeError,
    RefusedStreamError,
    CancelError,
    CompressionError,
    ConnectionErrorCode,
}

/// The wire value of a connection error code; it is also its position in per-code tables.
pub open spec fn conn_code_value(c: ConnectionErrorCode) -> u32 {
    match c {
        ConnectionErrorCode::NoError => 0x0,
        ConnectionErrorCode::ProtocolError => 0x1,
        ConnectionErrorCode::InternalError => 0x2,
        ConnectionErrorCode::FlowControlError => 0x3,
        ConnectionErrorCode::SettingsTimeout => 0x4,
        ConnectionErrorCode::StreamClosedError => 0x5,
        ConnectionErrorCode::FrameSizeError => 0x6,
        ConnectionErrorCode::RefusedStreamError => 0x7,
        ConnectionErrorCode::CancelError => 0x8,
        ConnectionErrorCode::CompressionError => 0x9,
        ConnectionErrorCode::ConnectionErrorCode => 0xa,
    }
}

/// The connection error code with wire value `code`, if any.
pub open spec fn conn_code_from_value(code: u32) -> Option<ConnectionErrorCode> {
    if code == 0x0 { Some(ConnectionErrorCode::NoError) }
    else if code == 0x1 { Some(ConnectionErrorCode::ProtocolError) }
    else if code == 0x2 { Some(ConnectionErrorCode::InternalError) }
    else if code == 0x3 { Some(ConnectionErrorCode::FlowControlError) }
    else if code == 0x4 { Some(ConnectionErrorCode::SettingsTimeout) }
    else if code == 0x5 { Some(ConnectionErrorCode::StreamClosedError) }
    else if code == 0x6 { Some(ConnectionErrorCode::FrameSizeError) }
    else if code == 0x7 { Some(ConnectionErrorCode::RefusedStreamError) }
    else if code == 0x8 { Some(ConnectionErrorCode::CancelError) }
    else if code == 0x9 { Some(ConnectionErrorCode::CompressionError) }
    else if code == 0xa { Some(ConnectionErrorCode::ConnectionErrorCode) }
    else { None }
}

/// The RFC name of a connection error code.
pub open spec fn conn_code_name(c: ConnectionErrorCode) -> Seq<char> {
    match c {
        ConnectionErrorCode::NoError => "NO_ERROR"@,
        ConnectionErrorCode::ProtocolError => "PROTOCOL_ERROR"@,
        ConnectionErrorCode::InternalError => "INTERNAL_ERROR"@,
        ConnectionErrorCode::FlowControlError => "FLOW_CONTROL_ERROR"@,
        ConnectionErrorCode::SettingsTimeout => "SETTINGS_TIMEOUT"@,
        ConnectionErrorCode::StreamClosedError => "STREAM_CLOSED_ERROR"@,
        ConnectionErrorCode::FrameSizeError => "FRAME_SIZE_ERROR"@,
        ConnectionErrorCode::RefusedStreamError => "REFUSED_STREAM_ERROR"@,
        ConnectionErrorCode::CancelError => "CANCEL_ERROR"@,
        ConnectionErrorCode::CompressionError => "COMPRESSION_ERROR"@,
        ConnectionErrorCode::ConnectionErrorCode => "CONNECTION_ERROR"@,
    }
}

impl ConnectionErrorCode {
    /// The code with wire value `code`, or `None` for an unknown value.
    pub fn from_u32(code: u32) -> (r: Option<Self>)
        ensures
            r == conn_code_from_value(code),
    {
        match code {
            0x0 => Some(ConnectionErrorCode::NoError),
            0x1 => Some(ConnectionErrorCode::ProtocolError),
            0x2 => Some(ConnectionErrorCode::InternalError),
            0x3 => Some(ConnectionErrorCode::FlowControlError),
            0x4 => Some(ConnectionErrorCode::SettingsTimeout),
            0x5 => Some(ConnectionErrorCode::StreamClosedError),
            0x6 => Some(ConnectionErrorCode::FrameSizeError),
            0x7 => Some(ConnectionErrorCode::RefusedStreamError),
            0x8 => Some(ConnectionErrorCode::CancelError),
            0x9 => Some(ConnectionErrorCode::CompressionError),
            0xa => Some(ConnectionErrorCode::ConnectionErrorCode),
            _ => None,
        }
    }

    /// The wire value of this code.
    pub fn as_u32(&self) -> (r: u32)
        ensures
            r == conn_code_value(*self),
    {
        match self {
            ConnectionErrorCode::NoError => 0x0,
            ConnectionErrorCode::ProtocolError => 0x1,
            ConnectionErrorCode::InternalError => 0x2,
            ConnectionErrorCode::FlowControlError => 0x3,
            ConnectionErrorCode::SettingsTimeout => 0x4,
            ConnectionErrorCode::StreamClosedError => 0x5,
            ConnectionErrorCode::FrameSizeError => 0x6,
            ConnectionErrorCode::RefusedStreamError => 0x7,
            ConnectionErrorCode::CancelError => 0x8,
            ConnectionErrorCode::CompressionError => 0x9,
            ConnectionErrorCode::ConnectionErrorCode => 0xa,
        }
    }

    /// The RFC name of this code.
    pub fn name(&self) -> (r: &'static str)
        ensures
            r@ == conn_code_name(*self),
    {
        match self {
            ConnectionErrorCode::NoError => "NO_ERROR",
            ConnectionErrorCode::ProtocolError => "PROTOCOL_ERROR",
            ConnectionErrorCode::InternalError => "INTERNAL_ERROR",
            ConnectionErrorCode::FlowControlError => "FLOW_CONTROL_ERROR",
            ConnectionErrorCode::SettingsTimeout => "SETTINGS_TIMEOUT",
            ConnectionErrorCode::StreamClosedError => "STREAM_CLOSED_ERROR",
            ConnectionErrorCode::FrameSizeError => "FRAME_SIZE_ERROR",
            ConnectionErrorCode::RefusedStreamError => "REFUSED_STREAM_ERROR",
            ConnectionErrorCode::CancelError => "CANCEL_ERROR",
            ConnectionErrorCode::CompressionError => "COMPRESSION_ERROR",
            ConnectionErrorCode::ConnectionErrorCode => "CONNECTION_ERROR",
        }
    }
}

/// A GOAWAY frame.
#[derive(Debug, Clone, PartialEq, Eq)]
pub struct GoAwayFrame {
    pub last_stream_id: u32,
    pub error_code: ConnectionErrorCode,
    pub debug_data: Vec<u8>,
}

/// The largest debug payload a GOAWAY frame may carry.
pub const MAX_GOAWAY_DEBUG: usize = 16384;

/// The GOAWAY payload for the given fields (stream id masked to 31 bits).
pub open spec fn goaway_payload(last_stream_id: u32, code: ConnectionErrorCode, debug: Seq<u8>) -> Seq<u8> {
    be32_bytes(last_stream_id & 0x7FFFFFFF) + be32_bytes(conn_code_value(code)) + debug
}

impl GoAwayFrame {
    /// A GOAWAY frame without debug data.
    pub fn new(last_stream_id: u32, error_code: ConnectionErrorCode) -> (f: Self)
        ensures
            f.last_stream_id == last_stream_id,
            f.error_code == error_code,
            f.debug_data@ == Seq::<u8>::empty(),
    {
        GoAwayFrame { last_stream_id, error_code, debug_data: Vec::new() }
    }

    /// A GOAWAY frame with debug data of at most 16384 bytes.
    pub fn with_debug(last_stream_id: u32, error_code: ConnectionErrorCode, debug_data: Vec<u8>) -> (r: Result<Self, String>)
        ensures
            debug_data@.len() > MAX_GOAWAY_DEBUG ==> r is Err && r->Err_0@ == "Debug data too large"@,
            debug_data@.len() <= MAX_GOAWAY_DEBUG ==> (r matches Ok(f) && f.last_stream_id == last_stream_id
                && f.error_code == error_code && f.debug_data@ == debug_data@),
    {
        if debug_data.len() > MAX_GOAWAY_DEBUG {
            return Err("Debug data too large".to_owned());
        }
        Ok(GoAwayFrame { last_stream_id, error_code, debug_data })
    }

    /// The GOAWAY payload: 31-bit last stream id, error code, then the debug data.
    pub fn encode(&self) -> (r: Vec<u8>)
        ensures
            r@ == goaway_payload(self.last_stream_id, self.error_code, self.debug_data@),
    {
        let mut payload: Vec<u8> = Vec::new();
        push_be_u32(&mut payload, self.last_stream_id & 0x7FFFFFFF);
        push_be_u32(&mut payload, self.error_code.as_u32());
        let ghost before = payload@;
        payload.extend_from_slice(self.debug_data.as_slice());
        assert(payload@ =~= before + self.debug_data@);
        payload
    }

    /// Parses a GOAWAY payload of at least eight bytes with a known error code.
    pub fn parse(data: &[u8]) -> (r: Result<Self, String>)
        ensures
            data@.len() < 8 ==> r is Err && r->Err_0@ == "GOAWAY frame too short (min 8 bytes)"@,
            data@.len() >= 8 ==> {
                let raw = be32(data@[4], data@[5], data@[6], data@[7]);
                match conn_code_from_value(raw as u32) {
                    Some(c) => (r matches Ok(f) && f.error_code == c
                        && f.last_stream_id == (be32(data@[0], data@[1], data@[2], data@[3]) as u32) & 0x7FFFFFFF
                        && f.debug_data@ == data@.subrange(8, data@.len() as int)),
                    None => r is Err && r->Err_0@ == "Unknown error code: 0x"@ + hex_lower(raw),
                }
            },
    {
        if data.len() < 8 {
            return Err("GOAWAY frame too short (min 8 bytes)".to_owned());
        }
        let last_stream_id = read_be_u32(data, 0) & 0x7FFFFFFF;
        let raw = read_be_u32(data, 4);
        let error_code = match ConnectionErrorCode::from_u32(raw) {
            Some(c) => c,
            None => {
                let mut msg = String::from_str("Unknown error code: 0x");
                push_hex_lower(&mut msg, raw as u64);
                return Err(msg);
            },
        };
        let debug_data = slice_to_vec(slice_subrange(data, 8, data.len()));
        Ok(GoAwayFrame { last_stream_id, error_code, debug_data })
    }
}

/// Parsing an encoded GOAWAY frame gives back its fields (the stream id masked to 31 bits).
pub proof fn lemma_goaway_roundtrip(last_stream_id: u32, code: ConnectionErrorCode, debug: Seq<u8>)
    ensures
        ({
            let p = goaway_payload(last_stream_id, code, debug);
            &&& p.len() >= 8
            &&& be32(p[0], p[1], p[2], p[3]) == last_stream_id & 0x7FFFFFFF
            &&& conn_code_from_value(be32(p[4], p[5], p[6], p[7]) as u32) == Some(code)
            &&& p.subrange(8, p.len() as int) == debug
        }),
{
    let p = goaway_payload(last_stream_id, code, debug);
    lemma_be32_roundtrip(last_stream_id & 0x7FFFFFFF);
    lemma_be32_roundtrip(conn_code_value(code));
    assert(p.subrange(8, p.len() as int) =~= debug);
}

/// A connection-level error.
#[derive(Debug, Clone, PartialEq, Eq)]
pub struct ConnectionError {
    pub error_code: ConnectionErrorCode,
    pub description: String,
    pub stream_id: Option<u32>,
}

impl ConnectionError {
    /// An error not tied to a stream.
    pub fn new(error_code: ConnectionErrorCode, description: String) -> (e: Self)
        ensures
            e.error_code == error_code,
            e.description@ == description@,
            e.stream_id is None,
    {
        ConnectionError { error_code, description, stream_id: None }
    }

    /// An error tied to `stream_id`.
    pub fn with_stream(error_code: ConnectionErrorCode, description: String, stream_id: u32) -> (e: Self)
        ensures
            e.error_code == error_code,
            e.description@ == description@,
            e.stream_id == Some(stream_id),
    {
        ConnectionError { error_code, description, stream_id: Some(stream_id) }
    }
}

/// The lifecycle of a connection.
#[derive(Debug, Clone, Copy, PartialEq, Eq, Structural)]
pub enum ConnectionState {
    Open,
    GoAwayReceived,
    GoAwaySend,
    Closed,
}

/// The number of errors in `s` with code `c`.
pub open spec fn count_conn_code(s: Seq<ConnectionErrorCode>, c: ConnectionErrorCode) -> nat
    decreases s.len(),
{
    if s.len() == 0 {
        0
    } else {
        count_conn_code(s.drop_last(), c) + if s.last() == c { 1nat } else { 0nat }
    }
}

/// The errors of one code in a list of codes, summed over all eleven codes.
pub open spec fn all_codes_count(s: Seq<ConnectionErrorCode>) -> nat {
    count_conn_code(s, ConnectionErrorCode::NoError) + count_conn_code(s, ConnectionErrorCode::ProtocolError)
        + count_conn_code(s, ConnectionErrorCode::InternalError) + count_conn_code(s, ConnectionErrorCode::FlowControlError)
        + count_conn_code(s, ConnectionErrorCode::SettingsTimeout) + count_conn_code(s, ConnectionErrorCode::StreamClosedError)
        + count_conn_code(s, ConnectionErrorCode::FrameSizeError) + count_conn_code(s, ConnectionErrorCode::RefusedStreamError)
        + count_conn_code(s, ConnectionErrorCode::CancelError) + count_conn_code(s, ConnectionErrorCode::CompressionError)
        + count_conn_code(s, ConnectionErrorCode::ConnectionErrorCode)
}

/// Every code of a list is counted under exactly one code.
proof fn lemma_all_codes_count(s: Seq<ConnectionErrorCode>)
    ensures
        all_codes_count(s) == s.len(),
    decreases s.len(),
{
    if s.len() > 0 {
        lemma_all_codes_count(s.drop_last());
    }
}

/// Per-name error counts; a name that does not occur has no entry.
#[derive(Debug, Clone)]
pub struct ErrorSummary {
    counts: Vec<usize>,
}

impl ErrorSummary {
    /// The count recorded for code `c`, or `None` where `c` does not occur.
    pub closed spec fn count_of(&self, c: ConnectionErrorCode) -> Option<usize> {
        if self.counts@.len() == 11 && self.counts@[conn_code_value(c) as int] > 0 {
            Some(self.counts@[conn_code_value(c) as int])
        } else {
            None
        }
    }

    /// The number of errors whose code has the name `name`, or `None` where there is none.
    pub fn get(&self, name: &str) -> (r: Option<&usize>)
        ensures
            forall|c: ConnectionErrorCode| conn_code_name(c) == name@ ==> match #[trigger] self.count_of(c) {
                Some(n) => r == Some(&n),
                None => r is None,
            },
            (forall|c: ConnectionErrorCode| #[trigger] conn_code_name(c) != name@) ==> r is None,
    {
        let mut v: u32 = 0;
        while v < 11
            invariant
                v <= 11,
                forall|c: ConnectionErrorCode| conn_code_value(c) < v ==> #[trigger] conn_code_name(c) != name@,
            decreases 11 - v,
        {
            let code = match ConnectionErrorCode::from_u32(v) {
                Some(c) => c,
                None => ConnectionErrorCode::NoError,
            };
            assert(conn_code_value(code) == v);
            if str_eq(code.name(), name) {
                proof {
                    assert forall|c: ConnectionErrorCode| conn_code_name(c) == name@ implies c == code by {
                        lemma_conn_names_distinct(c, code);
                    }
                }
                if self.counts.len() == 11 && self.counts[v as usize] > 0 {
                    return Some(&self.counts[v as usize]);
                }
                return None;
            }
            v = v + 1;
        }
        None
    }
}

/// Distinct codes have distinct names.
pub proof fn lemma_conn_names_distinct(c1: ConnectionErrorCode, c2: ConnectionErrorCode)
    ensures
        conn_code_name(c1) == conn_code_name(c2) ==> c1 == c2,
{
    reveal_strlit("NO_ERROR");
    reveal_strlit("PROTOCOL_ERROR");
    reveal_strlit("INTERNAL_ERROR");
    reveal_strlit("FLOW_CONTROL_ERROR");
    reveal_strlit("SETTINGS_TIMEOUT");
    reveal_strlit("STREAM_CLOSED_ERROR");
    reveal_strlit("FRAME_SIZE_ERROR");
    reveal_strlit("REFUSED_STREAM_ERROR");
    reveal_strlit("CANCEL_ERROR");
    reveal_strlit("COMPRESSION_ERROR");
    reveal_strlit("CONNECTION_ERROR");
    if conn_code_name(c1) == conn_code_name(c2) {
        assert(conn_code_name(c1).len() == conn_code_name(c2).len());
        assert(conn_code_name(c1)[0] == conn_code_name(c2)[0]);
        assert(conn_code_name(c1)[1] == conn_code_name(c2)[1]);
    }
}

/// Records connection errors and tracks the connection state.
pub struct ConnectionErrorManager {
    pub state: ConnectionState,
    errors: Vec<ConnectionError>,
    last_error_time: u64,
}

/// The count a summary gives a code, 0 where it gives none.
pub open spec fn summary_count(s: ErrorSummary, c: ConnectionErrorCode) -> nat {
    match s.count_of(c) {
        Some(n) => n as nat,
        None => 0,
    }
}

/// The counts a summary gives, over all eleven codes.
pub open spec fn summary_total(s: ErrorSummary) -> nat {
    summary_count(s, ConnectionErrorCode::NoError) + summary_count(s, ConnectionErrorCode::ProtocolError)
        + summary_count(s, ConnectionErrorCode::InternalError) + summary_count(s, ConnectionErrorCode::FlowControlError)
        + summary_count(s, ConnectionErrorCode::SettingsTimeout) + summary_count(s, ConnectionErrorCode::StreamClosedError)
        + summary_count(s, ConnectionErrorCode::FrameSizeError) + summary_count(s, ConnectionErrorCode::RefusedStreamError)
        + summary_count(s, ConnectionErrorCode::CancelError) + summary_count(s, ConnectionErrorCode::CompressionError)
        + summary_count(s, ConnectionErrorCode::ConnectionErrorCode)
}

impl View for ConnectionErrorManager {
    type V = Seq<ConnectionError>;

    closed spec fn view(&self) -> Seq<ConnectionError> {
        self.errors@
    }
}

impl ConnectionErrorManager {
    /// The current connection state.
    pub closed spec fn conn_state(&self) -> ConnectionState {
        self.state
    }

    /// An open connection with no errors.
    pub fn new() -> (m: Self)
        ensures
            m.conn_state() == ConnectionState::Open,
            m@ == Seq::<ConnectionError>::empty(),
    {
        ConnectionErrorManager { state: ConnectionState::Open, errors: Vec::new(), last_error_time: 0 }
    }

    /// Appends an error.
    pub fn record_error(&mut self, error: ConnectionError)
        ensures
            final(self)@ == old(self)@.push(error),
            final(self).conn_state() == old(self).conn_state(),
    {
        self.errors.push(error);
        self.last_error_time = 0;
    }

    /// All recorded errors, oldest first.
    pub fn get_errors(&self) -> (r: &[ConnectionError])
        ensures
            r@ == self@,
    {
        self.errors.as_slice()
    }

    /// The most recent error, if any.
    pub fn get_last_error(&self) -> (r: Option<&ConnectionError>)
        ensures
            self@.len() == 0 ==> r is None,
            self@.len() > 0 ==> r == Some(&self@.last()),
    {
        if self.errors.len() == 0 {
            None
        } else {
            Some(&self.errors[self.errors.len() - 1])
        }
    }

    /// Forgets all errors.
    pub fn clear_errors(&mut self)
        ensures
            final(self)@ == Seq::<ConnectionError>::empty(),
            final(self).conn_state() == old(self).conn_state(),
    {
        self.errors.clear();
    }

    /// Sets the connection state.
    pub fn set_state(&mut self, state: ConnectionState)
        ensures
            final(self).conn_state() == state,
            final(self)@ == old(self)@,
    {
        self.state = state;
    }

    /// Whether the connection is open.
    pub fn is_open(&self) -> (r: bool)
        ensures
            r == (self.conn_state() == ConnectionState::Open),
    {
        self.state == ConnectionState::Open
    }

    /// Whether the connection is closed.
    pub fn is_closed(&self) -> (r: bool)
        ensures
            r == (self.conn_state() == ConnectionState::Closed),
    {
        self.state == ConnectionState::Closed
    }

    /// The number of recorded errors.
    pub fn error_count(&self) -> (n: usize)
        ensures
            n == self@.len(),
    {
        self.errors.len()
    }

    /// The number of recorded errors per code name.
    pub fn summary(&self) -> (s: ErrorSummary)
        ensures
            forall|c: ConnectionErrorCode| #[trigger] s.count_of(c) == ({
                let n = count_conn_code(self@.map_values(|e: ConnectionError| e.error_code), c);
                if n > 0 { Some(n as usize) } else { None }
            }),
    {
        let ghost codes = self.errors@.map_values(|e: ConnectionError| e.error_code);
        let mut counts: Vec<usize> = vec![0, 0, 0, 0, 0, 0, 0, 0, 0, 0, 0];
        let mut i: usize = 0;
        while i < self.errors.len()
            invariant
                i <= self.errors@.len(),
                codes == self.errors@.map_values(|e: ConnectionError| e.error_code),
                counts@.len() == 11,
                forall|c: ConnectionErrorCode| #[trigger] counts@[conn_code_value(c) as int]
                    == count_conn_code(codes.take(i as int), c),
                forall|c: ConnectionErrorCode| count_conn_code(codes.take(i as int), c) <= i,
            decreases self.errors@.len() - i,
        {
            let code = self.errors[i].error_code;
            let ghost pre = codes.take(i as int);
            let ghost post = codes.take(i + 1);
            assert(post.drop_last() =~= pre);
            assert(post.last() == code);
            assert(forall|c: ConnectionErrorCode| #[trigger] count_conn_code(post, c)
                == count_conn_code(pre, c) + if c == code { 1nat } else { 0nat });
            let k = code.as_u32() as usize;
            let v = counts[k];
            counts.set(k, v + 1);
            i = i + 1;
        }
        assert(codes.take(i as int) =~= codes);
        ErrorSummary { counts }
    }
}

/// A summary of a connection's errors counts every recorded error exactly once: its counts
/// over all codes add up to the number of errors (`error_count`).
pub proof fn lemma_summary_adds_up(m: ConnectionErrorManager, s: ErrorSummary)
    requires
        m@.len() <= usize::MAX,
        forall|c: ConnectionErrorCode| #[trigger] s.count_of(c) == ({
            let n = count_conn_code(m@.map_values(|e: ConnectionError| e.error_code), c);
            if n > 0 { Some(n as usize) } else { None }
        }),
    ensures
        summary_total(s) == m@.len(),
{
    let codes = m@.map_values(|e: ConnectionError| e.error_code);
    lemma_all_codes_count(codes);
    assert forall|c: ConnectionErrorCode| #[trigger] summary_count(s, c) == count_conn_code(codes, c) by {
        lemma_count_bounded(codes, c);
    }
    assert(summary_count(s, ConnectionErrorCode::NoError) == count_conn_code(codes, ConnectionErrorCode::NoError));
    assert(summary_count(s, ConnectionErrorCode::ProtocolError) == count_conn_code(codes, ConnectionErrorCode::ProtocolError));
    assert(summary_count(s, ConnectionErrorCode::InternalError) == count_conn_code(codes, ConnectionErrorCode::InternalError));
    assert(summary_count(s, ConnectionErrorCode::FlowControlError) == count_conn_code(codes, ConnectionErrorCode::FlowControlError));
    assert(summary_count(s, ConnectionErrorCode::SettingsTimeout) == count_conn_code(codes, ConnectionErrorCode::SettingsTimeout));
    assert(summary_count(s, ConnectionErrorCode::StreamClosedError) == count_conn_code(codes, ConnectionErrorCode::StreamClosedError));
    assert(summary_count(s, ConnectionErrorCode::FrameSizeError) == count_conn_code(codes, ConnectionErrorCode::FrameSizeError));
    assert(summary_count(s, ConnectionErrorCode::RefusedStreamError) == count_conn_code(codes, ConnectionErrorCode::RefusedStreamError));
    assert(summary_count(s, ConnectionErrorCode::CancelError) == count_conn_code(codes, ConnectionErrorCode::CancelError));
    assert(summary_count(s, ConnectionErrorCode::CompressionError) == count_conn_code(codes, ConnectionErrorCode::CompressionError));
    assert(summary_count(s, ConnectionErrorCode::ConnectionErrorCode) == count_conn_code(codes, ConnectionErrorCode::ConnectionErrorCode));
}

/// A code is counted at most once per element.
proof fn lemma_count_bounded(s: Seq<ConnectionErrorCode>, c: ConnectionErrorCode)
    ensures
        count_conn_code(s, c) <= s.len(),
    decreases s.len(),
{
    if s.len() > 0 {
        lemma_count_bounded(s.drop_last(), c);
    }
}

} // verus!
