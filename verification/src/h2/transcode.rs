use vstd::prelude::*;
use vstd::slice::slice_to_vec;
use crate::text::{parse_u64, parse_u64_spec};
use crate::h2::h2_reader::{H2ResponseConverter, header_map_status};

verus! {

/// The status that a `:status` value gives: a decimal number that fits in 16 bits.
pub open spec fn status_of(v: Option<Option<Seq<char>>>) -> Option<u16> {
    match v {
        Some(Some(s)) => match parse_u64_spec(s) {
            Some(n) => if n <= 65535 { Some(n as u16) } else { None },
            None => None,
        },
        _ => None,
    }
}

/// The message for a response without a usable `:status`.
pub open spec fn missing_status_message() -> Seq<char> {
    "Missing or invalid :status in HTTP/2 response"@
}

/// Reads the status from the `:status` value found in a header map (`None` when absent,
/// `Some(None)` when not text).
pub fn status_from_header(v: Option<Option<String>>) -> (r: Result<u16, String>)
    ensures
        match status_of(match v { Some(Some(s)) => Some(Some(s@)), Some(None) => Some(None), None => None }) {
            Some(code) => r == Ok::<u16, String>(code),
            None => r matches Err(e) && e@ == missing_status_message(),
        },
{
    match v {
        Some(Some(s)) => match parse_u64(s.as_str()) {
            Some(n) => if n <= 65535 {
                return Ok(n as u16);
            },
            None => {},
        },
        _ => {},
    }
    Err(String::from_str("Missing or invalid :status in HTTP/2 response"))
}

/// Converts HTTP/2 response headers to an HTTP/1.1 head, reading the status from `:status`.
/// A header map cannot hold `:status` (its names cannot contain `:`), so the lookup finds
/// nothing and the conversion reports the missing status.
pub fn transcode_h2_response(headers: &http::HeaderMap) -> (r: Result<String, String>)
    ensures
        r matches Err(e) && e@ == missing_status_message(),
{
    let status = header_map_status(headers);
    let status_code = match status_from_header(status) {
        Ok(c) => c,
        Err(e) => { return Err(e); },
    };
    H2ResponseConverter::headers_to_http11(status_code, headers)
}

/// The body bytes of a DATA frame, unchanged.
pub fn transcode_h2_data(chunk: &[u8]) -> (r: Vec<u8>)
    ensures
        r@ == chunk@,
{
    slice_to_vec(chunk)
}

/// Where a response transcoding stands.
#[derive(Debug, Clone, PartialEq, Eq, Structural)]
pub enum TranscodeState {
    WaitingForHeaders,
    HeadersTranscoded,
    StreamingData,
    Complete,
}

/// The name of a state, as `Debug` prints it.
pub open spec fn state_name(s: TranscodeState) -> Seq<char> {
    match s {
        TranscodeState::WaitingForHeaders => "WaitingForHeaders"@,
        TranscodeState::HeadersTranscoded => "HeadersTranscoded"@,
        TranscodeState::StreamingData => "StreamingData"@,
        TranscodeState::Complete => "Complete"@,
    }
}

fn state_name_str(s: &TranscodeState) -> (r: &'static str)
    ensures
        r@ == state_name(*s),
{
    match s {
        TranscodeState::WaitingForHeaders => "WaitingForHeaders",
        TranscodeState::HeadersTranscoded => "HeadersTranscoded",
        TranscodeState::StreamingData => "StreamingData",
        TranscodeState::Complete => "Complete",
    }
}

/// Transcodes one HTTP/2 response to HTTP/1.1: headers first, then data, then the end.
pub struct H2Transcoder {
    state: TranscodeState,
}

impl H2Transcoder {
    /// The current state.
    pub closed spec fn current(&self) -> TranscodeState {
        self.state
    }

    /// A transcoder waiting for headers.
    pub fn new() -> (t: Self)
        ensures
            t.current() == TranscodeState::WaitingForHeaders,
    {
        H2Transcoder { state: TranscodeState::WaitingForHeaders }
    }

    /// Transcodes the response headers; only while waiting for them. The state advances
    /// when the conversion succeeds.
    pub fn on_headers(&mut self, headers: &http::HeaderMap) -> (r: Result<String, String>)
        ensures
            old(self).current() != TranscodeState::WaitingForHeaders ==> (r matches Err(e)
                && e@ == "Invalid state for headers: "@ + state_name(old(self).current())),
            old(self).current() == TranscodeState::WaitingForHeaders ==> (r matches Err(e)
                && e@ == missing_status_message()),
            r is Ok ==> final(self).current() == TranscodeState::HeadersTranscoded,
            r is Err ==> final(self).current() == old(self).current(),
    {
        if self.state != TranscodeState::WaitingForHeaders {
            let mut msg = String::from_str("Invalid state for headers: ");
            msg.append(state_name_str(&self.state));
            return Err(msg);
        }
        let http11_headers = match transcode_h2_response(headers) {
            Ok(h) => h,
            Err(e) => { return Err(e); },
        };
        self.state = TranscodeState::HeadersTranscoded;
        Ok(http11_headers)
    }

    /// Passes a DATA frame's bytes through, once the headers are done.
    pub fn on_data(&mut self, chunk: &[u8]) -> (r: Result<Vec<u8>, String>)
        ensures
            (old(self).current() == TranscodeState::HeadersTranscoded
                || old(self).current() == TranscodeState::StreamingData) ==> (r matches Ok(b)
                && b@ == chunk@ && final(self).current() == TranscodeState::StreamingData),
            !(old(self).current() == TranscodeState::HeadersTranscoded
                || old(self).current() == TranscodeState::StreamingData) ==> (r matches Err(e)
                && e@ == "Invalid state for data: "@ + state_name(old(self).current())
                && final(self).current() == old(self).current()),
    {
        if self.state != TranscodeState::HeadersTranscoded && self.state != TranscodeState::StreamingData {
            let mut msg = String::from_str("Invalid state for data: ");
            msg.append(state_name_str(&self.state));
            return Err(msg);
        }
        self.state = TranscodeState::StreamingData;
        Ok(transcode_h2_data(chunk))
    }

    /// Marks the response complete.
    pub fn on_end_stream(&mut self) -> (r: Result<(), String>)
        ensures
            r is Ok,
            final(self).current() == TranscodeState::Complete,
    {
        self.state = TranscodeState::Complete;
        Ok(())
    }

    /// The current state.
    pub fn state(&self) -> (r: &TranscodeState)
        ensures
            *r == self.current(),
    {
        &self.state
    }

    /// Whether the response is complete.
    pub fn is_complete(&self) -> (r: bool)
        ensures
            r == (self.current() == TranscodeState::Complete),
    {
        self.state == TranscodeState::Complete
    }
}

impl Default for H2Transcoder {
    fn default() -> (t: Self)
        ensures
            t.current() == TranscodeState::WaitingForHeaders,
    {
        Self::new()
    }
}

} // verus!
