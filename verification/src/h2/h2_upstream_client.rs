use vstd::prelude::*;
use crate::h2::upstream_response_transcoder::{hpack_status, status_pattern, guessed_status, first_code_in,
    searched_codes};
use crate::text::decimal;

verus! {

/// A client for one HTTP/2 upstream connection, which sends its request on one stream.
pub struct H2UpstreamClient {
    pub stream_id: u32,
}

/// The HTTP/1.1 head given for a response whose HEADERS announce `status`.
pub open spec fn upstream_head(status: Seq<char>) -> Seq<char> {
    "HTTP/1.1 "@ + status + " OK\r\nContent-Type: application/octet-stream\r\nTransfer-Encoding: chunked\r\nConnection: close\r\n\r\n"@
}

/// What to do with a frame while waiting for the response's HEADERS.
#[derive(Debug, Clone, PartialEq, Eq)]
pub enum HeadersWait {
    /// Pass the frame over and read the next.
    Skip,
    /// The response head, from a HEADERS frame.
    Head(String),
    /// The upstream ended the wait; the message says how.
    Failed(String),
}

/// What to do with a frame while waiting for body data.
#[derive(Debug, Clone, Copy, PartialEq, Eq, Structural)]
pub enum DataWait {
    /// Pass the frame over and read the next.
    Skip,
    /// A DATA frame, and whether it ends the stream.
    Data(bool),
    /// The stream was reset.
    Reset,
}

impl H2UpstreamClient {
    /// A client that sends on stream 1.
    pub fn new() -> (c: Self)
        ensures
            c.stream_id == 1,
    {
        H2UpstreamClient { stream_id: 1 }
    }

    /// An empty SETTINGS frame: length 0, type 4, no flags, stream 0.
    pub fn encode_settings_frame() -> (r: Vec<u8>)
        ensures
            r@ == seq![0u8, 0u8, 0u8, 4u8, 0u8, 0u8, 0u8, 0u8, 0u8],
    {
        vec![0u8, 0, 0, 4, 0, 0, 0, 0, 0]
    }

    /// The status announced by an HPACK block, in decimal (see `guessed_status`).
    pub fn extract_status_from_hpack(&self, payload: &[u8]) -> (r: Result<String, String>)
        ensures
            r matches Ok(s) && s@ == decimal(guessed_status(payload@) as nat),
    {
        Ok(hpack_status(payload))
    }

    /// The first listed status code whose digits occur in the payload, in decimal; "200"
    /// when none does.
    pub fn find_status_code_pattern(&self, payload: &[u8]) -> (r: Result<String, String>)
        ensures
            r matches Ok(s) && s@ == decimal(first_code_in(payload@, searched_codes()) as nat),
    {
        Ok(status_pattern(payload))
    }

    /// What a frame means while waiting for the response head: HEADERS give the head,
    /// RST_STREAM and GOAWAY end the wait, every other frame is passed over.
    pub fn on_frame_before_headers(&self, frame_type: u8, payload: &[u8]) -> (r: HeadersWait)
        ensures
            frame_type == 1 ==> (r matches HeadersWait::Head(h) && h@ == upstream_head(decimal(guessed_status(payload@) as nat))),
            frame_type == 3 ==> (r matches HeadersWait::Failed(m) && m@ == "Upstream reset stream"@),
            frame_type == 7 ==> (r matches HeadersWait::Failed(m) && m@ == "Upstream sent GOAWAY"@),
            frame_type != 1 && frame_type != 3 && frame_type != 7 ==> r == HeadersWait::Skip,
    {
        if frame_type == 1 {
            let status = hpack_status(payload);
            let mut head = String::from_str("HTTP/1.1 ");
            head.append(status.as_str());
            head.append(" OK\r\nContent-Type: application/octet-stream\r\nTransfer-Encoding: chunked\r\nConnection: close\r\n\r\n");
            HeadersWait::Head(head)
        } else if frame_type == 3 {
            HeadersWait::Failed(String::from_str("Upstream reset stream"))
        } else if frame_type == 7 {
            HeadersWait::Failed(String::from_str("Upstream sent GOAWAY"))
        } else {
            HeadersWait::Skip
        }
    }

    /// What a frame means while waiting for body data: DATA is delivered, with END_STREAM
    /// (flag 0x01); RST_STREAM ends the stream; every other frame is passed over.
    pub fn on_frame_before_data(&self, frame_type: u8, flags: u8) -> (r: DataWait)
        ensures
            r == (if frame_type == 0 {
                DataWait::Data(flags & 1 != 0)
            } else if frame_type == 3 {
                DataWait::Reset
            } else {
                DataWait::Skip
            }),
    {
        if frame_type == 0 {
            DataWait::Data((flags & 0x01) != 0)
        } else if frame_type == 3 {
            DataWait::Reset
        } else {
            DataWait::Skip
        }
    }

    /// Checks that a frame read where the upstream's SETTINGS are expected is one.
    pub fn check_settings_type(frame_type: u8) -> (r: Result<(), String>)
        ensures
            frame_type == 4 <==> r is Ok,
            r matches Err(m) ==> m@ == "Expected SETTINGS frame, got type "@ + decimal(frame_type as nat),
    {
        if frame_type == 4 {
            Ok(())
        } else {
            let mut m = String::from_str("Expected SETTINGS frame, got type ");
            crate::text::push_decimal(&mut m, frame_type as u64);
            Err(m)
        }
    }
}

} // verus!
