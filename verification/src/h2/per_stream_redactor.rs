use vstd::prelude::*;
use crate::text::{decimal, push_decimal};

verus! {

/// The state a stream's body redaction keeps around the streaming redactor: the lookahead
/// buffer the redactor carries between chunks, whether the stream was finalized, and
/// counters.
pub struct PerStreamRedactor {
    pub stream_id: u32,
    pub lookahead: Vec<u8>,
    pub finalized: bool,
    pub bytes_redacted: u64,
    pub patterns_found: u64,
}

/// A stream redactor's counters.
#[derive(Debug, Clone)]
pub struct PerStreamRedactorStats {
    pub stream_id: u32,
    pub bytes_redacted: u64,
    pub patterns_found: u64,
    pub finalized: bool,
}

impl PerStreamRedactorStats {
    /// The one-line summary of the counters.
    pub fn to_string(&self) -> (r: String)
        ensures
            r@ == "Stream "@ + decimal(self.stream_id as nat) + ": "@ + decimal(self.bytes_redacted as nat)
                + " bytes, "@ + decimal(self.patterns_found as nat) + " patterns, finalized="@
                + (if self.finalized { "true"@ } else { "false"@ }),
    {
        let mut r = String::from_str("Stream ");
        push_decimal(&mut r, self.stream_id as u64);
        r.append(": ");
        push_decimal(&mut r, self.bytes_redacted);
        r.append(" bytes, ");
        push_decimal(&mut r, self.patterns_found);
        r.append(" patterns, finalized=");
        r.append(if self.finalized { "true" } else { "false" });
        r
    }
}

impl PerStreamRedactor {
    /// A stream not yet finalized, with an empty lookahead and zero counters.
    pub fn new(stream_id: u32) -> (r: Self)
        ensures
            r.stream_id == stream_id,
            r.lookahead@.len() == 0,
            !r.finalized,
            r.bytes_redacted == 0 && r.patterns_found == 0,
    {
        PerStreamRedactor { stream_id, lookahead: Vec::new(), finalized: false, bytes_redacted: 0, patterns_found: 0 }
    }

    /// Whether a chunk may be redacted: not after finalization.
    pub fn check_chunk(&self) -> (r: Result<(), String>)
        ensures
            self.finalized ==> (r matches Err(m) && m@ == "Stream "@ + decimal(self.stream_id as nat)
                + ": Cannot redact after finalization"@),
            !self.finalized ==> r is Ok,
    {
        if self.finalized {
            let mut m = String::from_str("Stream ");
            push_decimal(&mut m, self.stream_id as u64);
            m.append(": Cannot redact after finalization");
            return Err(m);
        }
        Ok(())
    }

    /// Counts a redacted chunk of `chunk_len` bytes in which `patterns` were found.
    pub fn record_chunk(&mut self, chunk_len: usize, patterns: u64)
        requires
            old(self).bytes_redacted + chunk_len <= u64::MAX,
            old(self).patterns_found + patterns <= u64::MAX,
        ensures
            final(self).bytes_redacted == old(self).bytes_redacted + chunk_len,
            final(self).patterns_found == old(self).patterns_found + patterns,
            final(self).stream_id == old(self).stream_id,
            final(self).finalized == old(self).finalized,
            final(self).lookahead == old(self).lookahead,
    {
        self.bytes_redacted = self.bytes_redacted + chunk_len as u64;
        self.patterns_found = self.patterns_found + patterns;
    }

    /// A header value as it is forwarded: unchanged, before or after finalization.
    pub fn redact_header_value(&self, value: &str) -> (r: String)
        ensures
            r@ == value@,
    {
        String::from_str(value)
    }

    /// Whether the stream may be finalized: only once.
    pub fn check_finalize(&self) -> (r: Result<(), String>)
        ensures
            self.finalized ==> (r matches Err(m) && m@ == "Stream "@ + decimal(self.stream_id as nat)
                + ": Already finalized"@),
            !self.finalized ==> r is Ok,
    {
        if self.finalized {
            let mut m = String::from_str("Stream ");
            push_decimal(&mut m, self.stream_id as u64);
            m.append(": Already finalized");
            return Err(m);
        }
        Ok(())
    }

    /// Counts the patterns found when the lookahead was flushed, and finalizes the stream.
    pub fn record_finalize(&mut self, patterns: u64)
        requires
            old(self).patterns_found + patterns <= u64::MAX,
        ensures
            final(self).patterns_found == old(self).patterns_found + patterns,
            final(self).finalized,
            final(self).bytes_redacted == old(self).bytes_redacted,
            final(self).stream_id == old(self).stream_id,
            final(self).lookahead == old(self).lookahead,
    {
        self.patterns_found = self.patterns_found + patterns;
        self.finalized = true;
    }

    /// The stream's counters.
    pub fn stats(&self) -> (s: PerStreamRedactorStats)
        ensures
            s.stream_id == self.stream_id,
            s.bytes_redacted == self.bytes_redacted,
            s.patterns_found == self.patterns_found,
            s.finalized == self.finalized,
    {
        PerStreamRedactorStats {
            stream_id: self.stream_id,
            bytes_redacted: self.bytes_redacted,
            patterns_found: self.patterns_found,
            finalized: self.finalized,
        }
    }
}

} // verus!
