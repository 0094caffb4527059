use vstd::prelude::*;
use crate::h2::hpack::{HpackDecoder, BlockOutcome, fields_view, HeaderView};
use crate::h2::frame_encoder::{HpackEncoder, hpack_literals, utf8_bytes};
use crate::h2::h2_proxy_bridge::{decodes, dedup_fields, dedup_headers};
use crate::text::{str_eq, starts_with_str, find_str, first_occurrence};
use crate::unicode::{str_to_lowercase, spec_str_to_lowercase};

verus! {

/// Whether a lowercased header name is one whose values are redacted: a listed
/// credential-bearing name, or an `x-` name that mentions a key, secret or token.
pub open spec fn sensitive_name(l: Seq<char>) -> bool {
    l == "authorization"@ || l == "cookie"@ || l == "set-cookie"@ || l == "x-api-key"@
        || l == "x-auth-token"@ || l == "x-csrf-token"@ || l == "proxy-authorization"@
        || l == "www-authenticate"@ || l == "proxy-authenticate"@ || l == "x-amz-security-token"@
        || l == "x-amz-algorithm"@ || l == "x-amz-credential"@ || l == "x-amz-signature"@
        || l == "x-access-token"@ || l == "x-secret-key"@ || l == "x-private-key"@ || l == "apikey"@
        || l == "api-key"@ || l == "secret"@ || l == "token"@
        || ("x-"@.is_prefix_of(l) && (first_occurrence(l, "key"@) is Some
            || first_occurrence(l, "secret"@) is Some || first_occurrence(l, "token"@) is Some))
}

/// Whether a header's values are redacted (see `sensitive_name`), whatever its case.
pub fn sensitive_header_name(name: &str) -> (r: bool)
    ensures
        r == sensitive_name(spec_str_to_lowercase(name@)),
{
    let l = str_to_lowercase(name);
    let l = l.as_str();
    if str_eq(l, "authorization") || str_eq(l, "cookie") || str_eq(l, "set-cookie") || str_eq(l, "x-api-key")
        || str_eq(l, "x-auth-token") || str_eq(l, "x-csrf-token") || str_eq(l, "proxy-authorization")
        || str_eq(l, "www-authenticate") || str_eq(l, "proxy-authenticate") || str_eq(l, "x-amz-security-token")
        || str_eq(l, "x-amz-algorithm") || str_eq(l, "x-amz-credential") || str_eq(l, "x-amz-signature")
        || str_eq(l, "x-access-token") || str_eq(l, "x-secret-key") || str_eq(l, "x-private-key")
        || str_eq(l, "apikey") || str_eq(l, "api-key") || str_eq(l, "secret") || str_eq(l, "token") {
        return true;
    }
    starts_with_str(l, "x-") && (find_str(l, "key").is_some() || find_str(l, "secret").is_some()
        || find_str(l, "token").is_some())
}

/// For each field, whether its value is one to redact (see `sensitive_name`).
pub fn sensitive_mask(fields: &Vec<(String, String)>) -> (r: Vec<bool>)
    ensures
        r@.len() == fields@.len(),
        forall|i: int| 0 <= i < fields@.len() ==> r@[i] == sensitive_name(spec_str_to_lowercase(#[trigger] fields@[i].0@)),
{
    let mut r: Vec<bool> = Vec::new();
    let mut i: usize = 0;
    while i < fields.len()
        invariant
            i <= fields@.len(),
            r@.len() == i,
            forall|k: int| 0 <= k < i ==> r@[k] == sensitive_name(spec_str_to_lowercase(#[trigger] fields@[k].0@)),
        decreases fields@.len() - i,
    {
        let s = sensitive_header_name(fields[i].0.as_str());
        r.push(s);
        i += 1;
    }
    r
}

/// Counters kept by a header redactor.
#[derive(Clone, Debug)]
pub struct HeaderRedactionStats {
    pub stream_id: u32,
    pub headers_redacted: u64,
    pub patterns_found: u64,
    pub bytes_redacted: u64,
}

/// Redacts the header blocks of one stream: it decodes them with its own HPACK table,
/// takes the redacted values of the sensitive fields, and encodes the result again.
pub struct HeaderRedactor {
    pub stream_id: u32,
    pub decoder: HpackDecoder,
    pub encoder: HpackEncoder,
    pub headers_redacted: u64,
    pub patterns_found: u64,
    pub bytes_redacted: u64,
}

/// Whether the redacted values line up with the fields: one per field, present exactly
/// for the sensitive ones.
pub open spec fn redactions_fit(fields: Seq<(String, String)>, redacted: Seq<Option<String>>) -> bool {
    &&& redacted.len() == fields.len()
    &&& forall|i: int| 0 <= i < fields.len() ==> ((#[trigger] redacted[i]) is Some <==> sensitive_name(spec_str_to_lowercase(fields[i].0@)))
}

/// A field with its value replaced by the redacted one, when it has one.
pub open spec fn redacted_field(f: (String, String), r: Option<String>) -> HeaderView {
    match r {
        Some(v) => (f.0@, v@),
        None => (f.0@, f.1@),
    }
}

/// The fields with their redacted values.
pub open spec fn redacted_fields(fields: Seq<(String, String)>, redacted: Seq<Option<String>>) -> Seq<HeaderView>
    decreases fields.len(),
{
    if fields.len() == 0 {
        Seq::empty()
    } else {
        redacted_fields(fields.drop_last(), redacted.take(fields.len() - 1))
            .push(redacted_field(fields.last(), redacted[fields.len() - 1]))
    }
}

/// The number of fields whose redacted value differs from the original.
pub open spec fn changed_count(fields: Seq<(String, String)>, redacted: Seq<Option<String>>) -> nat
    decreases fields.len(),
{
    if fields.len() == 0 {
        0
    } else {
        changed_count(fields.drop_last(), redacted.take(fields.len() - 1))
            + match redacted[fields.len() - 1] {
                Some(v) => if v@ != fields.last().1@ { 1nat } else { 0nat },
                None => 0nat,
            }
    }
}

/// The bytes redaction took out of the changed values: for each, how much shorter (in
/// UTF-8) the redacted value is, or nothing when it is not shorter.
pub open spec fn shortened_bytes(fields: Seq<(String, String)>, redacted: Seq<Option<String>>) -> nat
    decreases fields.len(),
{
    if fields.len() == 0 {
        0
    } else {
        shortened_bytes(fields.drop_last(), redacted.take(fields.len() - 1))
            + match redacted[fields.len() - 1] {
                Some(v) => if v@ != fields.last().1@ && utf8_bytes(fields.last().1@).len() > utf8_bytes(v@).len() {
                    (utf8_bytes(fields.last().1@).len() - utf8_bytes(v@).len()) as nat
                } else {
                    0nat
                },
                None => 0nat,
            }
    }
}

impl HeaderRedactor {
    /// A redactor for a stream, with fresh HPACK tables and zero counters.
    pub fn new(stream_id: u32) -> (r: Self)
        ensures
            r.stream_id == stream_id,
            r.decoder.wf(),
            r.decoder.entries().len() == 0,
            r.decoder.max() == 4096,
            r.headers_redacted == 0 && r.patterns_found == 0 && r.bytes_redacted == 0,
    {
        HeaderRedactor {
            stream_id,
            decoder: HpackDecoder::new(),
            encoder: HpackEncoder::new(),
            headers_redacted: 0,
            patterns_found: 0,
            bytes_redacted: 0,
        }
    }

    /// Whether a header's values are redacted (see `sensitive_name`), whatever its case.
    pub fn is_sensitive_header(&self, name: &str) -> (r: bool)
        ensures
            r == sensitive_name(spec_str_to_lowercase(name@)),
    {
        sensitive_header_name(name)
    }

    /// Decodes a header block with the stream's table; the caller redacts the values of the
    /// sensitive fields and hands them to `encode_redacted`.
    pub fn decode_headers(&mut self, hpack_bytes: &[u8]) -> (r: Result<Vec<(String, String)>, String>)
        requires
            old(self).decoder.wf(),
        ensures
            final(self).decoder.wf(),
            final(self).stream_id == old(self).stream_id,
            final(self).encoder == old(self).encoder,
            final(self).headers_redacted == old(self).headers_redacted,
            final(self).patterns_found == old(self).patterns_found,
            final(self).bytes_redacted == old(self).bytes_redacted,
            match decodes(old(self).decoder, hpack_bytes@) {
                BlockOutcome::Done { headers, entries, max } => r matches Ok(v) && fields_view(v@) == dedup_fields(headers)
                    && final(self).decoder.entries() == entries && final(self).decoder.max() == max,
                BlockOutcome::Fail { failure, entries, max } => r matches Err(m)
                    && m@ == "HPACK decode failed: "@ + failure.text()
                    && final(self).decoder.entries() == entries && final(self).decoder.max() == max,
            },
    {
        match self.decoder.decode(hpack_bytes) {
            Ok(v) => Ok(v),
            Err(e) => {
                let mut m = String::from_str("HPACK decode failed: ");
                m.append(e.as_str());
                Err(m)
            },
        }
    }

    /// Counts the redactions and encodes the fields again, each with its redacted value
    /// when it has one, one field per name (the value last given): each changed value is
    /// counted twice as a redacted header and once as a pattern found, with the bytes it
    /// lost.
    pub fn encode_redacted(&mut self, fields: Vec<(String, String)>, redacted: Vec<Option<String>>) -> (r: Result<Vec<u8>, String>)
        requires
            redactions_fit(fields@, redacted@),
            old(self).headers_redacted + 2 * fields@.len() <= u64::MAX,
            old(self).patterns_found + fields@.len() <= u64::MAX,
            old(self).bytes_redacted + shortened_bytes(fields@, redacted@) <= u64::MAX,
        ensures
            r matches Ok(out) && exists|entries: Seq<(String, String)>|
                fields_view(entries) == dedup_fields(redacted_fields(fields@, redacted@))
                && out@ == hpack_literals(entries),
            final(self).headers_redacted == old(self).headers_redacted + 2 * changed_count(fields@, redacted@),
            final(self).patterns_found == old(self).patterns_found + changed_count(fields@, redacted@),
            final(self).bytes_redacted == old(self).bytes_redacted + shortened_bytes(fields@, redacted@),
            final(self).stream_id == old(self).stream_id,
            final(self).decoder == old(self).decoder,
            final(self).encoder == old(self).encoder,
    {
        let mut out: Vec<(String, String)> = Vec::new();
        let mut i: usize = 0;
        while i < fields.len()
            invariant
                i <= fields@.len(),
                redacted@.len() == fields@.len(),
                fields_view(out@) == redacted_fields(fields@.take(i as int), redacted@.take(i as int)),
                self.headers_redacted == old(self).headers_redacted + 2 * changed_count(fields@.take(i as int), redacted@.take(i as int)),
                self.patterns_found == old(self).patterns_found + changed_count(fields@.take(i as int), redacted@.take(i as int)),
                self.bytes_redacted == old(self).bytes_redacted + shortened_bytes(fields@.take(i as int), redacted@.take(i as int)),
                changed_count(fields@.take(i as int), redacted@.take(i as int)) <= i,
                shortened_bytes(fields@.take(i as int), redacted@.take(i as int)) <= shortened_bytes(fields@, redacted@),
                old(self).headers_redacted + 2 * fields@.len() <= u64::MAX,
                old(self).patterns_found + fields@.len() <= u64::MAX,
                old(self).bytes_redacted + shortened_bytes(fields@, redacted@) <= u64::MAX,
                self.stream_id == old(self).stream_id,
                self.decoder == old(self).decoder,
                self.encoder == old(self).encoder,
            decreases fields@.len() - i,
        {
            let ghost fi = fields@.take(i + 1);
            let ghost ri = redacted@.take(i + 1);
            assert(fi.drop_last() == fields@.take(i as int));
            assert(ri.take(i as int) == redacted@.take(i as int));
            proof { lemma_shortened_prefix(fields@, redacted@, i + 1); }
            let name = fields[i].0.clone();
            let value = match &redacted[i] {
                Some(v) => {
                    if !str_eq(v.as_str(), fields[i].1.as_str()) {
                        self.patterns_found = self.patterns_found + 1;
                        self.headers_redacted = self.headers_redacted + 2;
                        let before_len = fields[i].1.as_str().as_bytes().len();
                        let after_len = v.as_str().as_bytes().len();
                        if before_len > after_len {
                            self.bytes_redacted = self.bytes_redacted + (before_len - after_len) as u64;
                        }
                    }
                    v.clone()
                },
                None => fields[i].1.clone(),
            };
            let ghost before = out@;
            out.push((name, value));
            assert(fields_view(out@) == fields_view(before).push(redacted_field(fields@[i as int], redacted@[i as int])));
            i += 1;
        }
        assert(fields@.take(i as int) == fields@);
        assert(redacted@.take(i as int) == redacted@);
        let entries = dedup_headers(out);
        Ok(self.encoder.encode_list(entries.as_slice()))
    }

    /// The stream this redactor serves.
    pub fn stream_id(&self) -> (r: u32)
        ensures
            r == self.stream_id,
    {
        self.stream_id
    }

    /// The redactor's counters.
    pub fn stats(&self) -> (s: HeaderRedactionStats)
        ensures
            s.stream_id == self.stream_id,
            s.headers_redacted == self.headers_redacted,
            s.patterns_found == self.patterns_found,
            s.bytes_redacted == self.bytes_redacted,
    {
        HeaderRedactionStats {
            stream_id: self.stream_id,
            headers_redacted: self.headers_redacted,
            patterns_found: self.patterns_found,
            bytes_redacted: self.bytes_redacted,
        }
    }
}

/// The number of values redaction changes and the bytes it takes out of them (see
/// `changed_count` and `shortened_bytes`), or `None` when the bytes do not fit in a `u64`.
pub fn redaction_counts(fields: &Vec<(String, String)>, redacted: &Vec<Option<String>>) -> (r: Option<(u64, u64)>)
    requires
        redacted@.len() == fields@.len(),
    ensures
        match r {
            Some((c, b)) => c == changed_count(fields@, redacted@) && b == shortened_bytes(fields@, redacted@),
            None => shortened_bytes(fields@, redacted@) > u64::MAX,
        },
{
    let mut c: u64 = 0;
    let mut b: u64 = 0;
    let mut i: usize = 0;
    while i < fields.len()
        invariant
            i <= fields@.len(),
            redacted@.len() == fields@.len(),
            c == changed_count(fields@.take(i as int), redacted@.take(i as int)),
            b == shortened_bytes(fields@.take(i as int), redacted@.take(i as int)),
            c <= i,
        decreases fields@.len() - i,
    {
        let ghost fi = fields@.take(i + 1);
        let ghost ri = redacted@.take(i + 1);
        assert(fi.drop_last() == fields@.take(i as int));
        assert(ri.take(i as int) == redacted@.take(i as int));
        match &redacted[i] {
            Some(v) => {
                if !str_eq(v.as_str(), fields[i].1.as_str()) {
                    c = c + 1;
                    let before_len = fields[i].1.as_str().as_bytes().len();
                    let after_len = v.as_str().as_bytes().len();
                    if before_len > after_len {
                        let d = (before_len - after_len) as u64;
                        if b > u64::MAX - d {
                            proof { lemma_shortened_prefix(fields@, redacted@, i + 1); }
                            return None;
                        }
                        b = b + d;
                    }
                }
            },
            None => {},
        }
        i += 1;
    }
    assert(fields@.take(i as int) == fields@);
    assert(redacted@.take(i as int) == redacted@);
    Some((c, b))
}

/// The bytes shortened over a prefix are at most those over the whole list.
proof fn lemma_shortened_prefix(fields: Seq<(String, String)>, redacted: Seq<Option<String>>, n: int)
    requires
        0 <= n <= fields.len(),
        redacted.len() == fields.len(),
    ensures
        shortened_bytes(fields.take(n), redacted.take(n)) <= shortened_bytes(fields, redacted),
    decreases fields.len() - n,
{
    if n < fields.len() {
        lemma_shortened_prefix(fields, redacted, n + 1);
        assert(fields.take(n + 1).drop_last() == fields.take(n));
        assert(redacted.take(n + 1).take(n) == redacted.take(n));
    } else {
        assert(fields.take(n) == fields);
        assert(redacted.take(n) == redacted);
    }
}

} // verus!
