use vstd::prelude::*;
use std::collections::HashMap;
use crate::bytes::{be32, read_be_u32};
use crate::h2::header_redactor::{HeaderRedactor, redactions_fit, redacted_fields, changed_count, shortened_bytes, redaction_counts};
use crate::h2::frame_encoder::hpack_literals;
use crate::h2::h2_proxy_bridge::dedup_fields;
use crate::h2::hpack::{block_decode, fields_view, BlockOutcome, HeaderView};

verus! {

broadcast use vstd::std_specs::hash::group_hash_axioms;

/// The SETTINGS frame type.
pub const FRAME_TYPE_SETTINGS: u8 = 0x04;

/// The HEADERS frame type.
pub const FRAME_TYPE_HEADERS: u8 = 0x01;

/// The ACK flag of a SETTINGS frame.
pub const SETTINGS_ACK_FLAG: u8 = 0x01;

/// The stream id in a frame header (its last four bytes, the reserved bit cleared); 0 for a
/// header shorter than nine bytes.
pub open spec fn stream_id_of(header: Seq<u8>) -> u32 {
    if header.len() < 9 {
        0
    } else {
        (be32(header[5], header[6], header[7], header[8]) % 0x8000_0000) as u32
    }
}

/// The stream id in a frame header (see `stream_id_of`).
pub fn extract_stream_id(header: &[u8]) -> (r: u32)
    ensures
        r == stream_id_of(header@),
{
    if header.len() < 9 {
        return 0;
    }
    let raw = read_be_u32(header, 5);
    assert(raw & 0x7fff_ffff == raw % 0x8000_0000) by (bit_vector);
    raw & 0x7fff_ffff
}

/// A frame header with its stream id replaced by `stream_id` (its low 31 bits), the
/// reserved bit (the top bit of byte 5) kept; a header shorter than nine bytes is left as it
/// is.
pub open spec fn with_stream_id(header: Seq<u8>, stream_id: u32) -> Seq<u8> {
    if header.len() < 9 {
        header
    } else {
        let id = stream_id % 0x8000_0000;
        header.take(5) + seq![(header[5] - header[5] % 0x80 + id / 0x100_0000) as u8, ((id / 0x1_0000) % 0x100) as u8, ((id / 0x100) % 0x100) as u8,
            (id % 0x100) as u8] + header.skip(9)
    }
}

/// Writes `stream_id` (its low 31 bits) into a frame header, keeping the reserved bit.
pub fn set_stream_id(header: &mut Vec<u8>, stream_id: u32)
    ensures
        final(header)@ == with_stream_id(old(header)@, stream_id),
{
    if header.len() < 9 {
        return;
    }
    let id = stream_id & 0x7fff_ffff;
    let h5 = header[5];
    let b0 = (h5 & 0x80) | (((id >> 24u32) & 0xff) as u8);
    let b1 = ((id >> 16u32) & 0xff) as u8;
    let b2 = ((id >> 8u32) & 0xff) as u8;
    let b3 = (id & 0xff) as u8;
    assert(id == stream_id % 0x8000_0000 && b0 == (h5 - h5 % 0x80 + id / 0x100_0000) as u8 && b1 == ((id / 0x1_0000) % 0x100) as u8
        && b2 == ((id / 0x100) % 0x100) as u8 && b3 == (id % 0x100) as u8) by (bit_vector)
        requires
            id == stream_id & 0x7fff_ffff,
            b0 == (h5 & 0x80) | (((id >> 24u32) & 0xff) as u8),
            b1 == ((id >> 16u32) & 0xff) as u8,
            b2 == ((id >> 8u32) & 0xff) as u8,
            b3 == (id & 0xff) as u8,
    ;
    header.set(5, b0);
    header.set(6, b1);
    header.set(7, b2);
    header.set(8, b3);
    assert(header@ =~= with_stream_id(old(header)@, stream_id));
}

/// The refusal for one SETTINGS parameter, if it is out of bounds (RFC 7540, Section 6.5.2).
pub open spec fn setting_error(id: nat, value: nat) -> Option<Seq<char>> {
    if id == 2 && value > 1 {
        Some("SETTINGS_ENABLE_PUSH must be 0 or 1"@)
    } else if id == 4 && value > 0x7fff_ffff {
        Some("SETTINGS_INITIAL_WINDOW_SIZE out of bounds"@)
    } else if id == 5 && (value < 16384 || value > 16777215) {
        Some("SETTINGS_MAX_FRAME_SIZE must be 16384-16777215"@)
    } else {
        None
    }
}

/// The identifier of the `k`-th six-byte parameter of a SETTINGS payload.
pub open spec fn setting_id(p: Seq<u8>, k: int) -> nat {
    p[6 * k] as nat * 256 + p[6 * k + 1] as nat
}

/// The value of the `k`-th six-byte parameter of a SETTINGS payload.
pub open spec fn setting_value(p: Seq<u8>, k: int) -> nat {
    be32(p[6 * k + 2], p[6 * k + 3], p[6 * k + 4], p[6 * k + 5])
}

/// The first refusal among the parameters `k..n` of a SETTINGS payload.
pub open spec fn settings_error_from(p: Seq<u8>, k: nat, n: nat) -> Option<Seq<char>>
    decreases n - k,
{
    if k >= n {
        None
    } else {
        match setting_error(setting_id(p, k as int), setting_value(p, k as int)) {
            Some(e) => Some(e),
            None => settings_error_from(p, k + 1, n),
        }
    }
}

/// Why a SETTINGS payload is refused, if it is: a length that is not a multiple of six,
/// or the first parameter out of bounds.
pub open spec fn settings_error(p: Seq<u8>) -> Option<Seq<char>> {
    if p.len() % 6 != 0 {
        Some("Invalid SETTINGS frame length"@)
    } else {
        settings_error_from(p, 0, p.len() / 6)
    }
}

/// Checks a SETTINGS payload (see `settings_error`).
pub fn validate_settings_frame(payload: &[u8]) -> (r: Result<(), String>)
    ensures
        match settings_error(payload@) {
            Some(m) => r matches Err(e) && e@ == m,
            None => r is Ok,
        },
{
    if payload.len() % 6 != 0 {
        return Err(String::from_str("Invalid SETTINGS frame length"));
    }
    let n = payload.len() / 6;
    let mut k: usize = 0;
    while k < n
        invariant
            k <= n,
            n == payload@.len() / 6,
            payload@.len() % 6 == 0,
            payload@.len() <= usize::MAX,
            settings_error(payload@) == settings_error_from(payload@, k as nat, n as nat),
        decreases n - k,
    {
        assert(6 * k + 6 <= payload@.len()) by (nonlinear_arith)
            requires k < n, n == payload@.len() / 6, payload@.len() % 6 == 0;
        let base = 6 * k;
        let id = (payload[base] as u32) * 256 + (payload[base + 1] as u32);
        let value = read_be_u32(payload, base + 2);
        assert(id as nat == setting_id(payload@, k as int));
        assert(value as nat == setting_value(payload@, k as int));
        if id == 2 && value > 1 {
            return Err(String::from_str("SETTINGS_ENABLE_PUSH must be 0 or 1"));
        }
        if id == 4 && value > 0x7fff_ffff {
            return Err(String::from_str("SETTINGS_INITIAL_WINDOW_SIZE out of bounds"));
        }
        if id == 5 && (value < 16384 || value > 16777215) {
            return Err(String::from_str("SETTINGS_MAX_FRAME_SIZE must be 16384-16777215"));
        }
        k += 1;
    }
    Ok(())
}

/// The client connection preface of HTTP/2 (RFC 7540, Section 3.5).
pub open spec fn client_preface() -> Seq<u8> {
    seq![0x50u8, 0x52, 0x49, 0x20, 0x2a, 0x20, 0x48, 0x54, 0x54, 0x50, 0x2f, 0x32, 0x2e, 0x30, 0x0d, 0x0a,
        0x0d, 0x0a, 0x53, 0x4d, 0x0d, 0x0a, 0x0d, 0x0a]
}

/// The connection preface, sent to both sides once the client's has been read.
pub fn connection_preface() -> (r: Vec<u8>)
    ensures
        r@ == client_preface(),
{
    let r: Vec<u8> = vec![0x50u8, 0x52, 0x49, 0x20, 0x2a, 0x20, 0x48, 0x54, 0x54, 0x50, 0x2f, 0x32, 0x2e, 0x30, 0x0d,
        0x0a, 0x0d, 0x0a, 0x53, 0x4d, 0x0d, 0x0a, 0x0d, 0x0a];
    assert(r@ =~= client_preface());
    r
}

/// Checks the preface read from the client.
pub fn check_client_preface(preface: &[u8]) -> (r: Result<(), String>)
    ensures
        preface@ == client_preface() ==> r is Ok,
        preface@ != client_preface() ==> (r matches Err(e) && e@ == "Invalid H2 client preface"@),
{
    let expected = connection_preface();
    if preface.len() != expected.len() {
        return Err(String::from_str("Invalid H2 client preface"));
    }
    let mut i: usize = 0;
    while i < expected.len()
        invariant
            i <= expected@.len(),
            expected@ == client_preface(),
            preface@.len() == expected@.len(),
            forall|j: int| 0 <= j < i ==> preface@[j] == expected@[j],
        decreases expected@.len() - i,
    {
        if preface[i] != expected[i] {
            return Err(String::from_str("Invalid H2 client preface"));
        }
        i += 1;
    }
    assert(preface@ =~= client_preface());
    Ok(())
}

/// The SETTINGS ACK frame: empty, type SETTINGS, flag ACK, stream 0.
pub open spec fn settings_ack_spec() -> Seq<u8> {
    seq![0u8, 0, 0, 0x04, 0x01, 0, 0, 0, 0]
}

/// The SETTINGS ACK frame.
pub fn settings_ack_frame() -> (r: Vec<u8>)
    ensures
        r@ == settings_ack_spec(),
{
    let r: Vec<u8> = vec![0u8, 0, 0, FRAME_TYPE_SETTINGS, SETTINGS_ACK_FLAG, 0, 0, 0, 0];
    assert(r@ =~= settings_ack_spec());
    r
}

/// How a forwarding session behaves.
#[derive(Clone, Debug)]
pub struct FrameForwarderConfig {
    pub validate_settings: bool,
    pub max_concurrent_streams: u32,
    pub verbose_logging: bool,
    pub enable_header_redaction: bool,
}

impl Default for FrameForwarderConfig {
    fn default() -> (c: Self)
        ensures
            c.validate_settings,
            c.max_concurrent_streams == 100,
            !c.verbose_logging,
            c.enable_header_redaction,
    {
        FrameForwarderConfig {
            validate_settings: true,
            max_concurrent_streams: 100,
            verbose_logging: false,
            enable_header_redaction: true,
        }
    }
}

/// Counts of a forwarding session.
#[derive(Clone, Debug)]
pub struct ForwardingStats {
    pub frames_forwarded: u64,
    pub bytes_forwarded: u64,
    pub settings_acks_sent: u64,
    pub stream_mappings_created: u64,
    pub headers_redacted: u64,
}

impl Default for ForwardingStats {
    fn default() -> (s: Self)
        ensures
            s.frames_forwarded == 0 && s.bytes_forwarded == 0 && s.settings_acks_sent == 0
                && s.stream_mappings_created == 0 && s.headers_redacted == 0,
    {
        ForwardingStats {
            frames_forwarded: 0,
            bytes_forwarded: 0,
            settings_acks_sent: 0,
            stream_mappings_created: 0,
            headers_redacted: 0,
        }
    }
}

/// What to do with one frame read from one side.
#[derive(Debug)]
pub struct ForwardAction {
    /// Send a SETTINGS ACK to the upstream connection (for a SETTINGS frame from either
    /// side).
    pub send_settings_ack: bool,
    /// The header and payload to write to the other side, if the frame is forwarded.
    pub forward: Option<(Vec<u8>, Vec<u8>)>,
    /// For a HEADERS frame on a stream when header redaction is on: the client stream whose
    /// header redactor redacts the block before it is written (see
    /// `ForwardingSession::decode_for_redaction` and `ForwardingSession::finish_redaction`).
    pub redact_stream: Option<u32>,
}

/// The client stream that an upstream stream stands for: the one mapped to it, else itself.
pub open spec fn client_of(map: Map<u32, u32>, up: u32) -> u32 {
    if exists|k: u32| map.contains_key(k) && map[k] == up {
        choose|k: u32| map.contains_key(k) && map[k] == up
    } else {
        up
    }
}

/// Whether a frame header is SETTINGS without ACK, and SETTINGS with ACK.
pub open spec fn is_settings(header: Seq<u8>) -> bool {
    header[3] == 0x04 && header[4] & 1 == 0
}

/// Whether a frame header is a SETTINGS acknowledgement.
pub open spec fn is_settings_ack(header: Seq<u8>) -> bool {
    header[3] == 0x04 && header[4] & 1 != 0
}

/// Whether each header redactor of a list has a sound table and no two serve one stream.
pub open spec fn redactors_wf(rs: Seq<HeaderRedactor>) -> bool {
    &&& forall|i: int| 0 <= i < rs.len() ==> (#[trigger] rs[i]).decoder.wf()
    &&& forall|i: int, j: int| 0 <= i < j < rs.len() ==> (#[trigger] rs[i]).stream_id != (#[trigger] rs[j]).stream_id
}

/// Whether a list holds a header redactor for a stream.
pub open spec fn has_redactor(rs: Seq<HeaderRedactor>, sid: u32) -> bool {
    exists|i: int| 0 <= i < rs.len() && (#[trigger] rs[i]).stream_id == sid
}

/// The header redactor a list holds for a stream.
pub open spec fn redactor_of(rs: Seq<HeaderRedactor>, sid: u32) -> HeaderRedactor {
    rs[choose|i: int| 0 <= i < rs.len() && (#[trigger] rs[i]).stream_id == sid]
}

/// The HPACK table (entries and size limit) that a stream's next header block is decoded
/// with: that of its redactor, or a fresh one of 4096 bytes when it has none yet.
pub open spec fn stream_table(rs: Seq<HeaderRedactor>, sid: u32) -> (Seq<HeaderView>, nat) {
    if has_redactor(rs, sid) {
        (redactor_of(rs, sid).decoder.entries(), redactor_of(rs, sid).decoder.max())
    } else {
        (seq![], 4096nat)
    }
}

/// The counters (headers redacted, patterns found, bytes redacted) of a stream's redactor,
/// all zero when it has none yet.
pub open spec fn stream_counters(rs: Seq<HeaderRedactor>, sid: u32) -> (nat, nat, nat) {
    if has_redactor(rs, sid) {
        let r = redactor_of(rs, sid);
        (r.headers_redacted as nat, r.patterns_found as nat, r.bytes_redacted as nat)
    } else {
        (0nat, 0nat, 0nat)
    }
}

/// A frame header with its 24-bit length replaced by `len`.
pub open spec fn with_length(header: Seq<u8>, len: nat) -> Seq<u8> {
    seq![(len / 65536) as u8, ((len / 256) % 256) as u8, (len % 256) as u8] + header.skip(3)
}

/// The redactor at an index is the one its list holds for its stream.
proof fn lemma_redactor_at(rs: Seq<HeaderRedactor>, i: int)
    requires
        redactors_wf(rs),
        0 <= i < rs.len(),
    ensures
        has_redactor(rs, rs[i].stream_id),
        redactor_of(rs, rs[i].stream_id) == rs[i],
{
    let sid = rs[i].stream_id;
    assert(rs[i].stream_id == sid);
    let j = choose|j: int| 0 <= j < rs.len() && (#[trigger] rs[j]).stream_id == sid;
    if j < i {
        assert(rs[j].stream_id != rs[i].stream_id);
    } else if i < j {
        assert(rs[i].stream_id != rs[j].stream_id);
    }
}

/// Changing only the redactor of one stream (or adding it) leaves every other stream's
/// redactor as it was.
proof fn lemma_redactor_other(prev: Seq<HeaderRedactor>, next: Seq<HeaderRedactor>, sid: u32, s: u32)
    requires
        redactors_wf(prev),
        redactors_wf(next),
        s != sid,
        next.len() >= prev.len(),
        forall|k: int| 0 <= k < prev.len() && prev[k].stream_id != sid ==> next[k] == prev[k],
        forall|k: int| 0 <= k < next.len() && (k >= prev.len() || prev[k].stream_id == sid) ==> next[k].stream_id == sid,
    ensures
        has_redactor(next, s) == has_redactor(prev, s),
        stream_table(next, s) == stream_table(prev, s),
        stream_counters(next, s) == stream_counters(prev, s),
{
    if has_redactor(prev, s) {
        let k = choose|k: int| 0 <= k < prev.len() && (#[trigger] prev[k]).stream_id == s;
        assert(next[k] == prev[k]);
        lemma_redactor_at(prev, k);
        lemma_redactor_at(next, k);
    }
    if has_redactor(next, s) {
        let k = choose|k: int| 0 <= k < next.len() && (#[trigger] next[k]).stream_id == s;
        if k >= prev.len() || prev[k].stream_id == sid {
            assert(next[k].stream_id == sid);
        } else {
            assert(next[k] == prev[k]);
            assert(prev[k].stream_id == s);
        }
    }
}

/// Every stream but `sid` keeps its redactor when only that of `sid` changes or is added.
proof fn lemma_redactor_others(prev: Seq<HeaderRedactor>, next: Seq<HeaderRedactor>, sid: u32)
    requires
        redactors_wf(prev),
        redactors_wf(next),
        next.len() >= prev.len(),
        forall|k: int| 0 <= k < prev.len() && prev[k].stream_id != sid ==> next[k] == prev[k],
        forall|k: int| 0 <= k < next.len() && (k >= prev.len() || prev[k].stream_id == sid) ==> next[k].stream_id == sid,
    ensures
        forall|s: u32| s != sid ==> #[trigger] has_redactor(next, s) == has_redactor(prev, s),
        forall|s: u32| s != sid ==> #[trigger] stream_table(next, s) == stream_table(prev, s),
        forall|s: u32| s != sid ==> #[trigger] stream_counters(next, s) == stream_counters(prev, s),
{
    assert forall|s: u32| s != sid implies #[trigger] has_redactor(next, s) == has_redactor(prev, s)
        && stream_table(next, s) == stream_table(prev, s)
        && stream_counters(next, s) == stream_counters(prev, s) by {
        lemma_redactor_other(prev, next, sid, s);
    }
    assert forall|s: u32| s != sid implies #[trigger] stream_table(next, s) == stream_table(prev, s) by {
        lemma_redactor_other(prev, next, sid, s);
    }
    assert forall|s: u32| s != sid implies #[trigger] stream_counters(next, s) == stream_counters(prev, s) by {
        lemma_redactor_other(prev, next, sid, s);
    }
}

/// The index of the redactor a list holds for a stream, if it holds one.
fn find_redactor(rs: &Vec<HeaderRedactor>, sid: u32) -> (r: Option<usize>)
    ensures
        match r {
            Some(i) => i < rs@.len() && rs@[i as int].stream_id == sid,
            None => !has_redactor(rs@, sid),
        },
{
    let mut i: usize = 0;
    while i < rs.len()
        invariant
            i <= rs@.len(),
            forall|k: int| 0 <= k < i ==> (#[trigger] rs@[k]).stream_id != sid,
        decreases rs@.len() - i,
    {
        if rs[i].stream_id == sid {
            return Some(i);
        }
        i += 1;
    }
    None
}

/// Decodes a header block with the table of the stream's redactor in `rs`, adding one for
/// the stream when it has none; the other streams' redactors stay as they were.
fn decode_with(rs: &mut Vec<HeaderRedactor>, sid: u32, block: &[u8]) -> (r: Result<Vec<(String, String)>, String>)
    requires
        redactors_wf(old(rs)@),
    ensures
        redactors_wf(final(rs)@),
        has_redactor(final(rs)@, sid),
        stream_counters(final(rs)@, sid) == stream_counters(old(rs)@, sid),
        forall|s: u32| s != sid ==> #[trigger] has_redactor(final(rs)@, s) == has_redactor(old(rs)@, s),
        forall|s: u32| s != sid ==> #[trigger] stream_table(final(rs)@, s) == stream_table(old(rs)@, s),
        forall|s: u32| s != sid ==> #[trigger] stream_counters(final(rs)@, s) == stream_counters(old(rs)@, s),
        ({
            let t = stream_table(old(rs)@, sid);
            match block_decode(t.0, t.1, block@, 0, seq![]) {
                BlockOutcome::Done { headers, entries, max } => r matches Ok(v) && fields_view(v@) == dedup_fields(headers)
                    && stream_table(final(rs)@, sid) == (entries, max),
                BlockOutcome::Fail { failure, entries, max } => r matches Err(m)
                    && m@ == "HPACK decode failed: "@ + failure.text()
                    && stream_table(final(rs)@, sid) == (entries, max),
            }
        }),
{
    let ghost before = rs@;
    match find_redactor(rs, sid) {
        Some(i) => {
            proof { lemma_redactor_at(before, i as int); }
            let mut red = rs.remove(i);
            let out = red.decode_headers(block);
            rs.insert(i, red);
            assert(rs@ =~= before.update(i as int, red));
            assert forall|a: int, b: int| 0 <= a < b < rs@.len() implies (#[trigger] rs@[a]).stream_id != (#[trigger] rs@[b]).stream_id by {
                assert(before[a].stream_id != before[b].stream_id);
            }
            proof {
                lemma_redactor_at(rs@, i as int);
                lemma_redactor_others(before, rs@, sid);
            }
            out
        },
        None => {
            let mut red = HeaderRedactor::new(sid);
            assert(red.decoder.entries() =~= seq![]);
            let out = red.decode_headers(block);
            rs.push(red);
            assert(rs@ =~= before.push(red));
            assert forall|a: int, b: int| 0 <= a < b < rs@.len() implies (#[trigger] rs@[a]).stream_id != (#[trigger] rs@[b]).stream_id by {
                if b == before.len() {
                    assert(!(0 <= a < before.len() && before[a].stream_id == sid));
                } else {
                    assert(before[a].stream_id != before[b].stream_id);
                }
            }
            proof {
                lemma_redactor_at(rs@, before.len() as int);
                lemma_redactor_others(before, rs@, sid);
            }
            out
        },
    }
}

/// Whether the counters of a stream's redactor, and the session's count of redacted headers,
/// have room for redacting these fields.
pub open spec fn redaction_room(rs: Seq<HeaderRedactor>, sid: u32, total: u64, fields: Seq<(String, String)>, redacted: Seq<Option<String>>) -> bool {
    let c = stream_counters(rs, sid);
    &&& c.0 + 2 * fields.len() <= u64::MAX
    &&& c.1 + fields.len() <= u64::MAX
    &&& c.2 + shortened_bytes(fields, redacted) <= u64::MAX
    &&& total + c.0 + 2 * changed_count(fields, redacted) <= u64::MAX
}

/// The header block that redaction gives for these fields: each sensitive value replaced by
/// its redacted one, one field per name, encoded as literals.
pub open spec fn redacted_block(fields: Seq<(String, String)>, redacted: Seq<Option<String>>, out: Seq<u8>) -> bool {
    exists|entries: Seq<(String, String)>| fields_view(entries) == dedup_fields(redacted_fields(fields, redacted))
        && out == hpack_literals(entries)
}

/// Encodes redacted fields with the stream's redactor in `rs` (adding one when it has none),
/// which counts the redactions; returns the block and the redactor's count of redacted
/// headers after it.
fn encode_with(rs: &mut Vec<HeaderRedactor>, sid: u32, fields: Vec<(String, String)>, redacted: Vec<Option<String>>) -> (r: (Vec<u8>, u64))
    requires
        redactors_wf(old(rs)@),
        redactions_fit(fields@, redacted@),
        redaction_room(old(rs)@, sid, 0, fields@, redacted@),
    ensures
        redactors_wf(final(rs)@),
        has_redactor(final(rs)@, sid),
        redacted_block(fields@, redacted@, r.0@),
        ({
            let c = stream_counters(old(rs)@, sid);
            let n = changed_count(fields@, redacted@);
            stream_counters(final(rs)@, sid) == (c.0 + 2 * n, c.1 + n, c.2 + shortened_bytes(fields@, redacted@))
                && r.1 == c.0 + 2 * n
        }),
        stream_table(final(rs)@, sid) == stream_table(old(rs)@, sid),
        forall|s: u32| s != sid ==> #[trigger] has_redactor(final(rs)@, s) == has_redactor(old(rs)@, s),
        forall|s: u32| s != sid ==> #[trigger] stream_table(final(rs)@, s) == stream_table(old(rs)@, s),
        forall|s: u32| s != sid ==> #[trigger] stream_counters(final(rs)@, s) == stream_counters(old(rs)@, s),
{
    let ghost before = rs@;
    let (mut red, i, found) = match find_redactor(rs, sid) {
        Some(i) => {
            proof { lemma_redactor_at(before, i as int); }
            (rs.remove(i), i, true)
        },
        None => (HeaderRedactor::new(sid), rs.len(), false),
    };
    let ghost red0 = red;
    assert(red0.decoder.wf());
    assert(stream_counters(before, sid) == (red0.headers_redacted as nat, red0.patterns_found as nat, red0.bytes_redacted as nat));
    assert(!found ==> stream_table(before, sid) == (red0.decoder.entries(), red0.decoder.max())) by {
        if !found {
            assert(red0.decoder.entries() =~= seq![]);
        }
    }
    let out = match red.encode_redacted(fields, redacted) {
        Ok(o) => o,
        Err(_) => Vec::new(),
    };
    let count = red.headers_redacted;
    if found {
        rs.insert(i, red);
        assert(rs@ =~= before.update(i as int, red));
    } else {
        rs.push(red);
        assert(rs@ =~= before.push(red));
    }
    assert forall|a: int, b: int| 0 <= a < b < rs@.len() implies (#[trigger] rs@[a]).stream_id != (#[trigger] rs@[b]).stream_id by {
        if !found && b == before.len() {
            assert(!(0 <= a < before.len() && before[a].stream_id == sid));
        } else {
            assert(before[a].stream_id != before[b].stream_id);
        }
    }
    proof {
        lemma_redactor_at(rs@, i as int);
        lemma_redactor_others(before, rs@, sid);
    }
    (out, count)
}

/// The state of one forwarding session between a client and an upstream: the client-to-
/// upstream stream ids, the next upstream id to hand out, and the counts.
pub struct ForwardingSession {
    pub config: FrameForwarderConfig,
    pub stats: ForwardingStats,
    pub stream_map: HashMap<u32, u32>,
    pub reverse_map: HashMap<u32, u32>,
    pub next_upstream_id: u32,
    /// The header redactors of the client streams, for blocks sent by the client.
    pub client_redactors: Vec<HeaderRedactor>,
    /// The header redactors of the client streams, for blocks sent by the upstream.
    pub upstream_redactors: Vec<HeaderRedactor>,
}

impl ForwardingSession {
    /// The client-to-upstream stream ids.
    pub open spec fn mapping(&self) -> Map<u32, u32> {
        self.stream_map@
    }

    /// The next upstream stream id to hand out.
    pub open spec fn next_id(&self) -> u32 {
        self.next_upstream_id
    }

    /// The session's invariant: the reverse map is the inverse of the stream map, every
    /// upstream id handed out is below the next one (so no two client streams share one),
    /// and each side has at most one header redactor per stream.
    pub open spec fn wf(&self) -> bool {
        &&& forall|k: u32| #[trigger] self.stream_map@.contains_key(k) ==> self.reverse_map@.contains_key(self.stream_map@[k])
            && self.reverse_map@[self.stream_map@[k]] == k && self.stream_map@[k] < self.next_upstream_id
        &&& forall|u: u32| #[trigger] self.reverse_map@.contains_key(u) ==> self.stream_map@.contains_key(self.reverse_map@[u])
            && self.stream_map@[self.reverse_map@[u]] == u
        &&& redactors_wf(self.client_redactors@)
        &&& redactors_wf(self.upstream_redactors@)
    }

    /// A session with no streams mapped; upstream ids start at 1.
    pub fn new(config: FrameForwarderConfig) -> (s: Self)
        ensures
            s.wf(),
            s.mapping() == Map::<u32, u32>::empty(),
            s.next_id() == 1,
            s.stats.frames_forwarded == 0 && s.stats.bytes_forwarded == 0 && s.stats.settings_acks_sent == 0
                && s.stats.stream_mappings_created == 0 && s.stats.headers_redacted == 0,
            s.config == config,
    {
        ForwardingSession {
            config,
            stats: ForwardingStats::default(),
            stream_map: HashMap::new(),
            reverse_map: HashMap::new(),
            next_upstream_id: 1,
            client_redactors: Vec::new(),
            upstream_redactors: Vec::new(),
        }
    }

    /// The upstream stream a client stream is mapped to.
    pub fn mapped_stream(&self, client_stream_id: u32) -> (r: Option<u32>)
        ensures
            r == if self.mapping().contains_key(client_stream_id) {
                Some(self.mapping()[client_stream_id])
            } else {
                None::<u32>
            },
    {
        match self.stream_map.get(&client_stream_id) {
            Some(u) => Some(*u),
            None => None,
        }
    }

    /// Handles a frame read from the client. A SETTINGS frame is checked (when configured)
    /// and answered with an ACK sent upstream; a SETTINGS ACK is consumed; any other frame is
    /// forwarded with its stream mapped to an upstream stream (a new client stream gets the
    /// next upstream id, ids going up by two); with header redaction on, a HEADERS frame on a
    /// stream names that stream in `redact_stream`. Every frame read counts towards the bytes.
    pub fn on_client_frame(&mut self, header: &Vec<u8>, payload: &Vec<u8>) -> (r: Result<ForwardAction, String>)
        requires
            old(self).wf(),
            header@.len() == 9,
            old(self).stats.bytes_forwarded + 9 + payload@.len() <= u64::MAX,
            old(self).stats.frames_forwarded < u64::MAX,
            old(self).stats.settings_acks_sent < u64::MAX,
            stream_id_of(header@) != 0 && !old(self).mapping().contains_key(stream_id_of(header@))
                ==> old(self).next_id() + 2 <= u32::MAX,
        ensures
            final(self).wf(),
            final(self).config == old(self).config,
            final(self).stats.bytes_forwarded == old(self).stats.bytes_forwarded + 9 + payload@.len(),
            final(self).stats.headers_redacted == old(self).stats.headers_redacted,
            final(self).stats.stream_mappings_created == old(self).stats.stream_mappings_created,
            final(self).client_redactors == old(self).client_redactors,
            final(self).upstream_redactors == old(self).upstream_redactors,
            ({
                let sid = stream_id_of(header@);
                let fresh = sid != 0 && !old(self).mapping().contains_key(sid);
                let up = if fresh { old(self).next_id() } else { old(self).mapping()[sid] };
                if is_settings(header@) && old(self).config.validate_settings && settings_error(payload@) is Some {
                    (r matches Err(e) && e@ == settings_error(payload@)->0)
                        && final(self).mapping() == old(self).mapping()
                        && final(self).next_id() == old(self).next_id()
                        && final(self).stats.frames_forwarded == old(self).stats.frames_forwarded
                        && final(self).stats.settings_acks_sent == old(self).stats.settings_acks_sent
                } else if is_settings_ack(header@) {
                    (r matches Ok(a) && !a.send_settings_ack && a.forward is None && a.redact_stream is None)
                        && final(self).mapping() == old(self).mapping()
                        && final(self).next_id() == old(self).next_id()
                        && final(self).stats.frames_forwarded == old(self).stats.frames_forwarded + 1
                        && final(self).stats.settings_acks_sent == old(self).stats.settings_acks_sent
                } else {
                    (r matches Ok(a) && a.send_settings_ack == is_settings(header@)
                        && (a.forward matches Some((h, p)) && p@ == payload@
                            && h@ == if sid != 0 { with_stream_id(header@, up) } else { header@ })
                        && a.redact_stream == (if old(self).config.enable_header_redaction && header@[3] == FRAME_TYPE_HEADERS
                            && sid != 0 { Some(sid) } else { None }))
                        && final(self).mapping() == (if fresh { old(self).mapping().insert(sid, up) } else { old(self).mapping() })
                        && final(self).next_id() == (if fresh { (old(self).next_id() + 2) as u32 } else { old(self).next_id() })
                        && final(self).stats.frames_forwarded == old(self).stats.frames_forwarded + 1
                        && final(self).stats.settings_acks_sent == old(self).stats.settings_acks_sent
                            + if is_settings(header@) { 1u64 } else { 0u64 }
                }
            }),
    {
        self.stats.bytes_forwarded = self.stats.bytes_forwarded + 9 + payload.len() as u64;
        let stream_id = extract_stream_id(header.as_slice());
        let frame_type = header[3];
        let flags = header[4];
        let mut send_ack = false;
        if frame_type == FRAME_TYPE_SETTINGS && (flags & SETTINGS_ACK_FLAG) == 0 {
            if self.config.validate_settings {
                match validate_settings_frame(payload.as_slice()) {
                    Ok(()) => {},
                    Err(e) => { return Err(e); },
                }
            }
            send_ack = true;
            self.stats.settings_acks_sent = self.stats.settings_acks_sent + 1;
        }
        if frame_type == FRAME_TYPE_SETTINGS && (flags & SETTINGS_ACK_FLAG) != 0 {
            self.stats.frames_forwarded = self.stats.frames_forwarded + 1;
            return Ok(ForwardAction { send_settings_ack: false, forward: None, redact_stream: None });
        }
        let mut out_header = header.clone();
        assert(out_header@ == header@);
        if stream_id != 0 {
            let upstream_stream_id = match self.stream_map.get(&stream_id) {
                Some(u) => *u,
                None => {
                    let id = self.next_upstream_id;
                    self.next_upstream_id = self.next_upstream_id + 2;
                    self.stream_map.insert(stream_id, id);
                    self.reverse_map.insert(id, stream_id);
                    id
                },
            };
            set_stream_id(&mut out_header, upstream_stream_id);
        }
        self.stats.frames_forwarded = self.stats.frames_forwarded + 1;
        let out_payload = payload.clone();
        assert(out_payload@ == payload@);
        let redact_stream = if self.config.enable_header_redaction && frame_type == FRAME_TYPE_HEADERS && stream_id != 0 {
            Some(stream_id)
        } else {
            None
        };
        Ok(ForwardAction { send_settings_ack: send_ack, forward: Some((out_header, out_payload)), redact_stream })
    }

    /// Handles a frame read from the upstream: SETTINGS as from the client (the ACK goes back
    /// to the upstream that sent it); any other frame is forwarded with its stream mapped back to the client
    /// stream it stands for (left as is when none does); with header redaction on, a HEADERS
    /// frame on a stream names that client stream in `redact_stream`.
    pub fn on_upstream_frame(&mut self, header: &Vec<u8>, payload: &Vec<u8>) -> (r: Result<ForwardAction, String>)
        requires
            old(self).wf(),
            header@.len() == 9,
            old(self).stats.bytes_forwarded + 9 + payload@.len() <= u64::MAX,
            old(self).stats.frames_forwarded < u64::MAX,
            old(self).stats.settings_acks_sent < u64::MAX,
        ensures
            final(self).wf(),
            final(self).config == old(self).config,
            final(self).mapping() == old(self).mapping(),
            final(self).next_id() == old(self).next_id(),
            final(self).stats.bytes_forwarded == old(self).stats.bytes_forwarded + 9 + payload@.len(),
            final(self).stats.headers_redacted == old(self).stats.headers_redacted,
            final(self).stats.stream_mappings_created == old(self).stats.stream_mappings_created,
            final(self).client_redactors == old(self).client_redactors,
            final(self).upstream_redactors == old(self).upstream_redactors,
            ({
                let sid = stream_id_of(header@);
                let cid = client_of(old(self).mapping(), sid);
                if is_settings(header@) && old(self).config.validate_settings && settings_error(payload@) is Some {
                    (r matches Err(e) && e@ == settings_error(payload@)->0)
                        && final(self).stats.frames_forwarded == old(self).stats.frames_forwarded
                        && final(self).stats.settings_acks_sent == old(self).stats.settings_acks_sent
                } else if is_settings_ack(header@) {
                    (r matches Ok(a) && !a.send_settings_ack && a.forward is None && a.redact_stream is None)
                        && final(self).stats.frames_forwarded == old(self).stats.frames_forwarded + 1
                        && final(self).stats.settings_acks_sent == old(self).stats.settings_acks_sent
                } else {
                    (r matches Ok(a) && a.send_settings_ack == is_settings(header@)
                        && (a.forward matches Some((h, p)) && p@ == payload@
                            && h@ == if sid != 0 && cid != sid { with_stream_id(header@, cid) } else { header@ })
                        && a.redact_stream == (if old(self).config.enable_header_redaction && header@[3] == FRAME_TYPE_HEADERS
                            && sid != 0 { Some(cid) } else { None }))
                        && final(self).stats.frames_forwarded == old(self).stats.frames_forwarded + 1
                        && final(self).stats.settings_acks_sent == old(self).stats.settings_acks_sent
                            + if is_settings(header@) { 1u64 } else { 0u64 }
                }
            }),
    {
        self.stats.bytes_forwarded = self.stats.bytes_forwarded + 9 + payload.len() as u64;
        let upstream_stream_id = extract_stream_id(header.as_slice());
        let frame_type = header[3];
        let flags = header[4];
        let mut send_ack = false;
        if frame_type == FRAME_TYPE_SETTINGS && (flags & SETTINGS_ACK_FLAG) == 0 {
            if self.config.validate_settings {
                match validate_settings_frame(payload.as_slice()) {
                    Ok(()) => {},
                    Err(e) => { return Err(e); },
                }
            }
            send_ack = true;
            self.stats.settings_acks_sent = self.stats.settings_acks_sent + 1;
        }
        if frame_type == FRAME_TYPE_SETTINGS && (flags & SETTINGS_ACK_FLAG) != 0 {
            self.stats.frames_forwarded = self.stats.frames_forwarded + 1;
            return Ok(ForwardAction { send_settings_ack: false, forward: None, redact_stream: None });
        }
        let mut out_header = header.clone();
        assert(out_header@ == header@);
        let mut redact_stream: Option<u32> = None;
        if upstream_stream_id != 0 {
            let client_stream_id = match self.reverse_map.get(&upstream_stream_id) {
                Some(c) => *c,
                None => upstream_stream_id,
            };
            proof {
                let m = self.stream_map@;
                if self.reverse_map@.contains_key(upstream_stream_id) {
                    let k = self.reverse_map@[upstream_stream_id];
                    assert(m.contains_key(k) && m[k] == upstream_stream_id);
                    let c = choose|c: u32| m.contains_key(c) && m[c] == upstream_stream_id;
                    assert(self.reverse_map@[m[c]] == c);
                } else {
                    if exists|c: u32| m.contains_key(c) && m[c] == upstream_stream_id {
                        let c = choose|c: u32| m.contains_key(c) && m[c] == upstream_stream_id;
                        assert(self.reverse_map@.contains_key(m[c]));
                    }
                }
            }
            if client_stream_id != upstream_stream_id {
                set_stream_id(&mut out_header, client_stream_id);
            }
            if self.config.enable_header_redaction && frame_type == FRAME_TYPE_HEADERS {
                redact_stream = Some(client_stream_id);
            }
        }
        self.stats.frames_forwarded = self.stats.frames_forwarded + 1;
        let out_payload = payload.clone();
        assert(out_payload@ == payload@);
        Ok(ForwardAction { send_settings_ack: send_ack, forward: Some((out_header, out_payload)), redact_stream })
    }

    /// The header redactors of one side: those for blocks sent by the client, or by the
    /// upstream.
    pub open spec fn side(&self, from_client: bool) -> Seq<HeaderRedactor> {
        if from_client { self.client_redactors@ } else { self.upstream_redactors@ }
    }

    /// Decodes a HEADERS block that a forward action asked to redact (`redact_stream`) with
    /// the HPACK table of that stream's redactor on the block's side, creating the redactor
    /// on the stream's first block. The caller hands the decoded fields, or the error, to
    /// `finish_redaction` with the redacted values of the sensitive fields.
    pub fn decode_for_redaction(&mut self, from_client: bool, stream_id: u32, block: &Vec<u8>) -> (r: Result<Vec<(String, String)>, String>)
        requires
            old(self).wf(),
        ensures
            final(self).wf(),
            final(self).config == old(self).config,
            final(self).stats == old(self).stats,
            final(self).mapping() == old(self).mapping(),
            final(self).next_id() == old(self).next_id(),
            final(self).side(!from_client) == old(self).side(!from_client),
            has_redactor(final(self).side(from_client), stream_id),
            stream_counters(final(self).side(from_client), stream_id) == stream_counters(old(self).side(from_client), stream_id),
            forall|s: u32| s != stream_id ==> #[trigger] has_redactor(final(self).side(from_client), s) == has_redactor(old(self).side(from_client), s),
            forall|s: u32| s != stream_id ==> #[trigger] stream_table(final(self).side(from_client), s) == stream_table(old(self).side(from_client), s),
            forall|s: u32| s != stream_id ==> #[trigger] stream_counters(final(self).side(from_client), s) == stream_counters(old(self).side(from_client), s),
            ({
                let t = stream_table(old(self).side(from_client), stream_id);
                match block_decode(t.0, t.1, block@, 0, seq![]) {
                    BlockOutcome::Done { headers, entries, max } => r matches Ok(v) && fields_view(v@) == dedup_fields(headers)
                        && stream_table(final(self).side(from_client), stream_id) == (entries, max),
                    BlockOutcome::Fail { failure, entries, max } => r matches Err(m)
                        && m@ == "HPACK decode failed: "@ + failure.text()
                        && stream_table(final(self).side(from_client), stream_id) == (entries, max),
                }
            }),
    {
        if from_client {
            decode_with(&mut self.client_redactors, stream_id, block.as_slice())
        } else {
            decode_with(&mut self.upstream_redactors, stream_id, block.as_slice())
        }
    }

    /// Whether `finish_redaction` may take these fields and values: the counters of the
    /// stream's redactor and of the session have room for them.
    pub fn redaction_has_room(&self, from_client: bool, stream_id: u32, fields: &Vec<(String, String)>, redacted: &Vec<Option<String>>) -> (r: bool)
        requires
            self.wf(),
            redacted@.len() == fields@.len(),
        ensures
            r == redaction_room(self.side(from_client), stream_id, self.stats.headers_redacted, fields@, redacted@),
    {
        let rs = if from_client { &self.client_redactors } else { &self.upstream_redactors };
        let (h, p, b) = match find_redactor(rs, stream_id) {
            Some(i) => {
                proof { lemma_redactor_at(rs@, i as int); }
                (rs[i].headers_redacted, rs[i].patterns_found, rs[i].bytes_redacted)
            },
            None => (0u64, 0u64, 0u64),
        };
        let n = fields.len() as u64;
        let (changed, shortened) = match redaction_counts(fields, redacted) {
            Some(c) => c,
            None => { return false; },
        };
        n <= (u64::MAX - h) / 2 && p <= u64::MAX - n && b <= u64::MAX - shortened
            && self.stats.headers_redacted <= u64::MAX - h && changed <= (u64::MAX - h - self.stats.headers_redacted) / 2
    }

    /// Completes the redaction of a HEADERS frame from `decode_for_redaction`'s result and
    /// the redacted values of its sensitive fields. When the block did not decode, the frame
    /// goes on as it was read. Otherwise the stream's redactor encodes the redacted fields and
    /// counts the redactions, the session adds the redactor's count of redacted headers so
    /// far to its own, and the frame goes on with the new block and its length (as it was
    /// read when the new block does not fit a frame's 24-bit length).
    pub fn finish_redaction(
        &mut self,
        from_client: bool,
        stream_id: u32,
        frame: (Vec<u8>, Vec<u8>),
        decoded: Result<Vec<(String, String)>, String>,
        redacted: Vec<Option<String>>,
    ) -> (r: (Vec<u8>, Vec<u8>))
        requires
            old(self).wf(),
            frame.0@.len() == 9,
            decoded matches Ok(fields) ==> redactions_fit(fields@, redacted@)
                && redaction_room(old(self).side(from_client), stream_id, old(self).stats.headers_redacted, fields@, redacted@),
        ensures
            final(self).wf(),
            final(self).config == old(self).config,
            final(self).mapping() == old(self).mapping(),
            final(self).next_id() == old(self).next_id(),
            final(self).side(!from_client) == old(self).side(!from_client),
            final(self).stats.frames_forwarded == old(self).stats.frames_forwarded,
            final(self).stats.bytes_forwarded == old(self).stats.bytes_forwarded,
            final(self).stats.settings_acks_sent == old(self).stats.settings_acks_sent,
            final(self).stats.stream_mappings_created == old(self).stats.stream_mappings_created,
            stream_table(final(self).side(from_client), stream_id) == stream_table(old(self).side(from_client), stream_id),
            forall|s: u32| s != stream_id ==> #[trigger] has_redactor(final(self).side(from_client), s) == has_redactor(old(self).side(from_client), s),
            forall|s: u32| s != stream_id ==> #[trigger] stream_table(final(self).side(from_client), s) == stream_table(old(self).side(from_client), s),
            forall|s: u32| s != stream_id ==> #[trigger] stream_counters(final(self).side(from_client), s) == stream_counters(old(self).side(from_client), s),
            match decoded {
                Err(_) => r == frame && final(self).side(from_client) == old(self).side(from_client)
                    && final(self).stats.headers_redacted == old(self).stats.headers_redacted,
                Ok(fields) => {
                    let c = stream_counters(old(self).side(from_client), stream_id);
                    let n = changed_count(fields@, redacted@);
                    &&& has_redactor(final(self).side(from_client), stream_id)
                    &&& stream_counters(final(self).side(from_client), stream_id)
                        == (c.0 + 2 * n, c.1 + n, c.2 + shortened_bytes(fields@, redacted@))
                    &&& final(self).stats.headers_redacted == old(self).stats.headers_redacted + c.0 + 2 * n
                    &&& exists|out: Seq<u8>| redacted_block(fields@, redacted@, out)
                        && if out.len() < 0x100_0000 {
                            r.0@ == with_length(frame.0@, out.len()) && r.1@ == out
                        } else {
                            r == frame
                        }
                },
            },
    {
        match decoded {
            Err(_) => frame,
            Ok(fields) => {
                let (out, count) = if from_client {
                    encode_with(&mut self.client_redactors, stream_id, fields, redacted)
                } else {
                    encode_with(&mut self.upstream_redactors, stream_id, fields, redacted)
                };
                self.stats.headers_redacted = self.stats.headers_redacted + count;
                if out.len() < 0x100_0000 {
                    let len = out.len();
                    let (h, _) = frame;
                    let mut header: Vec<u8> = Vec::new();
                    header.push((len / 65536) as u8);
                    header.push(((len / 256) % 256) as u8);
                    header.push((len % 256) as u8);
                    let mut k: usize = 3;
                    while k < 9
                        invariant
                            3 <= k <= 9,
                            h@.len() == 9,
                            header@ == seq![(len / 65536) as u8, ((len / 256) % 256) as u8, (len % 256) as u8] + h@.subrange(3, k as int),
                        decreases 9 - k,
                    {
                        header.push(h[k]);
                        k += 1;
                    }
                    assert(h@.subrange(3, 9) == h@.skip(3));
                    (header, out)
                } else {
                    frame
                }
            },
        }
    }
}

} // verus!
