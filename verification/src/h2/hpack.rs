use vstd::prelude::*;
use vstd::slice::{slice_subrange, slice_to_vec};
use vstd::utf8::{valid_utf8, decode_utf8};
use crate::text::{decimal, push_decimal, string_from_utf8, utf8_error_text};
use crate::h2::header_validation::utf8_len;
use crate::h2::h2_proxy_bridge::{dedup_fields, dedup_headers};
use crate::string_map::{lists_map, texts_fit};
use crate::h2::hpack_encoder::{request_block, method_index, len_byte};
use crate::h2::frame_encoder::{hpack_integer, int_continuation, hpack_string, hpack_literal, hpack_literals, utf8_bytes};
use vstd::arithmetic::power2::{pow2, lemma_pow2_adds, lemma_pow2_pos, lemma_pow2_strictly_increases, lemma2_to64};

verus! {

/// A header field by its characters.
pub type HeaderView = (Seq<char>, Seq<char>);

/// A decoded header list or table by its characters.
pub open spec fn fields_view(s: Seq<(String, String)>) -> Seq<HeaderView> {
    s.map_values(|p: (String, String)| (p.0@, p.1@))
}

/// The RFC 7541 size of an entry: name and value bytes plus 32.
pub open spec fn entry_size(h: HeaderView) -> nat {
    utf8_len(h.0) + utf8_len(h.1) + 32
}

/// The total size of a table's entries.
pub open spec fn table_size(es: Seq<HeaderView>) -> nat
    decreases es.len(),
{
    if es.len() == 0 { 0 } else { table_size(es.drop_last()) + entry_size(es.last()) }
}

/// The entries left after evicting the oldest (last) ones until `need` more bytes fit in `max`.
pub open spec fn evict_until(es: Seq<HeaderView>, need: nat, max: nat) -> Seq<HeaderView>
    decreases es.len(),
{
    if es.len() > 0 && table_size(es) + need > max { evict_until(es.drop_last(), need, max) } else { es }
}

/// The table after inserting `h` at the front, with eviction; an entry larger than the
/// table is not inserted (the table is emptied).
pub open spec fn table_insert(es: Seq<HeaderView>, h: HeaderView, max: nat) -> Seq<HeaderView> {
    let e = evict_until(es, entry_size(h), max);
    if entry_size(h) <= max { seq![h] + e } else { e }
}

/// Making room for more than the whole limit evicts every entry.
pub proof fn lemma_evict_all(es: Seq<HeaderView>, need: nat, max: nat)
    requires
        need > max,
    ensures
        evict_until(es, need, max) == Seq::<HeaderView>::empty(),
    decreases es.len(),
{
    if es.len() > 0 {
        lemma_evict_all(es.drop_last(), need, max);
    }
}

/// Evicting keeps a prefix whose size respects the limit (or nothing).
pub proof fn lemma_evict_until(es: Seq<HeaderView>, need: nat, max: nat)
    ensures
        evict_until(es, need, max).len() <= es.len(),
        evict_until(es, need, max) == es.take(evict_until(es, need, max).len() as int),
        evict_until(es, need, max).len() == 0 || table_size(evict_until(es, need, max)) + need <= max,
        table_size(evict_until(es, need, max)) <= table_size(es),
    decreases es.len(),
{
    if es.len() > 0 && table_size(es) + need > max {
        lemma_evict_until(es.drop_last(), need, max);
        let e = evict_until(es.drop_last(), need, max);
        assert(es.drop_last().take(e.len() as int) =~= es.take(e.len() as int));
    } else {
        assert(es.take(es.len() as int) =~= es);
    }
}

/// An HPACK dynamic table: newest entry first.
pub struct HpackDynamicTable {
    pub entries: Vec<(String, String)>,
    pub max_size: usize,
    pub current_size: usize,
}

impl HpackDynamicTable {
    /// The table's invariant: `current_size` is the size of its entries and within the limit.
    pub open spec fn wf(&self) -> bool {
        &&& self.current_size == table_size(fields_view(self.entries@))
        &&& self.current_size <= self.max_size
    }

    /// An empty table with the given limit.
    pub fn new(max_size: usize) -> (t: Self)
        ensures
            t.wf(),
            t.entries@.len() == 0,
            t.max_size == max_size,
            t.current_size == 0,
    {
        let t = HpackDynamicTable { entries: Vec::new(), max_size, current_size: 0 };
        assert(fields_view(t.entries@) =~= Seq::<HeaderView>::empty());
        t
    }

    fn evict(&mut self, need: usize)
        requires
            old(self).current_size == table_size(fields_view(old(self).entries@)),
            need <= old(self).max_size,
        ensures
            final(self).entries@.len() == 0 || final(self).current_size + need <= final(self).max_size,
            final(self).max_size == old(self).max_size,
            fields_view(final(self).entries@)
                == evict_until(fields_view(old(self).entries@), need as nat, old(self).max_size as nat),
            final(self).current_size == table_size(fields_view(final(self).entries@)),
            final(self).current_size <= old(self).current_size,
    {
        proof { lemma_evict_until(fields_view(self.entries@), need as nat, self.max_size as nat); }
        while self.current_size > self.max_size - need && self.entries.len() > 0
            invariant
                self.max_size == old(self).max_size,
                self.current_size == table_size(fields_view(self.entries@)),
                self.current_size <= old(self).current_size,
                need <= self.max_size,
                evict_until(fields_view(self.entries@), need as nat, self.max_size as nat)
                    == evict_until(fields_view(old(self).entries@), need as nat, old(self).max_size as nat),
            decreases self.entries@.len(),
        {
            let ghost before = fields_view(self.entries@);
            let popped = self.entries.pop();
            assert(fields_view(self.entries@) =~= before.drop_last());
            match popped {
                Some((n, v)) => {
                    assert((n@, v@) == before.last());
                    self.current_size = self.current_size - (n.as_str().len() + v.as_str().len() + 32);
                },
                None => {},
            }
        }
    }

    /// Inserts an entry at the front, evicting the oldest entries as needed; an entry larger
    /// than the whole table is not inserted, and empties the table.
    pub fn insert(&mut self, name: String, value: String)
        requires
            old(self).wf(),
        ensures
            final(self).wf(),
            final(self).max_size == old(self).max_size,
            fields_view(final(self).entries@)
                == table_insert(fields_view(old(self).entries@), (name@, value@), old(self).max_size as nat),
    {
        let nl = name.as_str().len();
        let vl = value.as_str().len();
        if nl > self.max_size || vl > self.max_size - nl || 32 > self.max_size - nl - vl {
            proof { lemma_evict_all(fields_view(self.entries@), entry_size((name@, value@)), self.max_size as nat); }
            self.entries.clear();
            self.current_size = 0;
            assert(fields_view(self.entries@) =~= Seq::<HeaderView>::empty());
            return;
        }
        let entry_size = nl + vl + 32;
        self.evict(entry_size);
        proof { lemma_evict_until(fields_view(old(self).entries@), entry_size as nat, self.max_size as nat); }
        self.current_size = self.current_size + entry_size;
        let ghost before = self.entries@;
        self.entries.insert(0, (name, value));
        assert(fields_view(self.entries@) =~= seq![(name@, value@)] + fields_view(before));
        proof { lemma_table_size_prepend((name@, value@), fields_view(before)); }
    }

    /// The entry at 1-based `index`, if any.
    pub fn get(&self, index: usize) -> (r: Option<(String, String)>)
        ensures
            (index > 0 && index <= self.entries@.len()) ==> (r matches Some(p)
                && (p.0@, p.1@) == fields_view(self.entries@)[index - 1]),
            !(index > 0 && index <= self.entries@.len()) ==> r is None,
    {
        if index > 0 && index <= self.entries.len() {
            let (n, v) = &self.entries[index - 1];
            Some((n.clone(), v.clone()))
        } else {
            None
        }
    }

    /// Sets the limit and evicts the oldest entries until the table fits.
    pub fn set_max_size(&mut self, new_size: usize)
        requires
            old(self).wf(),
        ensures
            final(self).wf(),
            final(self).max_size == new_size,
            fields_view(final(self).entries@) == evict_until(fields_view(old(self).entries@), 0, new_size as nat),
    {
        self.max_size = new_size;
        proof { lemma_evict_until(fields_view(self.entries@), 0, new_size as nat); }
        self.evict(0);
        if self.entries.len() == 0 {
            assert(fields_view(self.entries@) =~= Seq::<HeaderView>::empty());
        }
    }
}

/// The size of a table with an entry prepended.
pub proof fn lemma_table_size_prepend(h: HeaderView, es: Seq<HeaderView>)
    ensures
        table_size(seq![h] + es) == entry_size(h) + table_size(es),
    decreases es.len(),
{
    if es.len() > 0 {
        assert((seq![h] + es).drop_last() =~= seq![h] + es.drop_last());
        assert((seq![h] + es).last() == es.last());
        lemma_table_size_prepend(h, es.drop_last());
    } else {
        assert((seq![h] + es).drop_last() =~= Seq::<HeaderView>::empty());
        assert((seq![h] + es).last() == h);
        assert(table_size(Seq::<HeaderView>::empty()) == 0);
    }
}

/// Entry `i` (0-based) of the HPACK static table (RFC 7541, Appendix A).
pub open spec fn static_entry(i: int) -> (Seq<char>, Seq<char>) {
    if i == 0 { (":authority"@, ""@) }
    else if i == 1 { (":method"@, "GET"@) }
    else if i == 2 { (":method"@, "POST"@) }
    else if i == 3 { (":path"@, "/"@) }
    else if i == 4 { (":path"@, "/index.html"@) }
    else if i == 5 { (":scheme"@, "http"@) }
    else if i == 6 { (":scheme"@, "https"@) }
    else if i == 7 { (":status"@, "200"@) }
    else if i == 8 { (":status"@, "204"@) }
    else if i == 9 { (":status"@, "206"@) }
    else if i == 10 { (":status"@, "304"@) }
    else if i == 11 { (":status"@, "400"@) }
    else if i == 12 { (":status"@, "404"@) }
    else if i == 13 { (":status"@, "500"@) }
    else if i == 14 { ("accept-charset"@, ""@) }
    else if i == 15 { ("accept-encoding"@, "gzip, deflate"@) }
    else if i == 16 { ("accept-language"@, ""@) }
    else if i == 17 { ("accept-ranges"@, ""@) }
    else if i == 18 { ("accept"@, ""@) }
    else if i == 19 { ("access-control-allow-origin"@, ""@) }
    else if i == 20 { ("age"@, ""@) }
    else if i == 21 { ("allow"@, ""@) }
    else if i == 22 { ("authorization"@, ""@) }
    else if i == 23 { ("cache-control"@, ""@) }
    else if i == 24 { ("content-disposition"@, ""@) }
    else if i == 25 { ("content-encoding"@, ""@) }
    else if i == 26 { ("content-language"@, ""@) }
    else if i == 27 { ("content-length"@, ""@) }
    else if i == 28 { ("content-location"@, ""@) }
    else if i == 29 { ("content-range"@, ""@) }
    else if i == 30 { ("content-type"@, ""@) }
    else if i == 31 { ("cookie"@, ""@) }
    else if i == 32 { ("date"@, ""@) }
    else if i == 33 { ("etag"@, ""@) }
    else if i == 34 { ("expect"@, ""@) }
    else if i == 35 { ("expires"@, ""@) }
    else if i == 36 { ("from"@, ""@) }
    else if i == 37 { ("host"@, ""@) }
    else if i == 38 { ("if-match"@, ""@) }
    else if i == 39 { ("if-modified-since"@, ""@) }
    else if i == 40 { ("if-none-match"@, ""@) }
    else if i == 41 { ("if-range"@, ""@) }
    else if i == 42 { ("if-unmodified-since"@, ""@) }
    else if i == 43 { ("last-modified"@, ""@) }
    else if i == 44 { ("link"@, ""@) }
    else if i == 45 { ("location"@, ""@) }
    else if i == 46 { ("max-forwards"@, ""@) }
    else if i == 47 { ("proxy-authenticate"@, ""@) }
    else if i == 48 { ("proxy-authorization"@, ""@) }
    else if i == 49 { ("range"@, ""@) }
    else if i == 50 { ("referer"@, ""@) }
    else if i == 51 { ("refresh"@, ""@) }
    else if i == 52 { ("retry-after"@, ""@) }
    else if i == 53 { ("server"@, ""@) }
    else if i == 54 { ("set-cookie"@, ""@) }
    else if i == 55 { ("strict-transport-security"@, ""@) }
    else if i == 56 { ("transfer-encoding"@, ""@) }
    else if i == 57 { ("user-agent"@, ""@) }
    else if i == 58 { ("vary"@, ""@) }
    else if i == 59 { ("via"@, ""@) }
    else { ("www-authenticate"@, ""@) }
}

fn static_entry_exec(i: usize) -> (r: (&'static str, &'static str))
    requires
        i < 61,
    ensures
        r.0@ == static_entry(i as int).0 && r.1@ == static_entry(i as int).1,
{
    match i {
        0 => (":authority", ""),
        1 => (":method", "GET"),
        2 => (":method", "POST"),
        3 => (":path", "/"),
        4 => (":path", "/index.html"),
        5 => (":scheme", "http"),
        6 => (":scheme", "https"),
        7 => (":status", "200"),
        8 => (":status", "204"),
        9 => (":status", "206"),
        10 => (":status", "304"),
        11 => (":status", "400"),
        12 => (":status", "404"),
        13 => (":status", "500"),
        14 => ("accept-charset", ""),
        15 => ("accept-encoding", "gzip, deflate"),
        16 => ("accept-language", ""),
        17 => ("accept-ranges", ""),
        18 => ("accept", ""),
        19 => ("access-control-allow-origin", ""),
        20 => ("age", ""),
        21 => ("allow", ""),
        22 => ("authorization", ""),
        23 => ("cache-control", ""),
        24 => ("content-disposition", ""),
        25 => ("content-encoding", ""),
        26 => ("content-language", ""),
        27 => ("content-length", ""),
        28 => ("content-location", ""),
        29 => ("content-range", ""),
        30 => ("content-type", ""),
        31 => ("cookie", ""),
        32 => ("date", ""),
        33 => ("etag", ""),
        34 => ("expect", ""),
        35 => ("expires", ""),
        36 => ("from", ""),
        37 => ("host", ""),
        38 => ("if-match", ""),
        39 => ("if-modified-since", ""),
        40 => ("if-none-match", ""),
        41 => ("if-range", ""),
        42 => ("if-unmodified-since", ""),
        43 => ("last-modified", ""),
        44 => ("link", ""),
        45 => ("location", ""),
        46 => ("max-forwards", ""),
        47 => ("proxy-authenticate", ""),
        48 => ("proxy-authorization", ""),
        49 => ("range", ""),
        50 => ("referer", ""),
        51 => ("refresh", ""),
        52 => ("retry-after", ""),
        53 => ("server", ""),
        54 => ("set-cookie", ""),
        55 => ("strict-transport-security", ""),
        56 => ("transfer-encoding", ""),
        57 => ("user-agent", ""),
        58 => ("vary", ""),
        59 => ("via", ""),
        _ => ("www-authenticate", ""),
    }
}

/// Why a header block could not be decoded.
pub enum DecodeFailure {
    IntegerTruncated,
    IntegerIncomplete,
    IntegerOverflow,
    StringTruncated,
    StringPastEnd,
    InvalidUtf8(Seq<u8>),
    UnknownIndex(u64),
    InvalidField(u8),
}

impl DecodeFailure {
    /// The message the decoder reports for this failure.
    pub open spec fn text(self) -> Seq<char> {
        match self {
            DecodeFailure::IntegerTruncated => "Not enough data to decode integer"@,
            DecodeFailure::IntegerIncomplete => "Incomplete integer encoding"@,
            DecodeFailure::IntegerOverflow => "Integer overflow"@,
            DecodeFailure::StringTruncated => "Not enough data to decode string"@,
            DecodeFailure::StringPastEnd => "String extends past data boundary"@,
            DecodeFailure::InvalidUtf8(bytes) => utf8_error_text(bytes),
            DecodeFailure::UnknownIndex(i) => "Unknown header index: "@ + decimal(i as nat),
            DecodeFailure::InvalidField(b) => "Invalid HPACK header field: "@ + decimal(b as nat),
        }
    }
}

/// The result of reading one item from a byte position: the item and the position after
/// it, or a failure.
pub enum Decoded<T> {
    Value(T, int),
    Error(DecodeFailure),
}

/// The mask of an integer prefix of `bits` bits.
pub open spec fn prefix_mask(bits: u8) -> u8 {
    ((1u8 << bits) - 1) as u8
}

/// The continuation bytes of an HPACK integer (RFC 7541, Section 5.1), read from `pos`
/// with the value so far and the current shift. The value saturates at `u64::MAX`; a
/// continuation once the shift has passed 64 bits is refused.
pub open spec fn int_continue(data: Seq<u8>, pos: int, value: u64, shift: u64) -> Result<(u64, int), DecodeFailure>
    decreases data.len() - pos,
{
    if pos < 0 || pos >= data.len() {
        Err(DecodeFailure::IntegerIncomplete)
    } else {
        let byte = data[pos] as u64;
        let v = value.saturating_add((byte & 0x7f) << shift);
        if byte & 0x80 == 0 {
            Ok((v, pos + 1))
        } else if shift + 7 > 64 {
            Err(DecodeFailure::IntegerOverflow)
        } else {
            int_continue(data, pos + 1, v, (shift + 7) as u64)
        }
    }
}

/// The HPACK integer with a `prefix_bits`-bit prefix at `pos`, and the position after it.
pub open spec fn int_decode(data: Seq<u8>, pos: int, prefix_bits: u8) -> Result<(u64, int), DecodeFailure> {
    if pos < 0 || pos >= data.len() {
        Err(DecodeFailure::IntegerTruncated)
    } else {
        let mask = prefix_mask(prefix_bits);
        let value = (data[pos] & mask) as u64;
        if value < mask as u64 {
            Ok((value, pos + 1))
        } else {
            int_continue(data, pos + 1, value, 0)
        }
    }
}

/// The HPACK string literal at `pos` (RFC 7541, Section 5.2). A Huffman-coded string is
/// taken as UTF-8 where it is valid and otherwise replaced by a placeholder.
pub open spec fn string_decode(data: Seq<u8>, pos: int) -> Decoded<Seq<char>> {
    if pos < 0 || pos >= data.len() {
        Decoded::Error(DecodeFailure::StringTruncated)
    } else {
        let huffman = data[pos] & 0x80 != 0;
        match int_decode(data, pos, 7) {
            Err(e) => Decoded::Error(e),
            Ok((length, p)) => {
                let n = length as int;
                if p + n > data.len() {
                    Decoded::Error(DecodeFailure::StringPastEnd)
                } else {
                    let bytes = data.subrange(p, p + n);
                    if valid_utf8(bytes) {
                        Decoded::Value(decode_utf8(bytes), p + n)
                    } else if huffman {
                        Decoded::Value("[huffman-encoded-data]"@, p + n)
                    } else {
                        Decoded::Error(DecodeFailure::InvalidUtf8(bytes))
                    }
                }
            },
        }
    }
}

/// The header at 1-based `index` in the RFC 7541 index space: indices 1 to 61 are the
/// static table's, the dynamic table's entries (newest first) follow from 62.
pub open spec fn lookup_spec(dynamic: Seq<HeaderView>, index: int) -> Option<HeaderView> {
    if 1 <= index <= 61 {
        Some(static_entry(index - 1))
    } else if 62 <= index < 62 + dynamic.len() {
        Some(dynamic[index - 62])
    } else {
        None
    }
}

/// The name and value of a literal field whose prefix integer is `index`, read from `pos`:
/// index 0 means a literal name, any other index names a table entry.
pub open spec fn literal_decode(dynamic: Seq<HeaderView>, data: Seq<u8>, index: u64, pos: int) -> Decoded<HeaderView> {
    let name: Decoded<Seq<char>> = if index == 0 {
        string_decode(data, pos)
    } else {
        match lookup_spec(dynamic, index as int) {
            Some(h) => Decoded::Value(h.0, pos),
            None => Decoded::Error(DecodeFailure::UnknownIndex(index)),
        }
    };
    match name {
        Decoded::Value(n, p) => match string_decode(data, p) {
            Decoded::Value(v, q) => Decoded::Value((n, v), q),
            Decoded::Error(e) => Decoded::Error(e),
        },
        Decoded::Error(e) => Decoded::Error(e),
    }
}

/// The effect of decoding one header field representation (RFC 7541, Section 6).
pub enum FieldStep {
    Next { entries: Seq<HeaderView>, max: nat, emitted: Option<HeaderView>, pos: int },
    Fail(DecodeFailure),
}

/// A literal field that is emitted, and added to the dynamic table when `index` is set.
pub open spec fn literal_step(
    entries: Seq<HeaderView>,
    max: nat,
    data: Seq<u8>,
    pos: int,
    prefix_bits: u8,
    index: bool,
) -> FieldStep {
    match int_decode(data, pos, prefix_bits) {
        Err(e) => FieldStep::Fail(e),
        Ok((i, p)) => match literal_decode(entries, data, i, p) {
            Decoded::Value(h, q) => if !index {
                FieldStep::Next { entries, max, emitted: Some(h), pos: q }
            } else {
                FieldStep::Next { entries: table_insert(entries, h, max), max, emitted: Some(h), pos: q }
            },
            Decoded::Error(e) => FieldStep::Fail(e),
        },
    }
}

/// Decoding the field representation at `pos`, given the dynamic table's entries and limit.
#[verifier::opaque]
pub open spec fn field_step(entries: Seq<HeaderView>, max: nat, data: Seq<u8>, pos: int) -> FieldStep {
    let b = data[pos];
    if b & 0x80 != 0 {
        match int_decode(data, pos, 7) {
            Err(e) => FieldStep::Fail(e),
            Ok((i, p)) => if i == 0 {
                FieldStep::Fail(DecodeFailure::UnknownIndex(0))
            } else {
                FieldStep::Next { entries, max, emitted: lookup_spec(entries, i as int), pos: p }
            },
        }
    } else if b & 0xc0 == 0x40 {
        literal_step(entries, max, data, pos, 6, true)
    } else if b & 0xf0 == 0x00 || b & 0xf0 == 0x10 {
        literal_step(entries, max, data, pos, 4, false)
    } else if b & 0xe0 == 0x20 {
        match int_decode(data, pos, 5) {
            Err(e) => FieldStep::Fail(e),
            Ok((s, p)) => FieldStep::Next {
                entries: evict_until(entries, 0, (s as usize) as nat),
                max: (s as usize) as nat,
                emitted: None,
                pos: p,
            },
        }
    } else {
        FieldStep::Fail(DecodeFailure::InvalidField(b))
    }
}

/// The outcome of decoding a whole header block.
pub enum BlockOutcome {
    Done { headers: Seq<HeaderView>, entries: Seq<HeaderView>, max: nat },
    Fail { failure: DecodeFailure, entries: Seq<HeaderView>, max: nat },
}

/// Decoding the fields from `pos` to the end, with the headers emitted so far in `acc`.
/// A failure leaves the table as it was before the failing field.
pub open spec fn block_decode(entries: Seq<HeaderView>, max: nat, data: Seq<u8>, pos: int, acc: Seq<HeaderView>) -> BlockOutcome
    decreases data.len() - pos,
{
    if pos < 0 || pos >= data.len() {
        BlockOutcome::Done { headers: acc, entries, max }
    } else {
        match field_step(entries, max, data, pos) {
            FieldStep::Fail(e) => BlockOutcome::Fail { failure: e, entries, max },
            FieldStep::Next { entries: e2, max: m2, emitted, pos: p2 } => {
                let acc2 = match emitted {
                    Some(h) => acc.push(h),
                    None => acc,
                };
                proof { lemma_field_step_advances(entries, max, data, pos); }
                block_decode(e2, m2, data, p2, acc2)
            },
        }
    }
}

/// Reading continuation bytes moves forward and stays within the data.
pub proof fn lemma_int_continue_advances(data: Seq<u8>, pos: int, value: u64, shift: u64)
    ensures
        int_continue(data, pos, value, shift) matches Ok((v, p)) ==> pos < p <= data.len(),
    decreases data.len() - pos,
{
    if 0 <= pos < data.len() {
        let byte = data[pos] as u64;
        let v = value.saturating_add((byte & 0x7f) << shift);
        if byte & 0x80 != 0 && shift + 7 <= 64 {
            lemma_int_continue_advances(data, pos + 1, v, (shift + 7) as u64);
        }
    }
}

/// Reading an integer moves forward and stays within the data.
pub proof fn lemma_int_decode_advances(data: Seq<u8>, pos: int, prefix_bits: u8)
    ensures
        int_decode(data, pos, prefix_bits) matches Ok((v, p)) ==> pos < p <= data.len(),
{
    if 0 <= pos < data.len() {
        let mask = prefix_mask(prefix_bits);
        lemma_int_continue_advances(data, pos + 1, (data[pos] & mask) as u64, 0);
    }
}

/// Reading a string moves forward and stays within the data.
pub proof fn lemma_string_decode_advances(data: Seq<u8>, pos: int)
    ensures
        string_decode(data, pos) matches Decoded::Value(s, p) ==> pos < p <= data.len(),
{
    lemma_int_decode_advances(data, pos, 7);
}

/// Decoding a field moves forward and stays within the data.
pub proof fn lemma_field_step_advances(entries: Seq<HeaderView>, max: nat, data: Seq<u8>, pos: int)
    ensures
        field_step(entries, max, data, pos) matches FieldStep::Next { pos: p, .. } ==> pos < p <= data.len(),
{
    reveal(field_step);
    lemma_int_decode_advances(data, pos, 7);
    lemma_int_decode_advances(data, pos, 6);
    lemma_int_decode_advances(data, pos, 5);
    lemma_int_decode_advances(data, pos, 4);
    if let Ok((i, p)) = int_decode(data, pos, 6) {
        lemma_string_decode_advances(data, p);
        if let Decoded::Value(n, q) = string_decode(data, p) {
            lemma_string_decode_advances(data, q);
        }
    }
    if let Ok((i, p)) = int_decode(data, pos, 4) {
        lemma_string_decode_advances(data, p);
        if let Decoded::Value(n, q) = string_decode(data, p) {
            lemma_string_decode_advances(data, q);
        }
    }
}

/// How a reported integer result matches its specification.
pub open spec fn int_outcome(r: Result<(u64, usize), String>, s: Result<(u64, int), DecodeFailure>) -> bool {
    match s {
        Ok((v, p)) => r matches Ok((rv, rp)) && rv == v && rp == p,
        Err(e) => r matches Err(m) && m@ == e.text(),
    }
}

/// How a reported string result matches its specification.
pub open spec fn string_outcome(r: Result<(String, usize), String>, s: Decoded<Seq<char>>) -> bool {
    match s {
        Decoded::Value(v, p) => r matches Ok((rv, rp)) && rv@ == v && rp == p,
        Decoded::Error(e) => r matches Err(m) && m@ == e.text(),
    }
}

/// How a reported literal field matches its specification.
pub open spec fn literal_outcome(r: Result<((String, String), usize), String>, s: Decoded<HeaderView>) -> bool {
    match s {
        Decoded::Value(h, p) => r matches Ok((rv, rp)) && (rv.0@, rv.1@) == h && rp == p,
        Decoded::Error(e) => r matches Err(m) && m@ == e.text(),
    }
}

/// A header-block decoder with its own dynamic table.
pub struct HpackDecoder {
    pub dynamic_table: HpackDynamicTable,
}

impl HpackDecoder {
    /// The decoder's invariant: that of its table.
    pub open spec fn wf(&self) -> bool {
        self.dynamic_table.wf()
    }

    /// The dynamic table's entries, newest first.
    pub open spec fn entries(&self) -> Seq<HeaderView> {
        fields_view(self.dynamic_table.entries@)
    }

    /// The dynamic table's limit.
    pub open spec fn max(&self) -> nat {
        self.dynamic_table.max_size as nat
    }

    /// A decoder with an empty table of 4096 bytes.
    pub fn new() -> (d: Self)
        ensures
            d.wf(),
            d.entries().len() == 0,
            d.dynamic_table.max_size == 4096,
            d.dynamic_table.current_size == 0,
    {
        HpackDecoder { dynamic_table: HpackDynamicTable::new(4096) }
    }

    /// Decodes a header block into its headers, one per name (the value the block gives last,
    /// at the place where the name first appears), updating the dynamic table as the block
    /// directs.
    pub fn decode(&mut self, data: &[u8]) -> (r: Result<Vec<(String, String)>, String>)
        requires
            old(self).wf(),
        ensures
            final(self).wf(),
            match block_decode(old(self).entries(), old(self).max(), data@, 0, seq![]) {
                BlockOutcome::Done { headers, entries, max } => r matches Ok(v)
                    && fields_view(v@) == dedup_fields(headers) && final(self).entries() == entries && final(self).max() == max,
                BlockOutcome::Fail { failure, entries, max } => r matches Err(m)
                    && m@ == failure.text() && final(self).entries() == entries && final(self).max() == max,
            },
    {
        let mut headers: Vec<(String, String)> = Vec::new();
        let mut pos: usize = 0;
        assert(fields_view(headers@) =~= Seq::<HeaderView>::empty());
        while pos < data.len()
            invariant
                self.wf(),
                pos <= data.len(),
                block_decode(self.entries(), self.max(), data@, pos as int, fields_view(headers@))
                    == block_decode(old(self).entries(), old(self).max(), data@, 0, seq![]),
            decreases data.len() - pos,
        {
            let ghost acc = fields_view(headers@);
            let ghost step = field_step(self.entries(), self.max(), data@, pos as int);
            proof { lemma_field_step_advances(self.entries(), self.max(), data@, pos as int); }
            assert(block_decode(self.entries(), self.max(), data@, pos as int, acc) == match step {
                FieldStep::Fail(e) => BlockOutcome::Fail { failure: e, entries: self.entries(), max: self.max() },
                FieldStep::Next { entries: e2, max: m2, emitted, pos: p2 } => block_decode(e2, m2, data@, p2,
                    match emitted { Some(h) => acc.push(h), None => acc }),
            });
            match self.decode_header_field(data, pos, &mut headers) {
                Ok(p) => { pos = p; },
                Err(e) => { return Err(e); },
            }
        }
        Ok(dedup_headers(headers))
    }

    /// Decodes the field representation at `pos`, appending what it emits to `headers`.
    fn decode_header_field(&mut self, data: &[u8], pos: usize, headers: &mut Vec<(String, String)>) -> (r: Result<usize, String>)
        requires
            old(self).wf(),
            pos < data.len(),
        ensures
            final(self).wf(),
            match field_step(old(self).entries(), old(self).max(), data@, pos as int) {
                FieldStep::Next { entries, max, emitted, pos: p } => r matches Ok(q) && q == p
                    && final(self).entries() == entries && final(self).max() == max
                    && fields_view(final(headers)@) == match emitted {
                        Some(h) => fields_view(old(headers)@).push(h),
                        None => fields_view(old(headers)@),
                    },
                FieldStep::Fail(e) => r matches Err(m) && m@ == e.text()
                    && final(self).entries() == old(self).entries() && final(self).max() == old(self).max(),
            },
    {
        proof { reveal(field_step); }
        let first_byte = data[pos];
        if first_byte & 0x80 != 0 {
            let (index, new_pos) = match self.decode_integer(data, pos, 7) {
                Ok(x) => x,
                Err(e) => { return Err(e); },
            };
            if index == 0 {
                let mut msg = String::from_str("Unknown header index: ");
                push_decimal(&mut msg, index);
                return Err(msg);
            }
            match self.lookup_index(index) {
                Some((name, value)) => {
                    let ghost before = headers@;
                    headers.push((name, value));
                    assert(fields_view(headers@) =~= fields_view(before).push((name@, value@)));
                },
                None => {},
            }
            return Ok(new_pos);
        }
        if first_byte & 0xc0 == 0x40 {
            let (index, new_pos) = match self.decode_integer(data, pos, 6) {
                Ok(x) => x,
                Err(e) => { return Err(e); },
            };
            let ((name, value), new_pos) = match self.decode_literal(data, index, new_pos) {
                Ok(x) => x,
                Err(e) => { return Err(e); },
            };
            self.dynamic_table.insert(name.clone(), value.clone());
            let ghost before = headers@;
            headers.push((name, value));
            assert(fields_view(headers@) =~= fields_view(before).push((name@, value@)));
            return Ok(new_pos);
        }
        if first_byte & 0xf0 == 0x00 || first_byte & 0xf0 == 0x10 {
            let (index, new_pos) = match self.decode_integer(data, pos, 4) {
                Ok(x) => x,
                Err(e) => { return Err(e); },
            };
            let ((name, value), new_pos) = match self.decode_literal(data, index, new_pos) {
                Ok(x) => x,
                Err(e) => { return Err(e); },
            };
            let ghost before = headers@;
            headers.push((name, value));
            assert(fields_view(headers@) =~= fields_view(before).push((name@, value@)));
            return Ok(new_pos);
        }
        if first_byte & 0xe0 == 0x20 {
            let (new_size, new_pos) = match self.decode_integer(data, pos, 5) {
                Ok(x) => x,
                Err(e) => { return Err(e); },
            };
            self.dynamic_table.set_max_size(new_size as usize);
            return Ok(new_pos);
        }
        let mut msg = String::from_str("Invalid HPACK header field: ");
        push_decimal(&mut msg, first_byte as u64);
        Err(msg)
    }

    /// Reads the name and value of a literal field whose prefix integer is `index`.
    fn decode_literal(&self, data: &[u8], index: u64, pos: usize) -> (r: Result<((String, String), usize), String>)
        ensures
            literal_outcome(r, literal_decode(self.entries(), data@, index, pos as int)),
    {
        let (name, new_pos) = if index == 0 {
            match self.decode_string(data, pos) {
                Ok(x) => x,
                Err(e) => { return Err(e); },
            }
        } else {
            match self.lookup_index(index) {
                Some((n, _)) => (n, pos),
                None => {
                    let mut msg = String::from_str("Unknown header index: ");
                    push_decimal(&mut msg, index);
                    return Err(msg);
                },
            }
        };
        let (value, new_pos) = match self.decode_string(data, new_pos) {
            Ok(x) => x,
            Err(e) => { return Err(e); },
        };
        Ok(((name, value), new_pos))
    }

    /// The header at 1-based `index` in the RFC 7541 index space (see `lookup_spec`).
    pub fn lookup_header(&self, index: usize) -> (r: Option<(String, String)>)
        ensures
            match lookup_spec(self.entries(), index as int) {
                Some(h) => r matches Some(p) && (p.0@, p.1@) == h,
                None => r is None,
            },
    {
        self.lookup_index(index as u64)
    }

    fn lookup_index(&self, index: u64) -> (r: Option<(String, String)>)
        ensures
            match lookup_spec(self.entries(), index as int) {
                Some(h) => r matches Some(p) && (p.0@, p.1@) == h,
                None => r is None,
            },
    {
        if index == 0 {
            return None;
        }
        if index <= 61 {
            let (name, value) = static_entry_exec((index - 1) as usize);
            return Some((name.to_owned(), value.to_owned()));
        }
        let n = self.dynamic_table.entries.len();
        let d = index - 62;
        if d < n as u64 {
            self.dynamic_table.get((d + 1) as usize)
        } else {
            None
        }
    }

    /// Reads an HPACK integer with a `prefix_bits`-bit prefix at `pos` (RFC 7541, Section 5.1).
    pub fn decode_integer(&self, data: &[u8], pos: usize, prefix_bits: u8) -> (r: Result<(u64, usize), String>)
        requires
            prefix_bits < 8,
        ensures
            int_outcome(r, int_decode(data@, pos as int, prefix_bits)),
    {
        if pos >= data.len() {
            return Err(String::from_str("Not enough data to decode integer"));
        }
        assert((1u8 << prefix_bits) >= 1) by (bit_vector)
            requires prefix_bits < 8;
        let prefix_mask: u8 = (1u8 << prefix_bits) - 1;
        let mut value: u64 = (data[pos] & prefix_mask) as u64;
        let mut next = pos + 1;
        if value < prefix_mask as u64 {
            return Ok((value, next));
        }
        let mut m: u64 = 0;
        loop
            invariant
                next <= data.len(),
                m % 7 == 0,
                m <= 63,
                int_decode(data@, pos as int, prefix_bits) == int_continue(data@, next as int, value, m),
            decreases data.len() - next,
        {
            if next >= data.len() {
                return Err(String::from_str("Incomplete integer encoding"));
            }
            let byte = data[next] as u64;
            let ghost (p0, v0, m0) = (next as int, value, m);
            assert(int_continue(data@, p0, v0, m0) == {
                let v = v0.saturating_add((byte & 0x7f) << m0);
                if byte & 0x80 == 0 {
                    Ok((v, p0 + 1))
                } else if m0 + 7 > 64 {
                    Err(DecodeFailure::IntegerOverflow)
                } else {
                    int_continue(data@, p0 + 1, v, (m0 + 7) as u64)
                }
            });
            next += 1;
            value = value.saturating_add((byte & 0x7f) << m);
            m += 7;
            if byte & 0x80 == 0 {
                return Ok((value, next));
            }
            if m > 64 {
                return Err(String::from_str("Integer overflow"));
            }
        }
    }

    /// Reads an HPACK string literal at `pos` (RFC 7541, Section 5.2).
    pub fn decode_string(&self, data: &[u8], pos: usize) -> (r: Result<(String, usize), String>)
        ensures
            string_outcome(r, string_decode(data@, pos as int)),
    {
        if pos >= data.len() {
            return Err(String::from_str("Not enough data to decode string"));
        }
        let ghost p0 = pos as int;
        proof { lemma_int_decode_advances(data@, p0, 7); }
        let huffman_encoded = data[pos] & 0x80 != 0;
        let (length, pos) = match self.decode_integer(data, pos, 7) {
            Ok(x) => x,
            Err(e) => { return Err(e); },
        };
        if length > (data.len() - pos) as u64 {
            return Err(String::from_str("String extends past data boundary"));
        }
        let length = length as usize;
        let string_data = slice_subrange(data, pos, pos + length);
        let pos = pos + length;
        if huffman_encoded {
            Ok((decode_huffman_string(string_data), pos))
        } else {
            match string_from_utf8(slice_to_vec(string_data)) {
                Ok(s) => Ok((s, pos)),
                Err(e) => Err(e),
            }
        }
    }
}

impl Default for HpackDecoder {
    fn default() -> (d: Self)
        ensures
            d.wf(),
            d.entries().len() == 0,
            d.dynamic_table.max_size == 4096,
    {
        Self::new()
    }
}

/// A Huffman-coded string: its bytes as UTF-8 where they are valid, else a placeholder.
pub fn decode_huffman_string(data: &[u8]) -> (s: String)
    ensures
        s@ == if valid_utf8(data@) { decode_utf8(data@) } else { "[huffman-encoded-data]"@ },
{
    match string_from_utf8(slice_to_vec(data)) {
        Ok(s) => s,
        Err(_) => String::from_str("[huffman-encoded-data]"),
    }
}

/// Inserting an entry that fits in the table makes it the newest entry (index 1), ahead of
/// the entries kept: the longest newest-first run of the old entries that fits beside it,
/// in their order.
pub proof fn lemma_insert_then_newest(es: Seq<HeaderView>, h: HeaderView, max: nat)
    requires
        entry_size(h) <= max,
    ensures
        table_insert(es, h, max).len() >= 1,
        table_insert(es, h, max)[0] == h,
        table_insert(es, h, max).drop_first() == es.take(table_insert(es, h, max).len() - 1),
        table_size(table_insert(es, h, max)) <= max,
        forall|n: int| table_insert(es, h, max).len() - 1 < n <= es.len()
            ==> #[trigger] table_size(es.take(n)) + entry_size(h) > max,
{
    let e = evict_until(es, entry_size(h), max);
    lemma_evict_until(es, entry_size(h), max);
    lemma_evict_longest(es, entry_size(h), max);
    lemma_table_size_prepend(h, e);
    assert((seq![h] + e).drop_first() =~= e);
    if e.len() == 0 {
        assert(table_size(e) == 0);
    }
}

/// Eviction keeps the longest prefix that fits: every longer prefix is too large.
pub proof fn lemma_evict_longest(es: Seq<HeaderView>, need: nat, max: nat)
    ensures
        forall|n: int| evict_until(es, need, max).len() < n <= es.len()
            ==> #[trigger] table_size(es.take(n)) + need > max,
    decreases es.len(),
{
    if es.len() > 0 && table_size(es) + need > max {
        let d = es.drop_last();
        lemma_evict_longest(d, need, max);
        assert forall|n: int| evict_until(es, need, max).len() < n <= es.len()
            implies #[trigger] table_size(es.take(n)) + need > max by {
            if n == es.len() {
                assert(es.take(n) =~= es);
            } else {
                assert(d.take(n) =~= es.take(n));
                assert(table_size(d.take(n)) + need > max);
            }
        }
    }
}

/// An entry larger than the whole table empties it and is not kept.
pub proof fn lemma_oversize_insert_empties(es: Seq<HeaderView>, h: HeaderView, max: nat)
    requires
        entry_size(h) > max,
    ensures
        table_insert(es, h, max).len() == 0,
    decreases es.len(),
{
    lemma_evict_empties(es, entry_size(h), max);
}

/// Evicting to make room for more than the limit removes every entry.
proof fn lemma_evict_empties(es: Seq<HeaderView>, need: nat, max: nat)
    requires
        need > max,
    ensures
        evict_until(es, need, max).len() == 0,
    decreases es.len(),
{
    if es.len() > 0 {
        lemma_evict_empties(es.drop_last(), need, max);
    }
}

/// The continuation bytes written for `r`, read from `pos` with the value `acc` so far at
/// shift `shift`, give `acc + r * 2^shift` and end where they end.
proof fn lemma_int_continue_round_trip(data: Seq<u8>, pos: int, acc: u64, shift: u64, r: u64)
    requires
        0 <= pos,
        pos + int_continuation(r).len() <= data.len(),
        data.subrange(pos, pos + int_continuation(r).len()) == int_continuation(r),
        shift < 64,
        acc + r * pow2(shift as nat) <= u64::MAX,
    ensures
        int_continue(data, pos, acc, shift)
            == Ok::<(u64, int), DecodeFailure>(((acc + r * pow2(shift as nat)) as u64, pos + int_continuation(r).len())),
    decreases r,
{
    let ic = int_continuation(r);
    let p2 = pow2(shift as nat);
    assert(data[pos] == data.subrange(pos, pos + ic.len())[0]);
    lemma_pow2_pos(shift as nat);
    if r >= 128 {
        let x: u64 = r % 128;
        let b = (x + 128) as u8;
        let rest = int_continuation(r / 128);
        assert(ic == seq![b] + rest);
        assert(data[pos] == b);
        assert((b as u64) & 0x7f == x && (b as u64) & 0x80 != 0) by (bit_vector)
            requires
                b == (x + 128) as u8,
                x < 128,
        ;
        lemma_pow2_adds(shift as nat, 7);
        lemma2_to64();
        assert(r * p2 >= 128 * p2) by (nonlinear_arith)
            requires
                r >= 128,
        ;
        if shift + 7 > 64 {
            lemma_pow2_strictly_increases(64, (shift + 7) as nat);
            assert(false);
        }
        assert(x * p2 <= r * p2) by (nonlinear_arith)
            requires
                x <= r,
        ;
        vstd::bits::lemma_u64_shl_is_mul(x, shift);
        let v = (acc + x * p2) as u64;
        assert(data.subrange(pos + 1, pos + 1 + rest.len()) =~= rest) by {
            assert(data.subrange(pos, pos + ic.len()).subrange(1, 1 + rest.len() as int) =~= rest);
        }
        assert(r == 128 * (r / 128) + x);
        assert((r / 128) * (p2 * 128) + x * p2 == r * p2) by (nonlinear_arith)
            requires
                r == 128 * (r / 128) + x,
        ;
        assert(pow2((shift + 7) as nat) == p2 * 128);
        lemma_int_continue_round_trip(data, pos + 1, v, (shift + 7) as u64, r / 128);
    } else {
        assert(ic == seq![r as u8]);
        assert(data[pos] == r as u8);
        assert(((r as u8) as u64) & 0x7f == r && ((r as u8) as u64) & 0x80 == 0) by (bit_vector)
            requires
                r < 128,
        ;
        assert(r * p2 >= 0);
        vstd::bits::lemma_u64_shl_is_mul(r, shift);
    }
}

/// Whether the bytes `enc` stand at `pos` in `data`.
pub open spec fn bytes_at(data: Seq<u8>, pos: int, enc: Seq<u8>) -> bool {
    0 <= pos && pos + enc.len() <= data.len() && data.subrange(pos, pos + enc.len()) == enc
}

/// An integer written at `pos` reads back from there.
proof fn lemma_integer_at(data: Seq<u8>, pos: int, value: u64, prefix_bits: u8, pattern: u8)
    requires
        1 <= prefix_bits <= 8,
        pattern & prefix_mask(prefix_bits) == 0,
        bytes_at(data, pos, hpack_integer(value, prefix_bits, pattern)),
    ensures
        int_decode(data, pos, prefix_bits)
            == Ok::<(u64, int), DecodeFailure>((value, pos + hpack_integer(value, prefix_bits, pattern).len())),
{
    let mask = prefix_mask(prefix_bits);
    let max_prefix = ((1u64 << prefix_bits) - 1) as u64;
    let e = hpack_integer(value, prefix_bits, pattern);
    assert(data[pos] == e[0]);
    assert(mask as u64 == max_prefix && (max_prefix & 0xFF) as u8 == mask && max_prefix < 256) by (bit_vector)
        requires
            1 <= prefix_bits <= 8,
            mask == ((1u8 << prefix_bits) - 1) as u8,
            max_prefix == ((1u64 << prefix_bits) - 1) as u64,
    ;
    if value < max_prefix {
        assert(data[pos] == pattern | ((value & 0xFF) as u8));
        assert(((pattern | ((value & 0xFF) as u8)) & mask) as u64 == value) by (bit_vector)
            requires
                pattern & mask == 0,
                value < max_prefix,
                mask as u64 == max_prefix,
                1 <= prefix_bits <= 8,
                mask == ((1u8 << prefix_bits) - 1) as u8,
        ;
    } else {
        assert(data[pos] == pattern | mask);
        assert((pattern | mask) & mask == mask) by (bit_vector);
        let r = (value - max_prefix) as u64;
        let ic = int_continuation(r);
        assert(e == seq![pattern | mask] + ic);
        assert(data.subrange(pos + 1, pos + 1 + ic.len() as int) =~= ic) by {
            assert(data.subrange(pos, pos + e.len()).subrange(1, 1 + ic.len() as int) =~= ic);
        }
        lemma2_to64();
        lemma_int_continue_round_trip(data, pos + 1, max_prefix, 0, r);
    }
}

/// An integer written with an `n`-bit prefix (RFC 7541, Section 5.1), its first byte's other
/// bits holding a pattern, reads back as the same integer, ending where it ends, whatever
/// follows it.
pub proof fn lemma_integer_round_trip(value: u64, prefix_bits: u8, pattern: u8, rest: Seq<u8>)
    requires
        1 <= prefix_bits <= 8,
        pattern & prefix_mask(prefix_bits) == 0,
    ensures
        int_decode(hpack_integer(value, prefix_bits, pattern) + rest, 0, prefix_bits)
            == Ok::<(u64, int), DecodeFailure>((value, hpack_integer(value, prefix_bits, pattern).len() as int)),
{
    let e = hpack_integer(value, prefix_bits, pattern);
    assert((e + rest).subrange(0, e.len() as int) =~= e);
    lemma_integer_at(e + rest, 0, value, prefix_bits, pattern);
}

/// A string literal written at `pos` reads back from there.
proof fn lemma_string_at(data: Seq<u8>, pos: int, s: Seq<char>)
    requires
        utf8_bytes(s).len() <= u64::MAX,
        bytes_at(data, pos, hpack_string(utf8_bytes(s))),
    ensures
        string_decode(data, pos) == Decoded::Value(s, pos + hpack_string(utf8_bytes(s)).len()),
{
    broadcast use vstd::utf8::encode_utf8_valid_utf8, vstd::utf8::encode_utf8_decode_utf8;
    let b = utf8_bytes(s);
    let n = b.len() as u64;
    let e = hpack_integer(n, 7, 0);
    let hs = hpack_string(b);
    assert(hs == e + b);
    assert(data.subrange(pos, pos + e.len()) =~= e) by {
        assert(data.subrange(pos, pos + hs.len()).subrange(0, e.len() as int) =~= e);
    }
    assert(0u8 & prefix_mask(7) == 0) by (bit_vector);
    lemma_integer_at(data, pos, n, 7, 0);
    let p = pos + e.len();
    assert(data.subrange(p, p + n as int) =~= b) by {
        assert(data.subrange(pos, pos + hs.len()).subrange(e.len() as int, hs.len() as int) =~= b);
    }
    assert(valid_utf8(b));
    assert(decode_utf8(b) == s);
}

/// A literal field without indexing, with a literal name, written at `pos` is read from
/// there as its name and value, leaving the table alone.
proof fn lemma_literal_at(t: Seq<HeaderView>, m: nat, data: Seq<u8>, pos: int, name: Seq<char>, value: Seq<char>)
    requires
        utf8_bytes(name).len() <= u64::MAX,
        utf8_bytes(value).len() <= u64::MAX,
        bytes_at(data, pos, hpack_literal(utf8_bytes(name), utf8_bytes(value))),
    ensures
        field_step(t, m, data, pos) == (FieldStep::Next {
            entries: t,
            max: m,
            emitted: Some((name, value)),
            pos: pos + hpack_literal(utf8_bytes(name), utf8_bytes(value)).len(),
        }),
{
    reveal(field_step);
    let ns = hpack_string(utf8_bytes(name));
    let vs = hpack_string(utf8_bytes(value));
    let lit = hpack_literal(utf8_bytes(name), utf8_bytes(value));
    assert(lit == seq![0u8] + ns + vs);
    let whole = data.subrange(pos, pos + lit.len());
    assert(data[pos] == whole[0]);
    assert(data[pos] == 0u8);
    assert((0u8 & 0x80) == 0 && (0u8 & 0xc0) != 0x40 && (0u8 & 0xf0) == 0x00 && (0u8 & prefix_mask(4)) == 0
        && prefix_mask(4) == 15) by (bit_vector);
    assert(data.subrange(pos + 1, pos + 1 + ns.len()) =~= ns) by {
        assert(whole.subrange(1, 1 + ns.len() as int) =~= ns);
    }
    assert(data.subrange(pos + 1 + ns.len(), pos + 1 + ns.len() + vs.len()) =~= vs) by {
        assert(whole.subrange(1 + ns.len() as int, lit.len() as int) =~= vs);
    }
    lemma_string_at(data, pos + 1, name);
    lemma_string_at(data, pos + 1 + ns.len(), value);
}

/// The encoding of the first `j` fields is the start of the encoding of them all.
proof fn lemma_literals_prefix(s: Seq<(String, String)>, j: int)
    requires
        0 <= j <= s.len(),
    ensures
        hpack_literals(s.take(j)).len() <= hpack_literals(s).len(),
        hpack_literals(s).subrange(0, hpack_literals(s.take(j)).len() as int) == hpack_literals(s.take(j)),
    decreases s.len(),
{
    if j < s.len() {
        lemma_literals_prefix(s.drop_last(), j);
        assert(s.drop_last().take(j) =~= s.take(j));
        let a = hpack_literals(s.drop_last());
        let b = hpack_literal(utf8_bytes(s.last().0@), utf8_bytes(s.last().1@));
        assert(hpack_literals(s) == a + b);
        assert((a + b).subrange(0, hpack_literals(s.take(j)).len() as int) =~= a.subrange(0, hpack_literals(s.take(j)).len() as int));
    } else {
        assert(s.take(j) =~= s);
        assert(hpack_literals(s).subrange(0, hpack_literals(s).len() as int) =~= hpack_literals(s));
    }
}

/// Decoding the encoding of a field list from the end of its first `k` fields, with those
/// fields emitted, gives the whole list and leaves the table alone.
proof fn lemma_block_of_literals(t: Seq<HeaderView>, m: nat, s: Seq<(String, String)>, k: int)
    requires
        0 <= k <= s.len(),
        forall|i: int| 0 <= i < s.len() ==> utf8_bytes((#[trigger] s[i]).0@).len() <= u64::MAX
            && utf8_bytes(s[i].1@).len() <= u64::MAX,
    ensures
        block_decode(t, m, hpack_literals(s), hpack_literals(s.take(k)).len() as int, fields_view(s.take(k)))
            == (BlockOutcome::Done { headers: fields_view(s), entries: t, max: m }),
    decreases s.len() - k,
{
    let data = hpack_literals(s);
    let pk = hpack_literals(s.take(k)).len() as int;
    lemma_literals_prefix(s, k);
    if k == s.len() {
        assert(s.take(k) =~= s);
    } else {
        lemma_literals_prefix(s, k + 1);
        let lit = hpack_literal(utf8_bytes(s[k].0@), utf8_bytes(s[k].1@));
        assert(s.take(k + 1).drop_last() =~= s.take(k));
        assert(s.take(k + 1).last() == s[k]);
        assert(hpack_literals(s.take(k + 1)) == hpack_literals(s.take(k)) + lit);
        assert(data.subrange(pk, pk + lit.len()) =~= lit) by {
            assert(data.subrange(0, pk + lit.len()).subrange(pk, pk + lit.len()) =~= lit);
        }
        assert(lit.len() > 0);
        lemma_literal_at(t, m, data, pk, s[k].0@, s[k].1@);
        assert(fields_view(s.take(k + 1)) =~= fields_view(s.take(k)).push((s[k].0@, s[k].1@)));
        lemma_block_of_literals(t, m, s, k + 1);
    }
}

/// A header list encoded as literal fields without indexing (`HpackEncoder::encode_list`)
/// decodes, with any table, to the same list, in order, and leaves the table as it was.
pub proof fn lemma_literals_decode(entries: Seq<HeaderView>, max: nat, fields: Seq<(String, String)>)
    requires
        forall|i: int| 0 <= i < fields.len() ==> utf8_bytes((#[trigger] fields[i]).0@).len() <= u64::MAX
            && utf8_bytes(fields[i].1@).len() <= u64::MAX,
    ensures
        block_decode(entries, max, hpack_literals(fields), 0, seq![])
            == (BlockOutcome::Done { headers: fields_view(fields), entries, max }),
{
    assert(fields.take(0) =~= Seq::<(String, String)>::empty());
    assert(fields_view(fields.take(0)) =~= Seq::<HeaderView>::empty());
    lemma_block_of_literals(entries, max, fields, 0);
}

/// One field per name is already what a list with distinct names holds.
proof fn lemma_dedup_distinct(fs: Seq<HeaderView>)
    requires
        forall|i: int, j: int| 0 <= i < j < fs.len() ==> (#[trigger] fs[i]).0 != (#[trigger] fs[j]).0,
    ensures
        dedup_fields(fs) == fs,
    decreases fs.len(),
{
    if fs.len() > 0 {
        let d = fs.drop_last();
        assert forall|i: int, j: int| 0 <= i < j < d.len() implies (#[trigger] d[i]).0 != (#[trigger] d[j]).0 by {
            assert(fs[i].0 != fs[j].0);
        }
        lemma_dedup_distinct(d);
        crate::h2::h2_proxy_bridge::lemma_name_index_bound(d, fs.last().0);
        if let Some(i) = crate::h2::h2_proxy_bridge::name_index(d, fs.last().0) {
            assert(fs[i].0 != fs[fs.len() - 1].0);
        }
        assert(d.push(fs.last()) =~= fs);
    }
}

/// A header map encoded by `HpackEncoder::encode` (its pairs, in some order, as literal
/// fields) decodes, with any table, to the same pairs, each name once with its value, and
/// leaves the table as it was.
pub proof fn lemma_encoded_map_decodes(entries: Seq<HeaderView>, max: nat, fields: Seq<(String, String)>, m: Map<String, String>)
    requires
        lists_map(fields, m),
        texts_fit(fields),
    ensures
        block_decode(entries, max, hpack_literals(fields), 0, seq![])
            == (BlockOutcome::Done { headers: fields_view(fields), entries, max }),
        dedup_fields(fields_view(fields)) == fields_view(fields),
{
    assert forall|i: int| 0 <= i < fields.len() implies utf8_bytes((#[trigger] fields[i]).0@).len() <= u64::MAX
        && utf8_bytes(fields[i].1@).len() <= u64::MAX by {
        assert(texts_fit(fields));
    }
    lemma_literals_decode(entries, max, fields);
    let fv = fields_view(fields);
    assert forall|i: int, j: int| 0 <= i < j < fv.len() implies (#[trigger] fv[i]).0 != (#[trigger] fv[j]).0 by {
        assert(fields[i].0@ != fields[j].0@);
    }
    lemma_dedup_distinct(fv);
}

/// The static table as RFC 7541, Appendix A lists it: index 1 first.
pub open spec fn rfc7541_static_table() -> Seq<HeaderView> {
    seq![
        (":authority"@, ""@),
        (":method"@, "GET"@),
        (":method"@, "POST"@),
        (":path"@, "/"@),
        (":path"@, "/index.html"@),
        (":scheme"@, "http"@),
        (":scheme"@, "https"@),
        (":status"@, "200"@),
        (":status"@, "204"@),
        (":status"@, "206"@),
        (":status"@, "304"@),
        (":status"@, "400"@),
        (":status"@, "404"@),
        (":status"@, "500"@),
        ("accept-charset"@, ""@),
        ("accept-encoding"@, "gzip, deflate"@),
        ("accept-language"@, ""@),
        ("accept-ranges"@, ""@),
        ("accept"@, ""@),
        ("access-control-allow-origin"@, ""@),
        ("age"@, ""@),
        ("allow"@, ""@),
        ("authorization"@, ""@),
        ("cache-control"@, ""@),
        ("content-disposition"@, ""@),
        ("content-encoding"@, ""@),
        ("content-language"@, ""@),
        ("content-length"@, ""@),
        ("content-location"@, ""@),
        ("content-range"@, ""@),
        ("content-type"@, ""@),
        ("cookie"@, ""@),
        ("date"@, ""@),
        ("etag"@, ""@),
        ("expect"@, ""@),
        ("expires"@, ""@),
        ("from"@, ""@),
        ("host"@, ""@),
        ("if-match"@, ""@),
        ("if-modified-since"@, ""@),
        ("if-none-match"@, ""@),
        ("if-range"@, ""@),
        ("if-unmodified-since"@, ""@),
        ("last-modified"@, ""@),
        ("link"@, ""@),
        ("location"@, ""@),
        ("max-forwards"@, ""@),
        ("proxy-authenticate"@, ""@),
        ("proxy-authorization"@, ""@),
        ("range"@, ""@),
        ("referer"@, ""@),
        ("refresh"@, ""@),
        ("retry-after"@, ""@),
        ("server"@, ""@),
        ("set-cookie"@, ""@),
        ("strict-transport-security"@, ""@),
        ("transfer-encoding"@, ""@),
        ("user-agent"@, ""@),
        ("vary"@, ""@),
        ("via"@, ""@),
        ("www-authenticate"@, ""@)
    ]
}

/// An indexed field with a static index `i` (1 to 61) decodes, whatever the dynamic table
/// holds, to entry `i` of the static table of RFC 7541, Appendix A, and leaves the table alone.
pub proof fn lemma_static_index_decodes(entries: Seq<HeaderView>, max: nat, i: u8)
    requires
        1 <= i <= 61,
    ensures
        block_decode(entries, max, seq![0x80u8 | i], 0, seq![])
            == (BlockOutcome::Done { headers: seq![rfc7541_static_table()[i - 1]], entries, max }),
{
    let data = seq![0x80u8 | i];
    lemma_indexed_at(entries, max, data, 0, i);
    let h = seq![static_entry(i - 1)];
    assert(seq![].push(static_entry(i - 1)) =~= h);
    assert(block_decode(entries, max, data, 1, h) == (BlockOutcome::Done { headers: h, entries, max }));
    assert(block_decode(entries, max, data, 0, seq![]) == block_decode(entries, max, data, 1, h));
    lemma_static_table_matches(i as int - 1);
}

/// The decoder's static table is the RFC's.
proof fn lemma_static_table_matches(k: int)
    requires
        0 <= k < 61,
    ensures
        static_entry(k) == rfc7541_static_table()[k],
{
    let t = rfc7541_static_table();
    assert(t.len() == 61);
    assert(static_entry(k) == t[k]);
}

/// An indexed field with a static index at `pos` emits that static entry and moves one byte on.
proof fn lemma_indexed_at(entries: Seq<HeaderView>, max: nat, data: Seq<u8>, pos: int, i: u8)
    requires
        1 <= i <= 61,
        0 <= pos < data.len(),
        data[pos] == 0x80u8 | i,
    ensures
        field_step(entries, max, data, pos) == (FieldStep::Next {
            entries,
            max,
            emitted: Some(static_entry(i - 1)),
            pos: pos + 1,
        }),
{
    reveal(field_step);
    assert(hpack_integer(i as u64, 7, 0x80) == seq![0x80u8 | i]) by {
        assert(((1u64 << 7u8) - 1) as u64 == 127u64) by (bit_vector);
        assert(0x80u8 | (((i as u64) & 0xFF) as u8) == 0x80u8 | i) by (bit_vector);
    }
    assert(data.subrange(pos, pos + 1) =~= seq![0x80u8 | i]);
    assert((0x80u8 & prefix_mask(7)) == 0 && ((0x80u8 | i) & 0x80u8) != 0) by (bit_vector);
    lemma_integer_at(data, pos, i as u64, 7, 0x80);
}

/// A literal field with incremental indexing whose name is static entry `n` (1 to 61), its
/// value a plain string at `pos + 1`, emits (name, value) and adds it to the table.
proof fn lemma_literal_named_at(entries: Seq<HeaderView>, max: nat, data: Seq<u8>, pos: int, n: u8, value: Seq<char>)
    requires
        1 <= n <= 61,
        0 <= pos < data.len(),
        data[pos] == 0x40u8 | n,
        utf8_bytes(value).len() <= u64::MAX,
        bytes_at(data, pos + 1, hpack_string(utf8_bytes(value))),
    ensures
        field_step(entries, max, data, pos) == (FieldStep::Next {
            entries: table_insert(entries, (static_entry(n - 1).0, value), max),
            max,
            emitted: Some((static_entry(n - 1).0, value)),
            pos: pos + 1 + hpack_string(utf8_bytes(value)).len(),
        }),
{
    reveal(field_step);
    assert(hpack_integer(n as u64, 6, 0x40) == seq![0x40u8 | n]) by {
        assert(((1u64 << 6u8) - 1) as u64 == 63u64) by (bit_vector);
        assert(0x40u8 | (((n as u64) & 0xFF) as u8) == 0x40u8 | n) by (bit_vector);
    }
    assert(data.subrange(pos, pos + 1) =~= seq![0x40u8 | n]);
    assert((0x40u8 & prefix_mask(6)) == 0 && ((0x40u8 | n) & 0x80u8) == 0 && ((0x40u8 | n) & 0xc0u8) == 0x40u8) by (bit_vector)
        requires
            1 <= n <= 61,
    ;
    lemma_integer_at(data, pos, n as u64, 6, 0x40);
    lemma_string_at(data, pos + 1, value);
}

/// A string of under 127 bytes is written as its length byte, then its bytes.
proof fn lemma_short_string(b: Seq<u8>)
    requires
        b.len() < 127,
    ensures
        hpack_string(b) == seq![len_byte(b)] + b,
{
    let n = b.len() as u64;
    assert(((1u64 << 7u8) - 1) as u64 == 127u64) by (bit_vector);
    assert(0u8 | ((n & 0xFF) as u8) == (n as usize) as u8) by (bit_vector)
        requires
            n < 127,
    ;
}

/// The request block of `HpackEncoder::encode_request_headers`, for the methods it sends by
/// their static entry (GET and POST) and a path and host of under 127 bytes each, decodes,
/// with any table, to the method, the path, `:scheme https` and the host as `:authority`.
pub proof fn lemma_request_block_decodes(entries: Seq<HeaderView>, max: nat, method: Seq<char>, path: Seq<char>, host: Seq<char>)
    requires
        method == "GET"@ || method == "POST"@,
        utf8_bytes(path).len() < 127,
        utf8_bytes(host).len() < 127,
    ensures
        block_decode(entries, max, request_block(method, path, host), 0, seq![]) matches BlockOutcome::Done { headers, .. }
            && headers == seq![(":method"@, method), (":path"@, path), (":scheme"@, "https"@), (":authority"@, host)],
{
    reveal_strlit("GET");
    reveal_strlit("POST");
    let pb = utf8_bytes(path);
    let hb = utf8_bytes(host);
    let idx = method_index(method);
    assert("POST"@ != "GET"@) by {
        assert("POST"@[0] != "GET"@[0]);
    }
    assert(method == "GET"@ ==> idx == 2);
    assert(method == "POST"@ ==> idx == 3);
    let data = request_block(method, path, host);
    lemma_short_string(pb);
    lemma_short_string(hb);
    let p1 = 1int;
    let p2 = p1 + 1 + hpack_string(pb).len();
    let p3 = p2 + 1;
    let p4 = p3 + 1 + hpack_string(hb).len();
    assert(data =~= seq![0x80u8 | idx] + seq![0x44u8] + hpack_string(pb) + seq![0x87u8, 0x41u8] + hpack_string(hb));
    assert(data.len() == p4);
    assert(data[0] == 0x80u8 | idx);
    assert(data[p1] == 0x40u8 | 4u8) by {
        assert(0x44u8 == 0x40u8 | 4u8) by (bit_vector);
    }
    assert(data.subrange(p1 + 1, p2) =~= hpack_string(pb));
    assert(data[p2] == 0x80u8 | 7u8) by {
        assert(0x87u8 == 0x80u8 | 7u8) by (bit_vector);
    }
    assert(data[p3] == 0x40u8 | 1u8) by {
        assert(0x41u8 == 0x40u8 | 1u8) by (bit_vector);
    }
    assert(data.subrange(p3 + 1, p4) =~= hpack_string(hb));
    lemma_indexed_at(entries, max, data, 0, idx);
    let e1 = table_insert(entries, (static_entry(3).0, path), max);
    lemma_literal_named_at(entries, max, data, p1, 4, path);
    lemma_indexed_at(e1, max, data, p2, 7);
    lemma_literal_named_at(e1, max, data, p3, 1, host);
    let e2 = table_insert(e1, (static_entry(0).0, host), max);
    let h1 = seq![static_entry(idx - 1)];
    let h2 = h1.push((static_entry(3).0, path));
    let h3 = h2.push(static_entry(6));
    let h4 = h3.push((static_entry(0).0, host));
    assert(seq![].push(static_entry(idx - 1)) =~= h1);
    assert(block_decode(e2, max, data, p4, h4) == (BlockOutcome::Done { headers: h4, entries: e2, max }));
    assert(block_decode(e1, max, data, p3, h3) == block_decode(e2, max, data, p4, h4));
    assert(block_decode(e1, max, data, p2, h2) == block_decode(e1, max, data, p3, h3));
    assert(block_decode(entries, max, data, p1, h1) == block_decode(e1, max, data, p2, h2));
    assert(block_decode(entries, max, data, 0, seq![]) == block_decode(entries, max, data, p1, h1));
    assert(h4 =~= seq![(":method"@, method), (":path"@, path), (":scheme"@, "https"@), (":authority"@, host)]);
}

} // verus!
