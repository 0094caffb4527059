use vstd::prelude::*;
use crate::text::{split_char, split_spec, views, trim, trim_spec, chars_of, str_eq, concat_str};

verus! {

/// Where a chunked body is being read.
#[derive(Debug, Clone, Copy, PartialEq, Eq, Structural)]
pub enum ChunkState {
    /// Reading a chunk-size line.
    ReadingSize,
    /// Reading a chunk's data.
    ReadingData,
    /// Reading the trailer after the last chunk.
    ReadingTrailers,
    /// Done.
    Complete,
}

/// Counters of a chunked read.
#[derive(Debug, Clone)]
pub struct ChunkStats {
    pub chunks_read: u64,
    pub total_data_bytes: u64,
    pub patterns_found: u64,
    pub lookahead_hits: u64,
}

impl Default for ChunkStats {
    fn default() -> (s: Self)
        ensures
            s.chunks_read == 0 && s.total_data_bytes == 0 && s.patterns_found == 0 && s.lookahead_hits == 0,
    {
        ChunkStats { chunks_read: 0, total_data_bytes: 0, patterns_found: 0, lookahead_hits: 0 }
    }
}

/// The state of a chunked read (the redaction stream it feeds is kept beside it).
pub struct ChunkedParser {
    pub state: ChunkState,
    pub current_chunk_size: usize,
    pub bytes_remaining_in_chunk: usize,
}

/// The value of a hexadecimal digit, if it is one.
pub open spec fn hex_value(c: char) -> Option<nat> {
    if '0' <= c && c <= '9' {
        Some((c as int - '0' as int) as nat)
    } else if 'a' <= c && c <= 'f' {
        Some((c as int - 'a' as int + 10) as nat)
    } else if 'A' <= c && c <= 'F' {
        Some((c as int - 'A' as int + 10) as nat)
    } else {
        None
    }
}

/// The value of a sequence of hexadecimal digits.
pub open spec fn hex_digits_value(s: Seq<char>) -> nat
    decreases s.len(),
{
    if s.len() == 0 {
        0
    } else {
        hex_digits_value(s.drop_last()) * 16 + match hex_value(s.last()) { Some(v) => v, None => 0 }
    }
}

/// What `usize::from_str_radix(s, 16)` accepts: an optional `+`, then one or more
/// hexadecimal digits whose value fits in a `usize`.
pub open spec fn parse_hex_spec(s: Seq<char>) -> Option<usize> {
    let d = hex_body(s);
    if d.len() > 0 && (forall|i: int| 0 <= i < d.len() ==> (#[trigger] hex_value(d[i])) is Some)
        && hex_digits_value(d) <= usize::MAX {
        Some(hex_digits_value(d) as usize)
    } else {
        None
    }
}

/// The digits of a hexadecimal size: the text after an optional leading `+`.
pub open spec fn hex_body(s: Seq<char>) -> Seq<char> {
    if s.len() > 0 && s[0] == '+' { s.drop_first() } else { s }
}

/// The text of the error `usize::from_str_radix(s, 16)` reports for `s`.
pub uninterp spec fn hex_error_text(s: Seq<char>) -> Seq<char>;

/// The message of `usize::from_str_radix`'s error for `s` in base 16.
///
/// Trusted: the message is what `hex_error_text` names, a function of the text.
#[verifier::external_body]
fn hex_parse_error(s: &str) -> (r: String)
    ensures
        r@ == hex_error_text(s@),
{
    match usize::from_str_radix(s, 16) {
        Ok(_) => String::new(),
        Err(e) => e.to_string(),
    }
}

proof fn lemma_hex_prefix_grows(d: Seq<char>, n: int)
    requires
        0 <= n <= d.len(),
    ensures
        hex_digits_value(d.take(n)) <= hex_digits_value(d),
    decreases d.len() - n,
{
    if n < d.len() {
        lemma_hex_prefix_grows(d, n + 1);
        assert(d.take(n + 1).drop_last() == d.take(n));
        assert(hex_digits_value(d.take(n + 1)) >= hex_digits_value(d.take(n))) by (nonlinear_arith)
            requires hex_digits_value(d.take(n + 1)) >= hex_digits_value(d.take(n + 1).drop_last()) * 16,
                d.take(n + 1).drop_last() == d.take(n);
    } else {
        assert(d.take(n) == d);
    }
}

/// Parses a hexadecimal size (see `parse_hex_spec`).
pub fn parse_hex(s: &str) -> (r: Option<usize>)
    ensures
        r == parse_hex_spec(s@),
{
    let v = chars_of(s);
    let start: usize = if v.len() > 0 && v[0] == '+' { 1 } else { 0 };
    let ghost d = hex_body(s@);
    assert(d == v@.subrange(start as int, v@.len() as int));
    if start >= v.len() {
        return None;
    }
    let mut acc: usize = 0;
    let mut i = start;
    while i < v.len()
        invariant
            start <= i <= v@.len(),
            v@ == s@,
            d == v@.subrange(start as int, v@.len() as int),
            d == hex_body(s@),
            forall|j: int| 0 <= j < i - start ==> (#[trigger] hex_value(d[j])) is Some,
            acc == hex_digits_value(d.take(i - start)),
        decreases v@.len() - i,
    {
        let c = v[i];
        assert(d[i - start] == c);
        assert(d.take(i - start + 1).drop_last() == d.take(i - start));
        assert(d.take(i - start + 1).last() == c);
        let dig: usize = if '0' <= c && c <= '9' {
            (c as u32 - '0' as u32) as usize
        } else if 'a' <= c && c <= 'f' {
            (c as u32 - 'a' as u32 + 10) as usize
        } else if 'A' <= c && c <= 'F' {
            (c as u32 - 'A' as u32 + 10) as usize
        } else {
            assert(hex_value(d[i - start]) is None);
            assert(!(forall|j: int| 0 <= j < d.len() ==> (#[trigger] hex_value(d[j])) is Some));
            assert(parse_hex_spec(s@) is None);
            return None;
        };
        assert(hex_value(c) == Some(dig as nat));
        assert(hex_digits_value(d.take(i - start + 1)) == acc * 16 + dig);
        if acc > (usize::MAX - dig) / 16 {
            assert(hex_digits_value(d.take(i - start + 1)) > usize::MAX) by (nonlinear_arith)
                requires
                    acc > (usize::MAX - dig) / 16,
                    hex_digits_value(d.take(i - start + 1)) == acc * 16 + dig,
                    dig <= 15;
            proof {
                lemma_hex_prefix_grows(d, i - start + 1);
            }
            return None;
        }
        assert(acc * 16 + dig <= usize::MAX) by (nonlinear_arith)
            requires acc <= (usize::MAX - dig) / 16, dig <= 15;
        acc = acc * 16 + dig;
        i = i + 1;
    }
    assert(d.take(d.len() as int) == d);
    Some(acc)
}

/// The size field of a chunk-size line: the text before the first `;`, trimmed.
pub open spec fn size_field(line: Seq<char>) -> Seq<char> {
    trim_spec(split_spec(line, ';')[0])
}

impl ChunkedParser {
    /// A parser waiting for the first size line.
    pub fn new() -> (p: Self)
        ensures
            p.state == ChunkState::ReadingSize,
            p.current_chunk_size == 0,
            p.bytes_remaining_in_chunk == 0,
    {
        ChunkedParser { state: ChunkState::ReadingSize, current_chunk_size: 0, bytes_remaining_in_chunk: 0 }
    }

    /// Takes a chunk-size line: a zero size moves to the trailer, another to the chunk's
    /// data; a size that is not hexadecimal is an error.
    pub fn on_size_line(&mut self, line: &str) -> (r: Result<(), String>)
        ensures
            match parse_hex_spec(size_field(line@)) {
                None => (r matches Err(m) && m@ == "Invalid chunk size '"@ + size_field(line@) + "': "@
                    + hex_error_text(size_field(line@))) && final(self).state == old(self).state
                    && final(self).current_chunk_size == old(self).current_chunk_size
                    && final(self).bytes_remaining_in_chunk == old(self).bytes_remaining_in_chunk,
                Some(n) => r is Ok && if n == 0 {
                    final(self).state == ChunkState::ReadingTrailers
                        && final(self).current_chunk_size == old(self).current_chunk_size
                        && final(self).bytes_remaining_in_chunk == old(self).bytes_remaining_in_chunk
                } else {
                    final(self).state == ChunkState::ReadingData && final(self).current_chunk_size == n
                        && final(self).bytes_remaining_in_chunk == n
                },
            },
    {
        let parts = split_char(line, ';');
        assert(views(parts@)[0] == parts@[0]@);
        let field = trim(parts[0].as_str());
        match parse_hex(field.as_str()) {
            Some(n) => {
                if n == 0 {
                    self.state = ChunkState::ReadingTrailers;
                } else {
                    self.current_chunk_size = n;
                    self.bytes_remaining_in_chunk = n;
                    self.state = ChunkState::ReadingData;
                }
                Ok(())
            },
            None => {
                let mut m = String::from_str("Invalid chunk size '");
                m.append(field.as_str());
                m.append("': ");
                m.append(hex_parse_error(field.as_str()).as_str());
                Err(m)
            },
        }
    }

    /// Counts a chunk's data once read and fed to the redactor (`produced` tells whether
    /// the redactor gave output), and waits for the next size line.
    pub fn on_chunk_data(&mut self, data_len: usize, produced: bool, stats: &mut ChunkStats)
        requires
            old(stats).total_data_bytes + data_len <= u64::MAX,
            old(stats).chunks_read < u64::MAX,
            old(stats).lookahead_hits < u64::MAX,
        ensures
            final(self).state == ChunkState::ReadingSize,
            final(self).current_chunk_size == old(self).current_chunk_size,
            final(self).bytes_remaining_in_chunk == old(self).bytes_remaining_in_chunk,
            final(stats).total_data_bytes == old(stats).total_data_bytes + data_len,
            final(stats).chunks_read == old(stats).chunks_read + 1,
            final(stats).lookahead_hits == old(stats).lookahead_hits + if produced { 1int } else { 0int },
            final(stats).patterns_found == old(stats).patterns_found,
    {
        stats.total_data_bytes = stats.total_data_bytes + data_len as u64;
        stats.chunks_read = stats.chunks_read + 1;
        if produced {
            stats.lookahead_hits = stats.lookahead_hits + 1;
        }
        self.state = ChunkState::ReadingSize;
    }

    /// Takes a trailer line: an empty line, or the end of input, completes the body.
    pub fn on_trailer_line(&mut self, line: &str) -> (done: bool)
        ensures
            done == (line@ == "\r\n"@ || line@.len() == 0),
            done ==> final(self).state == ChunkState::Complete,
            !done ==> final(self).state == old(self).state,
            final(self).current_chunk_size == old(self).current_chunk_size,
            final(self).bytes_remaining_in_chunk == old(self).bytes_remaining_in_chunk,
    {
        if str_eq(line, "\r\n") || line.is_empty() {
            self.state = ChunkState::Complete;
            true
        } else {
            false
        }
    }

    /// Whether the body was read to its end.
    pub fn is_complete(&self) -> (r: bool)
        ensures
            r == (self.state == ChunkState::Complete),
    {
        self.state == ChunkState::Complete
    }
}

impl Default for ChunkedParser {
    fn default() -> (p: Self)
        ensures
            p.state == ChunkState::ReadingSize,
            p.current_chunk_size == 0,
            p.bytes_remaining_in_chunk == 0,
    {
        ChunkedParser::new()
    }
}

/// Digit `d` (under 16) of base 16: '0' to '9', then 'a' to 'f', or 'A' to 'F' when `upper`.
pub open spec fn hex_digit_char(d: nat, upper: bool) -> char {
    if d < 10 {
        (48 + d) as char
    } else if upper {
        (55 + d) as char
    } else {
        (87 + d) as char
    }
}

/// The base-16 numeral of `n`, without leading zeros, in lower or upper case.
pub open spec fn hex_numeral(n: nat, upper: bool) -> Seq<char>
    decreases n,
{
    if n < 16 {
        seq![hex_digit_char(n, upper)]
    } else {
        hex_numeral(n / 16, upper).push(hex_digit_char(n % 16, upper))
    }
}

/// Each base-16 digit character, in either case, is a hexadecimal digit of its value.
proof fn lemma_digit_value(d: nat, upper: bool)
    requires
        d < 16,
    ensures
        hex_value(hex_digit_char(d, upper)) == Some(d),
        hex_digit_char(d, upper) != '+',
{
    let c = hex_digit_char(d, upper);
    if d < 10 {
        assert(c as int == 48 + d);
    } else if upper {
        assert(c as int == 55 + d);
    } else {
        assert(c as int == 87 + d);
    }
}

/// A numeral is made of digits, and they are worth the number.
proof fn lemma_numeral_value(n: nat, upper: bool)
    ensures
        hex_numeral(n, upper).len() > 0,
        forall|i: int| 0 <= i < hex_numeral(n, upper).len() ==> (#[trigger] hex_value(hex_numeral(n, upper)[i])) is Some,
        hex_digits_value(hex_numeral(n, upper)) == n,
        hex_numeral(n, upper)[0] != '+',
    decreases n,
{
    let t = hex_numeral(n, upper);
    if n < 16 {
        lemma_digit_value(n, upper);
        assert(t.drop_last() =~= Seq::<char>::empty());
        assert(t.last() == hex_digit_char(n, upper));
        assert(hex_digits_value(t) == hex_digits_value(t.drop_last()) * 16 + n);
    } else {
        lemma_numeral_value(n / 16, upper);
        lemma_digit_value(n % 16, upper);
        let u = hex_numeral(n / 16, upper);
        assert(t.drop_last() =~= u);
        assert forall|i: int| 0 <= i < t.len() implies (#[trigger] hex_value(t[i])) is Some by {
            if i < u.len() {
                assert(t[i] == u[i]);
            }
        }
        assert(t.last() == hex_digit_char(n % 16, upper));
        assert(hex_digits_value(t) == hex_digits_value(u) * 16 + (n % 16));
        assert((n / 16) * 16 + n % 16 == n) by (nonlinear_arith);
        assert(t[0] == u[0]);
    }
}

/// Every size written as a base-16 numeral, in lower or upper case, parses back to itself,
/// as `usize::from_str_radix(s, 16)` reads it: each of '0' to '9', 'a' to 'f' and 'A' to
/// 'F' is a digit of its value.
pub proof fn lemma_hex_numeral_parses(n: usize, upper: bool)
    ensures
        parse_hex_spec(hex_numeral(n as nat, upper)) == Some(n),
{
    lemma_numeral_value(n as nat, upper);
}

} // verus!
