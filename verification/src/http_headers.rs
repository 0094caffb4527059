use vstd::prelude::*;
use crate::text::{lines, lines_spec, trim, trim_spec, views, find_str, first_occurrence, occurs_at, chars_of,
    string_of_chars, str_eq, join, join_spec, concat_str, parse_usize,
    parse_usize_spec, utf8_lossy, utf8_lossy_text};
use crate::unicode::{str_to_lowercase, spec_str_to_lowercase};

verus! {

/// The headers of an HTTP/1.1 message, with the ones the proxy consults picked out.
#[derive(Debug, Clone)]
pub struct HttpHeaders {
    /// The `(name, value)` pairs, trimmed, in order.
    pub headers: Vec<(String, String)>,
    pub content_length: Option<usize>,
    pub transfer_encoding: Option<String>,
    pub connection: Option<String>,
    pub content_type: Option<String>,
    /// The header lines joined with CRLF and ended with an empty line, for forwarding.
    pub raw_headers: String,
}

/// The pairs by their characters.
pub open spec fn pair_views(v: Seq<(String, String)>) -> Seq<(Seq<char>, Seq<char>)> {
    v.map_values(|p: (String, String)| (p.0@, p.1@))
}

/// The value of the first pair whose lowercased name is `lname`.
pub open spec fn first_value(pairs: Seq<(Seq<char>, Seq<char>)>, lname: Seq<char>) -> Option<Seq<char>>
    decreases pairs.len(),
{
    if pairs.len() == 0 {
        None
    } else if spec_str_to_lowercase(pairs[0].0) == lname {
        Some(pairs[0].1)
    } else {
        first_value(pairs.drop_first(), lname)
    }
}

/// Whether a line is blank once trimmed.
pub open spec fn is_blank(line: Seq<char>) -> bool {
    trim_spec(line).len() == 0
}

/// The position of the first blank line, or the number of lines.
pub open spec fn blank_index(ls: Seq<Seq<char>>) -> nat
    decreases ls.len(),
{
    if ls.len() == 0 || is_blank(ls[0]) { 0 } else { 1 + blank_index(ls.drop_first()) }
}

/// The pair a header line gives: the trimmed text before its first `:` and after it.
pub open spec fn line_pair(line: Seq<char>) -> Option<(Seq<char>, Seq<char>)> {
    match first_occurrence(line, ":"@) {
        Some(i) => Some((trim_spec(line.take(i)), trim_spec(line.skip(i + 1)))),
        None => None,
    }
}

/// The pairs of the header lines that hold a `:`, in order.
pub open spec fn line_pairs(ls: Seq<Seq<char>>) -> Seq<(Seq<char>, Seq<char>)>
    decreases ls.len(),
{
    if ls.len() == 0 {
        Seq::empty()
    } else {
        match line_pair(ls.last()) {
            Some(p) => line_pairs(ls.drop_last()).push(p),
            None => line_pairs(ls.drop_last()),
        }
    }
}

/// The header lines of a header block's text: after the status line when there is one,
/// up to the first blank line.
pub open spec fn block_lines(text: Seq<char>, has_status_line: bool) -> Seq<Seq<char>> {
    let all = lines_spec(text);
    let ls = all.skip(if has_status_line && all.len() > 0 { 1int } else { 0int });
    ls.take(blank_index(ls) as int)
}

/// The value, if any, of a header named `lname` once lowercased.
pub open spec fn header_value(h: HttpHeaders, lname: Seq<char>) -> Option<Seq<char>> {
    first_value(pair_views(h.headers@), lname)
}

/// The text of an optional string.
pub open spec fn opt_view(o: Option<String>) -> Option<Seq<char>> {
    match o {
        Some(s) => Some(s@),
        None => None,
    }
}

/// Whether `h` is what the header block `text` gives (see `block_lines`, `line_pairs`).
pub open spec fn headers_parsed(text: Seq<char>, has_status_line: bool, h: HttpHeaders) -> bool {
    let bl = block_lines(text, has_status_line);
    let pairs = line_pairs(bl);
    &&& pair_views(h.headers@) == pairs
    &&& h.content_length == match first_value(pairs, "content-length"@) {
        Some(v) => parse_usize_spec(v),
        None => None,
    }
    &&& opt_view(h.transfer_encoding) == first_value(pairs, "transfer-encoding"@)
    &&& opt_view(h.connection) == first_value(pairs, "connection"@)
    &&& opt_view(h.content_type) == first_value(pairs, "content-type"@)
    &&& h.raw_headers@ == join_spec(bl, "\r\n"@) + "\r\n\r\n"@
}

/// The value of the first pair whose lowercased name is `lname`.
fn find_value(headers: &Vec<(String, String)>, lname: &str) -> (r: Option<String>)
    ensures
        opt_view(r) == first_value(pair_views(headers@), lname@),
{
    let ghost pv = pair_views(headers@);
    let mut i: usize = 0;
    assert(pv.skip(0) == pv);
    while i < headers.len()
        invariant
            i <= headers@.len(),
            pv == pair_views(headers@),
            first_value(pv, lname@) == first_value(pv.skip(i as int), lname@),
        decreases headers@.len() - i,
    {
        assert(pv.skip(i as int).drop_first() == pv.skip(i + 1));
        assert(pv.skip(i as int)[0] == (headers@[i as int].0@, headers@[i as int].1@));
        let k = str_to_lowercase(headers[i].0.as_str());
        if str_eq(k.as_str(), lname) {
            return Some(headers[i].1.clone());
        }
        i += 1;
    }
    assert(pv.skip(i as int).len() == 0);
    None
}

proof fn lemma_blank_index(ls: Seq<Seq<char>>, i: int)
    requires
        0 <= i <= ls.len(),
        forall|j: int| 0 <= j < i ==> !is_blank(#[trigger] ls[j]),
        i == ls.len() || is_blank(ls[i]),
    ensures
        blank_index(ls) == i,
    decreases i,
{
    if i > 0 {
        assert forall|j: int| 0 <= j < i - 1 implies !is_blank(#[trigger] ls.drop_first()[j]) by {
            assert(ls.drop_first()[j] == ls[j + 1]);
        }
        lemma_blank_index(ls.drop_first(), i - 1);
    }
}

impl HttpHeaders {
    /// The value of the first header with this name, in any case.
    pub fn get(&self, name: &str) -> (r: Option<String>)
        ensures
            opt_view(r) == header_value(*self, spec_str_to_lowercase(name@)),
    {
        let l = str_to_lowercase(name);
        find_value(&self.headers, l.as_str())
    }

    /// Whether the transfer coding, lowercased, mentions `chunked`.
    pub fn is_chunked(&self) -> (r: bool)
        ensures
            r == match self.transfer_encoding {
                Some(te) => first_occurrence(spec_str_to_lowercase(te@), "chunked"@) is Some,
                None => false,
            },
    {
        match &self.transfer_encoding {
            Some(te) => {
                let l = str_to_lowercase(te.as_str());
                find_str(l.as_str(), "chunked").is_some()
            },
            None => false,
        }
    }

    /// Whether the connection stays open: unless the `Connection` value, lowercased,
    /// mentions `close`.
    pub fn is_keep_alive(&self) -> (r: bool)
        ensures
            r == match self.connection {
                Some(c) => first_occurrence(spec_str_to_lowercase(c@), "close"@) is None,
                None => true,
            },
    {
        match &self.connection {
            Some(c) => {
                let l = str_to_lowercase(c.as_str());
                find_str(l.as_str(), "close").is_none()
            },
            None => true,
        }
    }
}

/// Whether a header block has been read to its end: the bytes end with CRLF CRLF.
pub open spec fn block_complete(buf: Seq<u8>) -> bool {
    buf.len() >= 4 && buf.subrange(buf.len() - 4, buf.len() as int) == seq![13u8, 10u8, 13u8, 10u8]
}

/// What reading a header block does after each byte.
#[derive(Debug, Clone, Copy, PartialEq, Eq, Structural)]
pub enum HeaderReadStep {
    /// The block is complete.
    Complete,
    /// The block is over the size limit.
    TooLarge,
    /// More bytes are needed.
    Continue,
}

/// The largest header block read, in bytes.
pub const MAX_HEADER_BLOCK: usize = 262144;

/// What to do once `buf` holds the bytes read so far: stop at CRLF CRLF, give up past
/// 256 KiB, else read on.
pub fn header_read_step(buf: &[u8]) -> (r: HeaderReadStep)
    ensures
        r == (if block_complete(buf@) {
            HeaderReadStep::Complete
        } else if buf@.len() > MAX_HEADER_BLOCK {
            HeaderReadStep::TooLarge
        } else {
            HeaderReadStep::Continue
        }),
{
    let n = buf.len();
    if n >= 4 && buf[n - 4] == 13 && buf[n - 3] == 10 && buf[n - 2] == 13 && buf[n - 1] == 10 {
        assert(buf@.subrange(n - 4, n as int) == seq![13u8, 10u8, 13u8, 10u8]);
        return HeaderReadStep::Complete;
    }
    assert(!block_complete(buf@)) by {
        if n >= 4 && buf@.subrange(n - 4, n as int) == seq![13u8, 10u8, 13u8, 10u8] {
            assert(buf@.subrange(n - 4, n as int)[0] == buf@[n - 4]);
            assert(buf@.subrange(n - 4, n as int)[1] == buf@[n - 3]);
            assert(buf@.subrange(n - 4, n as int)[2] == buf@[n - 2]);
            assert(buf@.subrange(n - 4, n as int)[3] == buf@[n - 1]);
        }
    }
    if n > MAX_HEADER_BLOCK { HeaderReadStep::TooLarge } else { HeaderReadStep::Continue }
}

/// Reads the headers of a header block's bytes, decoded as UTF-8 with replacement (see
/// `headers_parsed`).
pub fn parse_header_bytes(buf: &[u8], has_status_line: bool) -> (r: HttpHeaders)
    ensures
        headers_parsed(utf8_lossy_text(buf@), has_status_line, r),
{
    let text = utf8_lossy(buf);
    parse_headers_from_text(text.as_str(), has_status_line)
}

/// Reads the headers of a header block's text (see `headers_parsed`).
pub fn parse_headers_from_text(text: &str, has_status_line: bool) -> (r: HttpHeaders)
    ensures
        headers_parsed(text@, has_status_line, r),
{
    let all = lines(text);
    let skip: usize = if has_status_line && all.len() > 0 { 1 } else { 0 };
    let ghost ls = lines_spec(text@).skip(skip as int);
    let mut headers: Vec<(String, String)> = Vec::new();
    let mut block: Vec<String> = Vec::new();
    let mut i: usize = skip;
    let mut stop = false;
    while i < all.len() && !stop
        invariant
            skip <= i <= all@.len(),
            views(all@) == lines_spec(text@),
            ls == lines_spec(text@).skip(skip as int),
            views(block@) == ls.take(i - skip),
            forall|j: int| 0 <= j < i - skip ==> !is_blank(#[trigger] ls[j]),
            stop ==> blank_index(ls) == i - skip,
            pair_views(headers@) == line_pairs(views(block@)),
        decreases all@.len() - i, if stop { 0int } else { 1int },
    {
        proof { reveal_strlit(":"); }
        assert(views(all@)[i as int] == all@[i as int]@);
        assert(ls[i - skip] == all@[i as int]@);
        let t = trim(all[i].as_str());
        if t.as_str().is_empty() {
            proof { lemma_blank_index(ls, i - skip); }
            stop = true;
        } else {
            let line = all[i].clone();
            match find_str(line.as_str(), ":") {
                Some(c) => {
                    assert(occurs_at(line@, ":"@, c as int));
                    assert(":"@.len() == 1);
                    let v = chars_of(line.as_str());
                    let n = v.len();
                    let key_text = string_of_chars(&v, 0, c);
                    let value_text = string_of_chars(&v, c + 1, n);
                    let key = trim(key_text.as_str());
                    let value = trim(value_text.as_str());
                    assert(line_pair(line@) == Some((key@, value@)));
                    let ghost before = headers@;
                    headers.push((key, value));
                    assert(pair_views(headers@) == pair_views(before).push((key@, value@)));
                },
                None => {
                    assert(line_pair(line@) is None);
                },
            }
            let ghost bb = block@;
            proof { crate::text::lemma_views_push(bb, line); }
            block.push(line);
            assert(views(block@).drop_last() == views(bb));
            assert(ls.take(i + 1 - skip) == ls.take(i - skip).push(line@));
            i += 1;
        }
    }
    proof {
        if !stop {
            lemma_blank_index(ls, ls.len() as int);
            assert(ls.take(ls.len() as int) == ls);
        }
    }
    let content_length = match find_value(&headers, "content-length") {
        Some(v) => parse_usize(v.as_str()),
        None => None,
    };
    let transfer_encoding = find_value(&headers, "transfer-encoding");
    let connection = find_value(&headers, "connection");
    let content_type = find_value(&headers, "content-type");
    let mut raw_headers = join(&block, "\r\n");
    raw_headers.append("\r\n\r\n");
    HttpHeaders { headers, content_length, transfer_encoding, connection, content_type, raw_headers }
}

} // verus!
