use vstd::prelude::*;
use std::collections::HashMap;
use crate::string_map::{lists_map, map_entries};
use crate::text::{
    str_eq, concat_str, trim, trim_spec, find_str, first_occurrence, chars_of, string_of_chars, views,
    split_whitespace, words_spec, join_with_space, join_spec, parse_u16, parse_u16_spec, parse_usize,
    parse_usize_spec, starts_with_str, decimal, push_decimal, utf8_lossy, utf8_lossy_text,
};
use crate::unicode::{str_to_lowercase, spec_str_to_lowercase, str_to_uppercase, spec_str_to_uppercase};

verus! {

/// Whether a header name matches `key` without regard to case.
pub open spec fn key_matches(k: String, key: Seq<char>) -> bool {
    spec_str_to_lowercase(k@) == spec_str_to_lowercase(key)
}

/// How a case-insensitive header lookup may answer: with the value of some matching name
/// (which one, when several match, depends on the map's iteration order), or with nothing
/// when no name matches.
pub open spec fn lookup_outcome(r: Option<String>, headers: Map<String, String>, key: Seq<char>) -> bool {
    match r {
        Some(v) => exists|k: String| #[trigger] headers.contains_key(k) && key_matches(k, key) && headers[k] == v,
        None => forall|k: String| #[trigger] headers.contains_key(k) ==> !key_matches(k, key),
    }
}

/// The value of a header, matched without regard to case.
fn find_header(headers: &HashMap<String, String>, key: &str) -> (r: Option<String>)
    ensures
        lookup_outcome(r, headers@, key@),
{
    let key_lower = str_to_lowercase(key);
    let entries = map_entries(headers);
    let mut i: usize = 0;
    while i < entries.len()
        invariant
            i <= entries@.len(),
            lists_map(entries@, headers@),
            key_lower@ == spec_str_to_lowercase(key@),
            forall|j: int| 0 <= j < i ==> !key_matches(#[trigger] entries@[j].0, key@),
        decreases entries@.len() - i,
    {
        let (k, v) = &entries[i];
        let kl = str_to_lowercase(k.as_str());
        if str_eq(kl.as_str(), key_lower.as_str()) {
            assert(headers@.contains_key(entries@[i as int].0));
            return Some(v.clone());
        }
        i += 1;
    }
    assert forall|k: String| #[trigger] headers@.contains_key(k) implies !key_matches(k, key@) by {
        let j = choose|j: int| 0 <= j < entries@.len() && entries@[j].0 == k;
        assert(!key_matches(entries@[j].0, key@));
    }
    None
}

/// How the content length is read from a lookup of `content-length`.
pub open spec fn length_outcome(r: Option<usize>, headers: Map<String, String>) -> bool {
    (exists|k: String| #[trigger] headers.contains_key(k) && key_matches(k, "content-length"@)
        && r == parse_usize_spec(headers[k]@))
    || ((forall|k: String| #[trigger] headers.contains_key(k) ==> !key_matches(k, "content-length"@)) && r is None)
}

/// How chunked transfer is read from a lookup of `transfer-encoding`: the value is exactly
/// `chunked` or `Chunked`.
pub open spec fn chunked_outcome(r: bool, headers: Map<String, String>) -> bool {
    (exists|k: String| #[trigger] headers.contains_key(k) && key_matches(k, "transfer-encoding"@)
        && r == (headers[k]@ == "chunked"@ || headers[k]@ == "Chunked"@))
    || ((forall|k: String| #[trigger] headers.contains_key(k) ==> !key_matches(k, "transfer-encoding"@)) && !r)
}

fn content_length_of(headers: &HashMap<String, String>) -> (r: Option<usize>)
    ensures
        length_outcome(r, headers@),
{
    match find_header(headers, "content-length") {
        Some(v) => parse_usize(v.as_str()),
        None => None,
    }
}

fn is_chunked_of(headers: &HashMap<String, String>) -> (r: bool)
    ensures
        chunked_outcome(r, headers@),
{
    match find_header(headers, "transfer-encoding") {
        Some(v) => str_eq(v.as_str(), "chunked") || str_eq(v.as_str(), "Chunked"),
        None => false,
    }
}

/// The header lines of `entries`: `name: value` and a CRLF each.
pub open spec fn header_text(entries: Seq<(String, String)>) -> Seq<char>
    decreases entries.len(),
{
    if entries.len() == 0 {
        Seq::empty()
    } else {
        header_text(entries.drop_last()) + entries.last().0@ + ": "@ + entries.last().1@ + "\r\n"@
    }
}

/// Appends the header lines of a map, in its iteration order; the order used is returned.
fn push_header_text(out: &mut String, headers: &HashMap<String, String>) -> (entries: Ghost<Seq<(String, String)>>)
    ensures
        lists_map(entries@, headers@),
        final(out)@ == old(out)@ + header_text(entries@),
{
    let es = map_entries(headers);
    let ghost start = out@;
    let mut i: usize = 0;
    while i < es.len()
        invariant
            i <= es@.len(),
            out@ == start + header_text(es@.take(i as int)),
        decreases es@.len() - i,
    {
        assert(es@.take(i + 1).drop_last() =~= es@.take(i as int));
        let (k, v) = &es[i];
        out.append(k.as_str());
        out.append(": ");
        out.append(v.as_str());
        out.append("\r\n");
        i += 1;
    }
    assert(es@.take(i as int) =~= es@);
    Ghost(es@)
}

/// A parsed HTTP/1.1 request.
#[derive(Debug, Clone)]
pub struct HttpRequest {
    pub method: String,
    pub path: String,
    pub version: String,
    pub headers: HashMap<String, String>,
    pub body: Vec<u8>,
}

impl HttpRequest {
    /// The value of a header, matched without regard to case.
    pub fn get_header(&self, key: &str) -> (r: Option<String>)
        ensures
            lookup_outcome(r, self.headers@, key@),
    {
        find_header(&self.headers, key)
    }

    /// The Content-Length, when present and a number.
    pub fn content_length(&self) -> (r: Option<usize>)
        ensures
            length_outcome(r, self.headers@),
    {
        content_length_of(&self.headers)
    }

    /// Whether Transfer-Encoding is `chunked`.
    pub fn is_chunked(&self) -> (r: bool)
        ensures
            chunked_outcome(r, self.headers@),
    {
        is_chunked_of(&self.headers)
    }

    /// The request as text for scanning: request line, header lines (in the map's order),
    /// a blank line, and the body decoded leniently as UTF-8.
    pub fn all_text(&self) -> (r: String)
        ensures
            exists|entries: Seq<(String, String)>| lists_map(entries, self.headers@)
                && r@ == self.method@ + " "@ + self.path@ + " "@ + self.version@ + "\r\n"@ + header_text(entries)
                    + "\r\n"@ + utf8_lossy_text(self.body@),
    {
        let mut text = concat_str(self.method.as_str(), " ");
        text.append(self.path.as_str());
        text.append(" ");
        text.append(self.version.as_str());
        text.append("\r\n");
        let ghost start = text@;
        let entries = push_header_text(&mut text, &self.headers);
        text.append("\r\n");
        let body = utf8_lossy(self.body.as_slice());
        text.append(body.as_str());
        assert(lists_map(entries@, self.headers@));
        text
    }
}

/// A parsed HTTP/1.1 response.
#[derive(Debug, Clone)]
pub struct HttpResponse {
    pub version: String,
    pub status_code: u16,
    pub reason: String,
    pub headers: HashMap<String, String>,
    pub body: Vec<u8>,
}

impl HttpResponse {
    /// The value of a header, matched without regard to case.
    pub fn get_header(&self, key: &str) -> (r: Option<String>)
        ensures
            lookup_outcome(r, self.headers@, key@),
    {
        find_header(&self.headers, key)
    }

    /// The Content-Length, when present and a number.
    pub fn content_length(&self) -> (r: Option<usize>)
        ensures
            length_outcome(r, self.headers@),
    {
        content_length_of(&self.headers)
    }

    /// Whether Transfer-Encoding is `chunked`.
    pub fn is_chunked(&self) -> (r: bool)
        ensures
            chunked_outcome(r, self.headers@),
    {
        is_chunked_of(&self.headers)
    }

    /// The response as text for scanning: `HTTP/version status reason`, header lines (in
    /// the map's order), a blank line, and the body decoded leniently as UTF-8.
    pub fn all_text(&self) -> (r: String)
        ensures
            exists|entries: Seq<(String, String)>| lists_map(entries, self.headers@)
                && r@ == "HTTP/"@ + self.version@ + " "@ + decimal(self.status_code as nat) + " "@ + self.reason@
                    + "\r\n"@ + header_text(entries) + "\r\n"@ + utf8_lossy_text(self.body@),
    {
        let mut text = String::from_str("HTTP/");
        text.append(self.version.as_str());
        text.append(" ");
        push_decimal(&mut text, self.status_code as u64);
        text.append(" ");
        text.append(self.reason.as_str());
        text.append("\r\n");
        let entries = push_header_text(&mut text, &self.headers);
        text.append("\r\n");
        let body = utf8_lossy(self.body.as_slice());
        text.append(body.as_str());
        assert(lists_map(entries@, self.headers@));
        text
    }
}

/// What a request line gives: the method (uppercased), path and version, its first three
/// words once trimmed; fewer than three words are refused.
pub open spec fn request_line_spec(line: Seq<char>) -> Result<(Seq<char>, Seq<char>, Seq<char>), Seq<char>> {
    let t = trim_spec(line);
    let w = words_spec(t);
    if w.len() < 3 {
        Err("Invalid request line: "@ + t)
    } else {
        Ok((spec_str_to_uppercase(w[0]), w[1], w[2]))
    }
}

/// Parses a request line (see `request_line_spec`).
pub fn parse_request_line(line: &str) -> (r: Result<(String, String, String), String>)
    ensures
        match request_line_spec(line@) {
            Ok((m, p, v)) => r matches Ok((rm, rp, rv)) && rm@ == m && rp@ == p && rv@ == v,
            Err(e) => r matches Err(re) && re@ == e,
        },
{
    let t = trim(line);
    let parts = split_whitespace(t.as_str());
    if parts.len() < 3 {
        return Err(concat_str("Invalid request line: ", t.as_str()));
    }
    assert(parts@[0]@ == views(parts@)[0] && parts@[1]@ == views(parts@)[1] && parts@[2]@ == views(parts@)[2]);
    let method = str_to_uppercase(parts[0].as_str());
    Ok((method, parts[1].clone(), parts[2].clone()))
}

/// What a header line gives: the trimmed name before its first colon and the trimmed value
/// after it; nothing for a line without a colon.
pub open spec fn header_line_spec(line: Seq<char>) -> Option<(Seq<char>, Seq<char>)> {
    let t = trim_spec(line);
    match first_occurrence(t, ":"@) {
        Some(i) => Some((trim_spec(t.take(i)), trim_spec(t.skip(i + 1)))),
        None => None,
    }
}

/// Parses a header line (see `header_line_spec`).
pub fn parse_header_line(line: &str) -> (r: Option<(String, String)>)
    ensures
        match header_line_spec(line@) {
            Some((k, v)) => r matches Some((rk, rv)) && rk@ == k && rv@ == v,
            None => r is None,
        },
{
    let t = trim(line);
    proof { reveal_strlit(":"); }
    match find_str(t.as_str(), ":") {
        Some(i) => {
            let v = chars_of(t.as_str());
            let n = v.len();
            let key = string_of_chars(&v, 0, i);
            let value = string_of_chars(&v, i + 1, n);
            assert(key@ =~= t@.take(i as int));
            assert(value@ =~= t@.skip(i + 1));
            Some((trim(key.as_str()), trim(value.as_str())))
        },
        None => None,
    }
}

/// The text of the error `str::parse::<u16>` reports for `s`.
pub uninterp spec fn int_error_text(s: Seq<char>) -> Seq<char>;

/// The message of `str::parse::<u16>`'s error for `s`.
///
/// Trusted: the message is what `int_error_text` names, a function of the text.
#[verifier::external_body]
fn parse_u16_error(s: &str) -> (r: String)
    ensures
        r@ == int_error_text(s@),
{
    match s.parse::<u16>() {
        Ok(_) => String::new(),
        Err(e) => e.to_string(),
    }
}

/// What a status line gives: the version after `HTTP/` (1.1 when the first word lacks it),
/// the status, and the remaining words joined by spaces; fewer than two words, or a status
/// that is not a 16-bit number, are refused.
pub open spec fn status_line_spec(line: Seq<char>) -> Result<(Seq<char>, u16, Seq<char>), Seq<char>> {
    let t = trim_spec(line);
    let w = words_spec(t);
    if w.len() < 2 {
        Err("Invalid status line: "@ + t)
    } else {
        let version = if "HTTP/"@.is_prefix_of(w[0]) { w[0].skip(5) } else { "1.1"@ };
        match parse_u16_spec(w[1]) {
            Some(code) => Ok((version, code, join_spec(w.skip(2), " "@))),
            None => Err(int_error_text(w[1])),
        }
    }
}

/// Parses a status line (see `status_line_spec`).
pub fn parse_status_line(line: &str) -> (r: Result<(String, u16, String), String>)
    ensures
        match status_line_spec(line@) {
            Ok((v, c, reason)) => r matches Ok((rv, rc, rr)) && rv@ == v && rc == c && rr@ == reason,
            Err(e) => r matches Err(re) && re@ == e,
        },
{
    let t = trim(line);
    let parts = split_whitespace(t.as_str());
    if parts.len() < 2 {
        return Err(concat_str("Invalid status line: ", t.as_str()));
    }
    assert(parts@[0]@ == views(parts@)[0] && parts@[1]@ == views(parts@)[1]);
    proof { reveal_strlit("HTTP/"); reveal_strlit("1.1"); }
    let version = if starts_with_str(parts[0].as_str(), "HTTP/") {
        let v = chars_of(parts[0].as_str());
        let n = v.len();
        let s = string_of_chars(&v, 5, n);
        assert(s@ =~= parts@[0]@.skip(5));
        s
    } else {
        String::from_str("1.1")
    };
    let status_code = match parse_u16(parts[1].as_str()) {
        Some(c) => c,
        None => { return Err(parse_u16_error(parts[1].as_str())); },
    };
    let reason = join_with_space(&parts, 2);
    Ok((version, status_code, reason))
}

} // verus!
