use vstd::prelude::*;
use crate::http_headers::HttpHeaders;
use crate::text::{eq_ignore_ascii_case, ascii_lower, find_str, first_occurrence, split_str, split_str_spec, join,
    join_spec, views, split_whitespace, words_spec, parse_u16, parse_u16_spec};
use crate::location_rewriter::{is_absolute_uri, is_absolute_spec, rewrite_location_to_proxy, uri_path_spec};
use crate::unicode::spec_str_to_lowercase;

verus! {

/// How response bodies are streamed.
#[derive(Clone, Debug)]
pub struct StreamingResponseConfig {
    pub debug: bool,
    /// Whether to mark the response with `X-SCRED-Redacted: true`.
    pub add_scred_header: bool,
}

impl Default for StreamingResponseConfig {
    fn default() -> (c: Self)
        ensures
            !c.debug,
            c.add_scred_header,
    {
        StreamingResponseConfig { debug: false, add_scred_header: true }
    }
}

/// What streaming one response moved and found.
#[derive(Debug, Clone)]
pub struct StreamingStats {
    pub bytes_read: u64,
    pub bytes_written: u64,
    pub chunks_processed: u64,
    pub patterns_found: u64,
}

impl Default for StreamingStats {
    fn default() -> (s: Self)
        ensures
            s.bytes_read == 0 && s.bytes_written == 0 && s.chunks_processed == 0 && s.patterns_found == 0,
    {
        StreamingStats { bytes_read: 0, bytes_written: 0, chunks_processed: 0, patterns_found: 0 }
    }
}

/// `s` with ASCII letters lowercased.
pub open spec fn folded(s: Seq<char>) -> Seq<char> {
    s.map_values(|c: char| ascii_lower(c))
}

/// Whether a header name is one the proxy sets itself on the way to the client.
pub open spec fn framing_header(name: Seq<char>) -> bool {
    folded(name) == folded("content-length"@) || folded(name) == folded("transfer-encoding"@)
        || folded(name) == folded("connection"@)
}

/// The pairs whose names are not framing headers, in order.
pub open spec fn without_framing(pairs: Seq<(String, String)>) -> Seq<(String, String)>
    decreases pairs.len(),
{
    if pairs.len() == 0 {
        Seq::empty()
    } else if framing_header(pairs.last().0@) {
        without_framing(pairs.drop_last())
    } else {
        without_framing(pairs.drop_last()).push(pairs.last())
    }
}

/// The headers forwarded to the client: all but `Content-Length`, `Transfer-Encoding` and
/// `Connection`, in any case.
pub fn forwarded_headers(headers: &Vec<(String, String)>) -> (r: Vec<(String, String)>)
    ensures
        r@ == without_framing(headers@),
{
    let mut out: Vec<(String, String)> = Vec::new();
    let mut i: usize = 0;
    while i < headers.len()
        invariant
            i <= headers@.len(),
            out@ == without_framing(headers@.take(i as int)),
        decreases headers@.len() - i,
    {
        assert(headers@.take(i + 1).drop_last() == headers@.take(i as int));
        let k = headers[i].0.as_str();
        let skip = eq_ignore_ascii_case(k, "content-length") || eq_ignore_ascii_case(k, "transfer-encoding")
            || eq_ignore_ascii_case(k, "connection");
        if !skip {
            out.push((headers[i].0.clone(), headers[i].1.clone()));
        }
        i += 1;
    }
    assert(headers@.take(headers@.len() as int) == headers@);
    out
}

/// `s` with every occurrence of `pat` replaced by `rep`, from the left.
pub open spec fn replace_spec(s: Seq<char>, pat: Seq<char>, rep: Seq<char>) -> Seq<char> {
    join_spec(split_str_spec(s, pat), rep)
}

/// A Location value with the default port dropped: `:443/` from an `https://` URL, else
/// `:80/` from an `http://` URL.
pub open spec fn location_normalized(loc: Seq<char>) -> Seq<char> {
    if first_occurrence(loc, "https://"@) is Some && first_occurrence(loc, ":443/"@) is Some {
        replace_spec(loc, ":443/"@, "/"@)
    } else if first_occurrence(loc, "http://"@) is Some && first_occurrence(loc, ":80/"@) is Some {
        replace_spec(loc, ":80/"@, "/"@)
    } else {
        loc
    }
}

/// The position of the first header named `Location`, in any case.
pub open spec fn location_index(headers: Seq<(String, String)>) -> Option<int>
    decreases headers.len(),
{
    if headers.len() == 0 {
        None
    } else {
        match location_index(headers.drop_last()) {
            Some(i) => Some(i),
            None => if folded(headers.last().0@) == folded("Location"@) { Some(headers.len() - 1) } else { None },
        }
    }
}

/// The Location value sent to the client: normalized, and pointed at the proxy when a
/// proxy host is given and the value is an absolute URI.
pub open spec fn location_sent(loc: Seq<char>, proxy_host: Option<Seq<char>>, client_scheme: Option<Seq<char>>) -> Seq<char> {
    let n = location_normalized(loc);
    match proxy_host {
        Some(p) => if is_absolute_spec(n) {
            (match client_scheme { Some(s) => s, None => "http"@ }) + "://"@ + p + uri_path_spec(n)
        } else {
            n
        },
        None => n,
    }
}

fn replace_all(s: &str, pat: &str, rep: &str) -> (r: String)
    requires
        pat@.len() > 0,
    ensures
        r@ == replace_spec(s@, pat@, rep@),
{
    let pieces = split_str(s, pat);
    join(&pieces, rep)
}

/// Rewrites the first Location header (see `location_sent`); the other headers stay.
pub fn normalize_location_header(
    headers: &mut Vec<(String, String)>,
    upstream_host: Option<&str>,
    proxy_host: Option<&str>,
    client_scheme: Option<&str>,
)
    ensures
        match location_index(old(headers)@) {
            Some(i) => final(headers)@ == old(headers)@.update(i, (old(headers)@[i].0,
                final(headers)@[i].1)) && final(headers)@[i].1@ == location_sent(old(headers)@[i].1@,
                match proxy_host { Some(p) => Some(p@), None => None },
                match client_scheme { Some(c) => Some(c@), None => None }),
            None => final(headers)@ == old(headers)@,
        },
{
    let mut pos: usize = 0;
    let n = headers.len();
    let mut found = false;
    while pos < n && !found
        invariant
            pos <= n,
            n == headers@.len(),
            location_index(headers@.take(pos as int)) is None,
            found ==> pos < n && folded(headers@[pos as int].0@) == folded("Location"@),
        decreases n - pos, if found { 0int } else { 1int },
    {
        if eq_ignore_ascii_case(headers[pos].0.as_str(), "Location") {
            found = true;
        } else {
            assert(headers@.take(pos + 1).drop_last() == headers@.take(pos as int));
            pos += 1;
        }
    }
    if !found {
        assert(headers@.take(n as int) == headers@);
        return;
    }
    proof { lemma_location_index_prefix(headers@, pos as int); }
    let value = location_value(headers[pos].1.as_str(), proxy_host, client_scheme);
    let name = headers[pos].0.clone();
    headers.set(pos, (name, value));
}

/// The Location value sent to the client (see `location_sent`).
fn location_value(loc: &str, proxy_host: Option<&str>, client_scheme: Option<&str>) -> (r: String)
    ensures
        r@ == location_sent(loc@, match proxy_host { Some(p) => Some(p@), None => None },
            match client_scheme { Some(c) => Some(c@), None => None }),
{
    proof {
        reveal_strlit(":443/");
        reveal_strlit(":80/");
    }
    let location = if find_str(loc, "https://").is_some() && find_str(loc, ":443/").is_some() {
        replace_all(loc, ":443/", "/")
    } else if find_str(loc, "http://").is_some() && find_str(loc, ":80/").is_some() {
        replace_all(loc, ":80/", "/")
    } else {
        String::from_str(loc)
    };
    match proxy_host {
        Some(p) => if is_absolute_uri(location.as_str()) {
            let scheme = match client_scheme { Some(c) => c, None => "http" };
            rewrite_location_to_proxy(location.as_str(), scheme, p)
        } else {
            location
        },
        None => location,
    }
}

proof fn lemma_location_index_prefix(headers: Seq<(String, String)>, pos: int)
    requires
        0 <= pos < headers.len(),
        location_index(headers.take(pos)) is None,
        folded(headers[pos].0@) == folded("Location"@),
    ensures
        location_index(headers) == Some(pos),
    decreases headers.len() - pos,
{
    if pos + 1 < headers.len() {
        assert(headers.take(pos + 1).drop_last() == headers.take(pos));
        lemma_location_index_extends(headers, pos + 1, pos);
    } else {
        assert(headers.drop_last() == headers.take(pos));
    }
}

proof fn lemma_location_index_extends(headers: Seq<(String, String)>, k: int, pos: int)
    requires
        0 < k <= headers.len(),
        location_index(headers.take(k)) == Some(pos),
    ensures
        location_index(headers) == Some(pos),
    decreases headers.len() - k,
{
    if k < headers.len() {
        assert(headers.take(k + 1).drop_last() == headers.take(k));
        lemma_location_index_extends(headers, k + 1, pos);
    } else {
        assert(headers.take(k) == headers);
    }
}

/// The header lines sent to the client: each pair as `name: value` and CRLF, then
/// `Connection: close`, then the redaction mark when configured.
pub open spec fn header_text(pairs: Seq<(String, String)>) -> Seq<char>
    decreases pairs.len(),
{
    if pairs.len() == 0 {
        Seq::empty()
    } else {
        header_text(pairs.drop_last()) + pairs.last().0@ + ": "@ + pairs.last().1@ + "\r\n"@
    }
}

/// The header lines sent to the client (see `header_text`), before redaction.
pub fn response_header_block(forwarded: &Vec<(String, String)>, add_scred_header: bool) -> (r: String)
    ensures
        r@ == header_text(forwarded@) + "Connection: close\r\n"@
            + (if add_scred_header { "X-SCRED-Redacted: true\r\n"@ } else { Seq::empty() }),
{
    let mut text = String::new();
    let mut i: usize = 0;
    while i < forwarded.len()
        invariant
            i <= forwarded@.len(),
            text@ == header_text(forwarded@.take(i as int)),
        decreases forwarded@.len() - i,
    {
        assert(forwarded@.take(i + 1).drop_last() == forwarded@.take(i as int));
        text.append(forwarded[i].0.as_str());
        text.append(": ");
        text.append(forwarded[i].1.as_str());
        text.append("\r\n");
        i += 1;
    }
    assert(forwarded@.take(forwarded@.len() as int) == forwarded@);
    text.append("Connection: close\r\n");
    if add_scred_header {
        text.append("X-SCRED-Redacted: true\r\n");
    }
    text
}

/// The status code of a response line: its second word as a 16-bit number, else 0.
pub open spec fn status_of_line(line: Seq<char>) -> u16 {
    let w = words_spec(line);
    if w.len() < 2 {
        0
    } else {
        match parse_u16_spec(w[1]) {
            Some(c) => c,
            None => 0,
        }
    }
}

/// Whether a response of this status carries no body: 1xx, 204 and 304.
pub fn response_is_head_or_bodyless(response_line: &str) -> (r: bool)
    ensures
        r == ({
            let c = status_of_line(response_line@);
            (100 <= c < 200) || c == 204 || c == 304
        }),
{
    let parts = split_whitespace(response_line);
    let code: u16 = if parts.len() < 2 {
        0
    } else {
        assert(views(parts@)[1] == parts@[1]@);
        match parse_u16(parts[1].as_str()) {
            Some(c) => c,
            None => 0,
        }
    };
    (100 <= code && code < 200) || code == 204 || code == 304
}

/// How a response body reaches the proxy.
#[derive(Debug, Clone, Copy, PartialEq, Eq, Structural)]
pub enum ResponseBody {
    /// The status allows no body, or the headers announce none.
    Empty,
    /// Exactly this many bytes follow.
    Length(usize),
    /// A chunked body.
    Chunked,
}

/// How the body of a response is read: none for bodyless statuses, then by length, then
/// by chunked coding.
pub fn response_body(response_line: &str, headers: &HttpHeaders) -> (r: ResponseBody)
    ensures
        r == ({
            let c = status_of_line(response_line@);
            if (100 <= c < 200) || c == 204 || c == 304 {
                ResponseBody::Empty
            } else {
                match headers.content_length {
                    Some(n) => ResponseBody::Length(n),
                    None => match headers.transfer_encoding {
                        Some(te) => if first_occurrence(spec_str_to_lowercase(te@), "chunked"@) is Some {
                            ResponseBody::Chunked
                        } else {
                            ResponseBody::Empty
                        },
                        None => ResponseBody::Empty,
                    },
                }
            }
        }),
{
    if response_is_head_or_bodyless(response_line) {
        return ResponseBody::Empty;
    }
    match headers.content_length {
        Some(n) => ResponseBody::Length(n),
        None => if headers.is_chunked() { ResponseBody::Chunked } else { ResponseBody::Empty },
    }
}

} // verus!
