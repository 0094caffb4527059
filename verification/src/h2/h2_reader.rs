use vstd::prelude::*;
use crate::text::{chars_of, decimal, push_decimal, push_char};
use crate::unicode::{char_to_uppercase, spec_to_uppercase};

verus! {

/// `http::HeaderMap`, a multimap from header names to values.
#[verifier::external_type_specification]
#[verifier::external_body]
#[verifier::reject_recursive_types(T)]
pub struct ExHeaderMap<T>(http::HeaderMap<T>);

/// `http::HeaderValue`, the value type of a header map.
#[verifier::external_type_specification]
#[verifier::external_body]
pub struct ExHeaderValue(http::HeaderValue);

/// What a header map holds, in its iteration order: each name (as `HeaderName::as_str`
/// gives it) with each of its values, as text where `HeaderValue::to_str` accepts it.
pub uninterp spec fn header_entries(m: http::HeaderMap) -> Seq<(Seq<char>, Option<Seq<char>>)>;

/// The header entries by their characters.
pub open spec fn entries_view(s: Seq<(String, Option<String>)>) -> Seq<(Seq<char>, Option<Seq<char>>)> {
    s.map_values(|e: (String, Option<String>)| (e.0@, match e.1 { Some(v) => Some(v@), None => None }))
}

/// Lists the entries of a header map with `HeaderMap::iter`, each name by `as_str` and each
/// value by `to_str` (`None` where the value is not visible ASCII).
///
/// Trusted: the list is what `header_entries` names; it is that function of the map alone.
#[verifier::external_body]
pub(crate) fn header_map_entries(m: &http::HeaderMap) -> (r: Vec<(String, Option<String>)>)
    ensures
        entries_view(r@) == header_entries(*m),
{
    let mut out = Vec::new();
    for (name, value) in m.iter() {
        out.push((name.as_str().to_string(), value.to_str().ok().map(|s| s.to_string())));
    }
    out
}

/// Looks up `:status` with `HeaderMap::get`.
///
/// Trusted: `get` with a `&str` key parses the key as a header name before the lookup, and
/// `:` is not a header-name character, so the parse fails and `get` returns `None` whatever
/// the map holds (http 1.5.0, `HdrName::from_bytes` in the `&str` lookup).
#[verifier::external_body]
pub(crate) fn header_map_status(m: &http::HeaderMap) -> (r: Option<Option<String>>)
    ensures
        r is None,
{
    m.get(":status").map(|v| v.to_str().ok().map(|s| s.to_string()))
}

/// Tracks a response being read: whether its headers are complete, and its status.
pub struct H2ResponseReader {
    headers_complete: bool,
    status_code: Option<u16>,
}

impl H2ResponseReader {
    /// Whether the headers are complete.
    pub closed spec fn complete(&self) -> bool {
        self.headers_complete
    }

    /// The status, once set.
    pub closed spec fn status(&self) -> Option<u16> {
        self.status_code
    }

    /// Headers not complete, no status.
    pub fn new() -> (r: Self)
        ensures
            !r.complete(),
            r.status() is None,
    {
        H2ResponseReader { headers_complete: false, status_code: None }
    }

    /// Whether the headers are complete.
    pub fn is_headers_complete(&self) -> (r: bool)
        ensures
            r == self.complete(),
    {
        self.headers_complete
    }

    /// Marks the headers complete.
    pub fn set_headers_complete(&mut self)
        ensures
            final(self).complete(),
            final(self).status() == old(self).status(),
    {
        self.headers_complete = true;
    }

    /// Sets the status.
    pub fn set_status_code(&mut self, code: u16)
        ensures
            final(self).status() == Some(code),
            final(self).complete() == old(self).complete(),
    {
        self.status_code = Some(code);
    }

    /// The status, once set.
    pub fn status_code(&self) -> (r: Option<u16>)
        ensures
            r == self.status(),
    {
        self.status_code
    }
}

impl Default for H2ResponseReader {
    fn default() -> (r: Self)
        ensures
            !r.complete(),
            r.status() is None,
    {
        Self::new()
    }
}

/// The reason phrase this converter uses for a status code.
pub open spec fn status_text_spec(code: u16) -> Seq<char> {
    if code == 100 { "Continue"@ }
    else if code == 101 { "Switching Protocols"@ }
    else if code == 200 { "OK"@ }
    else if code == 201 { "Created"@ }
    else if code == 202 { "Accepted"@ }
    else if code == 204 { "No Content"@ }
    else if code == 206 { "Partial Content"@ }
    else if code == 300 { "Multiple Choices"@ }
    else if code == 301 { "Moved Permanently"@ }
    else if code == 302 { "Found"@ }
    else if code == 304 { "Not Modified"@ }
    else if code == 400 { "Bad Request"@ }
    else if code == 401 { "Unauthorized"@ }
    else if code == 403 { "Forbidden"@ }
    else if code == 404 { "Not Found"@ }
    else if code == 405 { "Method Not Allowed"@ }
    else if code == 500 { "Internal Server Error"@ }
    else if code == 501 { "Not Implemented"@ }
    else if code == 502 { "Bad Gateway"@ }
    else if code == 503 { "Service Unavailable"@ }
    else { "Unknown"@ }
}

/// The reason phrase for a status code; "Unknown" for codes it does not list.
pub fn status_text(code: u16) -> (r: &'static str)
    ensures
        r@ == status_text_spec(code),
{
    match code {
        100 => "Continue",
        101 => "Switching Protocols",
        200 => "OK",
        201 => "Created",
        202 => "Accepted",
        204 => "No Content",
        206 => "Partial Content",
        300 => "Multiple Choices",
        301 => "Moved Permanently",
        302 => "Found",
        304 => "Not Modified",
        400 => "Bad Request",
        401 => "Unauthorized",
        403 => "Forbidden",
        404 => "Not Found",
        405 => "Method Not Allowed",
        500 => "Internal Server Error",
        501 => "Not Implemented",
        502 => "Bad Gateway",
        503 => "Service Unavailable",
        _ => "Unknown",
    }
}

/// A header name in Title-Case: the first character and each one after a `-` uppercased.
pub open spec fn title_case_spec(s: Seq<char>) -> Seq<char>
    decreases s.len(),
{
    if s.len() == 0 {
        Seq::empty()
    } else {
        let i = s.len() - 1;
        let c = s[i];
        title_case_spec(s.drop_last()) + if i == 0 || s[i - 1] == '-' { spec_to_uppercase(c) } else { seq![c] }
    }
}

/// Writes a header name in Title-Case (`content-type` becomes `Content-Type`).
pub fn title_case(s: &str) -> (r: String)
    ensures
        r@ == title_case_spec(s@),
{
    let v = chars_of(s);
    let mut out = String::new();
    let mut i: usize = 0;
    while i < v.len()
        invariant
            i <= v@.len(),
            v@ == s@,
            out@ == title_case_spec(s@.take(i as int)),
        decreases v@.len() - i,
    {
        let c = v[i];
        assert(s@.take(i + 1).drop_last() =~= s@.take(i as int));
        if i == 0 || v[i - 1] == '-' {
            let up = char_to_uppercase(c);
            out.append(up.as_str());
        } else {
            push_char(&mut out, c);
        }
        i += 1;
    }
    assert(s@.take(i as int) =~= s@);
    out
}

/// The HTTP/1.1 header lines for `entries`: pseudo-headers and values that are not text are
/// left out, names go to Title-Case.
pub open spec fn header_lines(entries: Seq<(Seq<char>, Option<Seq<char>>)>) -> Seq<char>
    decreases entries.len(),
{
    if entries.len() == 0 {
        Seq::empty()
    } else {
        let (name, value) = entries.last();
        header_lines(entries.drop_last()) + match value {
            Some(v) => if name.len() > 0 && name[0] == ':' {
                Seq::empty()
            } else {
                title_case_spec(name) + ": "@ + v + "\r\n"@
            },
            None => Seq::empty(),
        }
    }
}

/// The HTTP/1.1 response head for a status and header entries.
pub open spec fn http11_head_spec(status_code: u16, entries: Seq<(Seq<char>, Option<Seq<char>>)>) -> Seq<char> {
    "HTTP/1.1 "@ + decimal(status_code as nat) + " "@ + status_text_spec(status_code) + "\r\n"@
        + header_lines(entries) + "\r\n"@
}

/// Writes the HTTP/1.1 response head for a status and header entries.
pub fn http11_head(status_code: u16, entries: &Vec<(String, Option<String>)>) -> (r: String)
    ensures
        r@ == http11_head_spec(status_code, entries_view(entries@)),
{
    let mut out = String::from_str("HTTP/1.1 ");
    push_decimal(&mut out, status_code as u64);
    out.append(" ");
    out.append(status_text(status_code));
    out.append("\r\n");
    let ghost prefix = out@;
    let mut i: usize = 0;
    while i < entries.len()
        invariant
            i <= entries@.len(),
            out@ == prefix + header_lines(entries_view(entries@).take(i as int)),
        decreases entries@.len() - i,
    {
        let (name, value) = &entries[i];
        assert(entries_view(entries@).take(i + 1).drop_last() =~= entries_view(entries@).take(i as int));
        assert(entries_view(entries@).take(i + 1).last() == entries_view(entries@)[i as int]);
        match value {
            Some(v) => {
                let colon = crate::text::starts_with_char(name.as_str(), ':');
                if !colon {
                    out.append(title_case(name.as_str()).as_str());
                    out.append(": ");
                    out.append(v.as_str());
                    out.append("\r\n");
                }
            },
            None => {},
        }
        i += 1;
    }
    assert(entries_view(entries@).take(i as int) =~= entries_view(entries@));
    out.append("\r\n");
    out
}

/// Converts HTTP/2 response headers to an HTTP/1.1 head.
pub struct H2ResponseConverter;

impl H2ResponseConverter {
    /// The HTTP/1.1 head for a status and the entries of a header map.
    pub fn headers_to_http11(status_code: u16, headers: &http::HeaderMap) -> (r: Result<String, String>)
        ensures
            r matches Ok(s) && s@ == http11_head_spec(status_code, header_entries(*headers)),
    {
        let entries = header_map_entries(headers);
        Ok(http11_head(status_code, &entries))
    }
}

} // verus!
