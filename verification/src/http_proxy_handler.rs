use vstd::prelude::*;
use crate::text::{
    chars_of, string_of_chars, starts_with_str, find_str, first_occurrence, rfind_char, last_index,
    parse_u16, parse_u16_spec, lines, lines_spec, views, split_char, split_spec, split_str,
    split_str_spec, trim, trim_spec, concat_str, decimal, push_decimal,
};
use crate::unicode::{str_to_lowercase, spec_str_to_lowercase};
use crate::h2::header_validation::utf8_len;

verus! {

/// Which proxy headers to add to forwarded responses.
#[derive(Clone, Debug)]
pub struct HttpProxyConfig {
    pub add_via_header: bool,
    pub add_scred_header: bool,
}

impl Default for HttpProxyConfig {
    fn default() -> (c: Self)
        ensures
            c.add_via_header && c.add_scred_header,
    {
        HttpProxyConfig { add_via_header: true, add_scred_header: true }
    }
}

/// A proxy request target without its `http://` or `https://` scheme.
pub open spec fn strip_scheme(url: Seq<char>) -> Seq<char> {
    if "http://"@.is_prefix_of(url) {
        url.skip(7)
    } else if "https://"@.is_prefix_of(url) {
        url.skip(8)
    } else {
        url
    }
}

/// The host, port and path of a proxy request target such as `http://host:port/path`:
/// the path starts at the first `/` (`/` when there is none), the port follows the last `:`
/// of the authority (80 when there is none); a port that is not a 16-bit number is refused.
pub open spec fn proxy_url_spec(url: Seq<char>) -> Result<(Seq<char>, u16, Seq<char>), Seq<char>> {
    let u = strip_scheme(url);
    let (host_port, path) = match first_occurrence(u, "/"@) {
        Some(i) => (u.take(i), u.skip(i)),
        None => (u, "/"@),
    };
    match last_index(host_port, ':') {
        Some(j) => match parse_u16_spec(host_port.skip(j + 1)) {
            Some(port) => Ok((host_port.take(j), port, path)),
            None => Err("Invalid port"@),
        },
        None => Ok((host_port, 80u16, path)),
    }
}

/// Splits a proxy request target into host, port and path (see `proxy_url_spec`).
pub fn parse_proxy_url(url: &str) -> (r: Result<(String, u16, String), String>)
    ensures
        match proxy_url_spec(url@) {
            Ok((h, p, path)) => r matches Ok((rh, rp, rpath)) && rh@ == h && rp == p && rpath@ == path,
            Err(m) => r matches Err(e) && e@ == m,
        },
{
    proof { reveal_strlit("http://"); reveal_strlit("https://"); reveal_strlit("/"); }
    let v = chars_of(url);
    let n = v.len();
    let u = if starts_with_str(url, "http://") {
        string_of_chars(&v, 7, n)
    } else if starts_with_str(url, "https://") {
        string_of_chars(&v, 8, n)
    } else {
        string_of_chars(&v, 0, n)
    };
    assert(u@ =~= strip_scheme(url@));
    let uv = chars_of(u.as_str());
    let un = uv.len();
    let (host_port, path) = match find_str(u.as_str(), "/") {
        Some(i) => (string_of_chars(&uv, 0, i), string_of_chars(&uv, i, un)),
        None => (string_of_chars(&uv, 0, un), String::from_str("/")),
    };
    assert(host_port@ =~= match first_occurrence(u@, "/"@) { Some(i) => u@.take(i), None => u@ });
    assert(path@ =~= match first_occurrence(u@, "/"@) { Some(i) => u@.skip(i), None => "/"@ });
    let hv = chars_of(host_port.as_str());
    let hn = hv.len();
    match rfind_char(host_port.as_str(), ':') {
        Some(j) => {
            let port_text = string_of_chars(&hv, j + 1, hn);
            assert(port_text@ =~= host_port@.skip(j + 1));
            match parse_u16(port_text.as_str()) {
                Some(port) => {
                    let host = string_of_chars(&hv, 0, j);
                    assert(host@ =~= host_port@.take(j as int));
                    Ok((host, port, path))
                },
                None => Err(String::from_str("Invalid port")),
            }
        },
        None => Ok((host_port, 80, path)),
    }
}

/// The value of the first line whose lowercased text starts with the lowercased `name` and a
/// colon: the text between its first and second colons, trimmed; none when that line has no
/// colon.
pub open spec fn first_field_value(ls: Seq<Seq<char>>, name: Seq<char>) -> Option<Seq<char>>
    decreases ls.len(),
{
    if ls.len() == 0 {
        None
    } else if (spec_str_to_lowercase(name) + ":"@).is_prefix_of(spec_str_to_lowercase(ls[0])) {
        let pieces = split_spec(ls[0], ':');
        if pieces.len() > 1 { Some(trim_spec(pieces[1])) } else { None }
    } else {
        first_field_value(ls.drop_first(), name)
    }
}

/// An optional string by its characters.
pub open spec fn opt_chars(o: Option<String>) -> Option<Seq<char>> {
    match o {
        Some(s) => Some(s@),
        None => None,
    }
}

/// The value of header `name` in request header text (see `first_field_value`).
pub fn extract_header_value(headers: &str, name: &str) -> (r: Option<String>)
    ensures
        opt_chars(r) == first_field_value(lines_spec(headers@), name@),
{
    let name_lower = concat_str(str_to_lowercase(name).as_str(), ":");
    proof { reveal_strlit(":"); }
    let ls = lines(headers);
    let ghost lv = views(ls@);
    let mut i: usize = 0;
    assert(lv.skip(0) =~= lv);
    while i < ls.len()
        invariant
            i <= ls@.len(),
            lv == views(ls@),
            lv == lines_spec(headers@),
            name_lower@ == spec_str_to_lowercase(name@) + ":"@,
            first_field_value(lines_spec(headers@), name@) == first_field_value(lv.skip(i as int), name@),
        decreases ls@.len() - i,
    {
        let line = &ls[i];
        assert(lv.skip(i as int)[0] == line@);
        assert(lv.skip(i as int).drop_first() =~= lv.skip(i + 1));
        let lower = str_to_lowercase(line.as_str());
        if starts_with_str(lower.as_str(), name_lower.as_str()) {
            let pieces = split_char(line.as_str(), ':');
            if pieces.len() > 1 {
                assert(pieces@[1]@ == views(pieces@)[1]);
                return Some(trim(pieces[1].as_str()));
            }
            return None;
        }
        i += 1;
    }
    None
}

/// The lines of a response after the status line, each with its CRLF.
pub open spec fn rest_lines(lines: Seq<Seq<char>>) -> Seq<char>
    decreases lines.len(),
{
    if lines.len() == 0 { Seq::empty() } else { rest_lines(lines.drop_last()) + lines.last() + "\r\n"@ }
}

/// The proxy headers added after the status line.
pub open spec fn proxy_header_lines(add_via: bool, add_scred: bool, redacted_bytes: nat, patterns: nat) -> Seq<char> {
    (if add_via { "Via: 1.1 scred-proxy\r\n"@ } else { Seq::empty() })
        + if add_scred {
            if redacted_bytes != 0 || patterns != 0 {
                "X-SCRED-Redacted: true ("@ + decimal(redacted_bytes) + " bytes redacted, "@ + decimal(patterns)
                    + " patterns found)\r\n"@
            } else {
                "X-SCRED-Redacted: false (no secrets found)\r\n"@
            }
        } else {
            Seq::empty()
        }
}

/// A response with the proxy headers added after its status line: the response's CRLF lines
/// are re-emitted each with a CRLF, the status line first, then `Via` and `X-SCRED-Redacted`
/// as configured. The redacted byte count is the original length less the response length.
pub open spec fn with_proxy_headers(response: Seq<char>, original: Seq<char>, patterns: nat, config: HttpProxyConfig) -> Seq<char> {
    let ls = split_str_spec(response, "\r\n"@);
    ls[0] + "\r\n"@ + proxy_header_lines(config.add_via_header, config.add_scred_header,
        (utf8_len(original) - utf8_len(response)) as nat, patterns) + rest_lines(ls.drop_first())
}

proof fn lemma_split_str_nonempty(s: Seq<char>, pat: Seq<char>)
    ensures
        split_str_spec(s, pat).len() >= 1,
    decreases s.len(),
{
    if pat.len() > 0 {
        if let Some(i) = first_occurrence(s, pat) {
            if 0 <= i && i + pat.len() <= s.len() {
                lemma_split_str_nonempty(s.skip(i + pat.len()), pat);
            }
        }
    }
}

/// Appends the proxy headers of `proxy_header_lines` to `out`.
fn push_proxy_headers(out: &mut String, add_via: bool, add_scred: bool, redacted_count: usize, patterns: usize)
    ensures
        final(out)@ == old(out)@ + proxy_header_lines(add_via, add_scred, redacted_count as nat, patterns as nat),
{
    let ghost start = out@;
    if add_via {
        out.append("Via: 1.1 scred-proxy\r\n");
    }
    let ghost mid = out@;
    assert(mid == start + (if add_via { "Via: 1.1 scred-proxy\r\n"@ } else { Seq::empty() }));
    if add_scred {
        if redacted_count != 0 || patterns != 0 {
            out.append("X-SCRED-Redacted: true (");
            push_decimal(out, redacted_count as u64);
            out.append(" bytes redacted, ");
            push_decimal(out, patterns as u64);
            out.append(" patterns found)\r\n");
        } else {
            out.append("X-SCRED-Redacted: false (no secrets found)\r\n");
        }
    }
}

/// Adds `Via` and `X-SCRED-Redacted` headers to a redacted response (see
/// `with_proxy_headers`); `patterns` is the number of secrets found. The original response
/// is at least as long as the redacted one.
pub fn inject_proxy_headers(response: &str, patterns: usize, original_response: &str, config: &HttpProxyConfig)
    -> (r: Result<String, String>)
    requires
        utf8_len(response@) <= utf8_len(original_response@),
    ensures
        r matches Ok(s) && s@ == with_proxy_headers(response@, original_response@, patterns as nat, *config),
{
    proof { reveal_strlit("\r\n"); }
    let ls = split_str(response, "\r\n");
    proof { lemma_split_str_nonempty(response@, "\r\n"@); }
    let ghost lv = views(ls@);
    assert(ls@[0]@ == lv[0]);
    let mut out = String::from_str(ls[0].as_str());
    out.append("\r\n");
    let redacted_count = original_response.len() - response.len();
    push_proxy_headers(&mut out, config.add_via_header, config.add_scred_header, redacted_count, patterns);
    let ghost head = out@;
    let mut i: usize = 1;
    while i < ls.len()
        invariant
            1 <= i <= ls@.len(),
            lv == views(ls@),
            out@ == head + rest_lines(lv.drop_first().take(i - 1)),
        decreases ls@.len() - i,
    {
        assert(lv.drop_first().take(i as int).drop_last() =~= lv.drop_first().take(i - 1));
        assert(lv.drop_first().take(i as int).last() == ls@[i as int]@);
        out.append(ls[i].as_str());
        out.append("\r\n");
        i += 1;
    }
    assert(lv.drop_first().take(i - 1) =~= lv.drop_first());
    Ok(out)
}

} // verus!
