use vstd::prelude::*;
use crate::text::{chars_of, string_of_chars, rfind_char, last_index, parse_u16, parse_u16_spec, trim,
    trim_spec, starts_with_str, split_whitespace, words_spec, views, concat_str, decimal, push_decimal};

verus! {

/// The target of a CONNECT request.
#[derive(Debug, Clone)]
pub struct ConnectRequest {
    pub host: String,
    pub port: u16,
}

/// What `parse_host_port` gives: the text before the last `:` and the 16-bit port after it.
pub open spec fn host_port_spec(s: Seq<char>) -> Result<(Seq<char>, u16), Seq<char>> {
    match last_index(s, ':') {
        Some(i) => match parse_u16_spec(s.skip(i + 1)) {
            Some(p) => Ok((s.take(i), p)),
            None => Err("Invalid port number"@),
        },
        None => Err("Expected host:port format"@),
    }
}

/// Splits `host:port` at its last colon (see `host_port_spec`).
pub fn parse_host_port(host_port: &str) -> (r: Result<(String, u16), String>)
    ensures
        match host_port_spec(host_port@) {
            Ok((h, p)) => r matches Ok((rh, rp)) && rh@ == h && rp == p,
            Err(e) => r matches Err(m) && m@ == e,
        },
{
    match rfind_char(host_port, ':') {
        Some(i) => {
            let v = chars_of(host_port);
            let n = v.len();
            let host = string_of_chars(&v, 0, i);
            let port_text = string_of_chars(&v, i + 1, n);
            assert(port_text@ == host_port@.skip(i + 1));
            match parse_u16(port_text.as_str()) {
                Some(p) => Ok((host, p)),
                None => Err(String::from_str("Invalid port number")),
            }
        },
        None => Err(String::from_str("Expected host:port format")),
    }
}

/// What the request line of a CONNECT request gives: after trimming it must start with
/// `CONNECT `, and its second word must be `host:port`.
pub open spec fn connect_line_spec(line: Seq<char>) -> Result<(Seq<char>, u16), Seq<char>> {
    let t = trim_spec(line);
    if !"CONNECT "@.is_prefix_of(t) {
        Err("Expected CONNECT request"@)
    } else if words_spec(t).len() < 2 {
        Err("Invalid CONNECT request format"@)
    } else {
        host_port_spec(words_spec(t)[1])
    }
}

/// Reads the target from the request line of a CONNECT request (see `connect_line_spec`);
/// the headers that follow are read and passed over by the caller.
pub fn parse_connect_line(line: &str) -> (r: Result<ConnectRequest, String>)
    ensures
        match connect_line_spec(line@) {
            Ok((h, p)) => r matches Ok(req) && req.host@ == h && req.port == p,
            Err(e) => r matches Err(m) && m@ == e,
        },
{
    let t = trim(line);
    if !starts_with_str(t.as_str(), "CONNECT ") {
        return Err(String::from_str("Expected CONNECT request"));
    }
    let parts = split_whitespace(t.as_str());
    if parts.len() < 2 {
        return Err(String::from_str("Invalid CONNECT request format"));
    }
    assert(views(parts@)[1] == parts@[1]@);
    match parse_host_port(parts[1].as_str()) {
        Ok((host, port)) => Ok(ConnectRequest { host, port }),
        Err(e) => Err(e),
    }
}

/// The answer that opens a tunnel.
pub fn connect_established_response() -> (r: Vec<u8>)
    ensures
        r@ == "HTTP/1.1 200 Connection Established\r\n\r\n"@.map_values(|c: char| c as u8),
{
    let text = "HTTP/1.1 200 Connection Established\r\n\r\n";
    proof { reveal_strlit("HTTP/1.1 200 Connection Established\r\n\r\n"); }
    let v = chars_of(text);
    let mut out: Vec<u8> = Vec::new();
    let mut i: usize = 0;
    while i < v.len()
        invariant
            i <= v@.len(),
            v@ == text@,
            text@ == "HTTP/1.1 200 Connection Established\r\n\r\n"@,
            forall|j: int| 0 <= j < v@.len() ==> (v@[j] as u32) < 128,
            out@ == v@.take(i as int).map_values(|c: char| c as u8),
        decreases v@.len() - i,
    {
        let c = v[i];
        assert(v@.take(i + 1).map_values(|c: char| c as u8) == v@.take(i as int).map_values(|c: char| c as u8).push(c as u8));
        out.push(c as u8);
        i += 1;
    }
    assert(v@.take(v@.len() as int) == v@);
    out
}

/// The answer that refuses a tunnel: a status line with the code and reason, and an empty body.
pub fn error_response(status_code: u16, reason: &str) -> (r: String)
    ensures
        r@ == "HTTP/1.1 "@ + decimal(status_code as nat) + " "@ + reason@ + "\r\nContent-Length: 0\r\n\r\n"@,
{
    let mut r = String::from_str("HTTP/1.1 ");
    push_decimal(&mut r, status_code as u64);
    r.append(" ");
    r.append(reason);
    r.append("\r\nContent-Length: 0\r\n\r\n");
    r
}

} // verus!
