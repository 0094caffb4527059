use vstd::prelude::*;
use crate::text::{chars_of, string_of_chars, rfind_char, last_index, parse_u16, parse_u16_spec, find_str,
    first_occurrence, occurs_at, str_eq, starts_with_str, split_whitespace, words_spec, views, concat_str,
    decimal, push_decimal};

verus! {

/// A fixed upstream that every request is sent to.
#[derive(Debug, Clone, PartialEq, Eq)]
pub struct FixedUpstream {
    pub scheme: String,
    pub host: String,
    pub port: u16,
    pub base_path: String,
}

/// `s` without its trailing `c` characters.
pub open spec fn trim_end_char(s: Seq<char>, c: char) -> Seq<char>
    decreases s.len(),
{
    if s.len() > 0 && s.last() == c { trim_end_char(s.drop_last(), c) } else { s }
}

/// `s`, or `/` when `s` is empty.
pub open spec fn or_root(s: Seq<char>) -> Seq<char> {
    if s.len() == 0 { "/"@ } else { s }
}

/// The base path an upstream URL's path gives: `/` for none, else the path with a leading
/// `/` and without trailing ones (`/` when nothing else is left).
pub open spec fn base_path_spec(path: Seq<char>) -> Seq<char> {
    if path.len() == 0 {
        "/"@
    } else if path[0] == '/' {
        or_root(trim_end_char(path, '/'))
    } else {
        or_root(trim_end_char("/"@ + path, '/'))
    }
}

/// What `FixedUpstream::parse` gives: the scheme before `://` (`http`, port 80, or `https`,
/// port 443), the host and optional port up to the first `/`, and the rest as base path.
pub open spec fn upstream_spec(url: Seq<char>) -> Result<(Seq<char>, Seq<char>, u16, Seq<char>), Seq<char>> {
    match first_occurrence(url, "://"@) {
        None => Err("upstream URL must include scheme (http:// or https://)"@),
        Some(i) => {
            let scheme = url.take(i);
            let rest = url.skip(i + 3);
            if scheme != "http"@ && scheme != "https"@ {
                Err("unsupported upstream scheme: "@ + scheme)
            } else {
                let default_port: u16 = if scheme == "http"@ { 80 } else { 443 };
                let (host_port, path) = match first_occurrence(rest, "/"@) {
                    Some(j) => (rest.take(j), rest.skip(j)),
                    None => (rest, "/"@),
                };
                let hp: Result<(Seq<char>, u16), Seq<char>> = match last_index(host_port, ':') {
                    Some(k) => if k > 0 {
                        match parse_u16_spec(host_port.skip(k + 1)) {
                            Some(p) => Ok((host_port.take(k), p)),
                            None => Err("invalid upstream port"@),
                        }
                    } else {
                        Ok((host_port, default_port))
                    },
                    None => Ok((host_port, default_port)),
                };
                match hp {
                    Err(e) => Err(e),
                    Ok((host, port)) => if host.len() == 0 {
                        Err("upstream host cannot be empty"@)
                    } else {
                        Ok((scheme, host, port, base_path_spec(path)))
                    },
                }
            }
        },
    }
}

/// The request target sent upstream: absolute targets as they are, else the target (`/`
/// when empty) under the base path.
pub open spec fn joined_target(base: Seq<char>, target: Seq<char>) -> Seq<char> {
    if "http://"@.is_prefix_of(target) || "https://"@.is_prefix_of(target) {
        target
    } else {
        let relative = if target.len() == 0 { "/"@ } else { target };
        if base == "/"@ {
            relative
        } else if relative == "/"@ {
            base
        } else {
            trim_end_char(base, '/') + relative
        }
    }
}

/// `s` without trailing `c` characters (see `trim_end_char`).
fn trim_end(s: &str, c: char) -> (r: String)
    ensures
        r@ == trim_end_char(s@, c),
{
    let v = chars_of(s);
    let mut k: usize = v.len();
    assert(s@.take(k as int) == s@);
    while k > 0 && v[k - 1] == c
        invariant
            k <= v@.len(),
            v@ == s@,
            trim_end_char(s@.take(k as int), c) == trim_end_char(s@, c),
        decreases k,
    {
        assert(s@.take(k as int).drop_last() == s@.take(k - 1));
        k -= 1;
    }
    string_of_chars(&v, 0, k)
}

/// `s`, or `/` when empty.
fn root_if_empty(s: String) -> (r: String)
    ensures
        r@ == or_root(s@),
{
    if s.as_str().is_empty() { String::from_str("/") } else { s }
}

/// The base path of an upstream URL's path (see `base_path_spec`).
fn normalize_base_path(path: &str) -> (r: String)
    ensures
        r@ == base_path_spec(path@),
{
    let v = chars_of(path);
    if v.len() == 0 {
        String::from_str("/")
    } else if v[0] == '/' {
        root_if_empty(trim_end(path, '/'))
    } else {
        let with_slash = concat_str("/", path);
        root_if_empty(trim_end(with_slash.as_str(), '/'))
    }
}

impl FixedUpstream {
    /// Reads an upstream URL such as `https://host:8443/base` (see `upstream_spec`).
    pub fn parse(url: &str) -> (r: Result<Self, String>)
        ensures
            match upstream_spec(url@) {
                Ok((s, h, p, b)) => r matches Ok(u) && u.scheme@ == s && u.host@ == h && u.port == p && u.base_path@ == b,
                Err(e) => r matches Err(m) && m@ == e,
            },
    {
        proof {
            reveal_strlit("://");
            reveal_strlit("/");
        }
        let v = chars_of(url);
        let i = match find_str(url, "://") {
            Some(i) => i,
            None => {
                return Err(String::from_str("upstream URL must include scheme (http:// or https://)"));
            },
        };
        assert(occurs_at(url@, "://"@, i as int));
        let n = v.len();
        let scheme = string_of_chars(&v, 0, i);
        let rest = string_of_chars(&v, i + 3, n);
        assert(rest@ == url@.skip(i + 3));
        let default_port: u16 = if str_eq(scheme.as_str(), "http") {
            80
        } else if str_eq(scheme.as_str(), "https") {
            443
        } else {
            return Err(concat_str("unsupported upstream scheme: ", scheme.as_str()));
        };
        let rv = chars_of(rest.as_str());
        let rn = rv.len();
        let (host_port, path) = match find_str(rest.as_str(), "/") {
            Some(j) => {
                assert(occurs_at(rest@, "/"@, j as int));
                (string_of_chars(&rv, 0, j), string_of_chars(&rv, j, rn))
            },
            None => (rest.clone(), String::from_str("/")),
        };
        let (host, port) = match rfind_char(host_port.as_str(), ':') {
            Some(k) => if k > 0 {
                let hv = chars_of(host_port.as_str());
                let hn = hv.len();
                let port_text = string_of_chars(&hv, k + 1, hn);
                assert(port_text@ == host_port@.skip(k + 1));
                match parse_u16(port_text.as_str()) {
                    Some(p) => (string_of_chars(&hv, 0, k), p),
                    None => {
                        return Err(String::from_str("invalid upstream port"));
                    },
                }
            } else {
                (host_port, default_port)
            },
            None => (host_port, default_port),
        };
        if host.as_str().is_empty() {
            return Err(String::from_str("upstream host cannot be empty"));
        }
        let base_path = normalize_base_path(path.as_str());
        Ok(FixedUpstream { scheme, host, port, base_path })
    }

    /// `host:port`.
    pub fn authority(&self) -> (r: String)
        ensures
            r@ == self.host@ + ":"@ + decimal(self.port as nat),
    {
        let mut r = concat_str(self.host.as_str(), ":");
        push_decimal(&mut r, self.port as u64);
        r
    }

    /// The request line with its target placed under the base path (see `joined_target`);
    /// an error when it has fewer than three words.
    pub fn rewrite_request_line(&self, request_line: &str) -> (r: Result<String, String>)
        ensures
            ({
                let w = words_spec(request_line@);
                if w.len() < 3 {
                    r matches Err(m) && m@ == "invalid request line"@
                } else {
                    r matches Ok(line) && line@ == w[0] + " "@ + joined_target(self.base_path@, w[1]) + " "@ + w[2]
                }
            }),
    {
        let parts = split_whitespace(request_line);
        if parts.len() < 3 {
            return Err(String::from_str("invalid request line"));
        }
        assert(views(parts@)[0] == parts@[0]@ && views(parts@)[1] == parts@[1]@ && views(parts@)[2] == parts@[2]@);
        let target = self.join_target(parts[1].as_str());
        let mut r = concat_str(parts[0].as_str(), " ");
        r.append(target.as_str());
        r.append(" ");
        r.append(parts[2].as_str());
        Ok(r)
    }

    /// The target sent upstream (see `joined_target`).
    fn join_target(&self, target: &str) -> (r: String)
        ensures
            r@ == joined_target(self.base_path@, target@),
    {
        if starts_with_str(target, "http://") || starts_with_str(target, "https://") {
            return String::from_str(target);
        }
        let relative = if target.is_empty() { "/" } else { target };
        proof { reveal_strlit("/"); }
        assert(relative@ == (if target@.len() == 0 { "/"@ } else { target@ }));
        if str_eq(self.base_path.as_str(), "/") {
            return String::from_str(relative);
        }
        if str_eq(relative, "/") {
            return self.base_path.clone();
        }
        let trimmed = trim_end(self.base_path.as_str(), '/');
        concat_str(trimmed.as_str(), relative)
    }
}

} // verus!
