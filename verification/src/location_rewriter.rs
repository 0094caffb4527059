use vstd::prelude::*;
use crate::text::{chars_of, string_of_chars, find_str, first_occurrence, split_char, split_spec, views, str_eq};
use crate::unicode::{str_to_lowercase, spec_str_to_lowercase};

verus! {

/// Whether a location holds a scheme separator `://`.
pub open spec fn is_absolute_spec(location: Seq<char>) -> bool {
    first_occurrence(location, "://"@) is Some
}

/// Whether a location is an absolute URI (it holds `://`).
pub fn is_absolute_uri(location: &str) -> (r: bool)
    ensures
        r == is_absolute_spec(location@),
{
    find_str(location, "://").is_some()
}

/// What follows the first `://` of a text, when it has one.
pub open spec fn after_scheme(uri: Seq<char>) -> Option<Seq<char>> {
    match first_occurrence(uri, "://"@) {
        Some(i) => Some(uri.skip(i + 3)),
        None => None,
    }
}

/// The host part of a URI: after `://`, up to the first `/`; none when empty or without `://`.
pub open spec fn uri_host_spec(uri: Seq<char>) -> Option<Seq<char>> {
    match after_scheme(uri) {
        Some(rest) => {
            let host = match first_occurrence(rest, "/"@) {
                Some(p) => rest.take(p),
                None => rest,
            };
            if host.len() == 0 { None } else { Some(host) }
        },
        None => None,
    }
}

/// What follows the first `://` of a text.
fn after_scheme_exec(uri: &str) -> (r: Option<String>)
    ensures
        match after_scheme(uri@) {
            Some(rest) => r matches Some(s) && s@ == rest,
            None => r is None,
        },
{
    proof { reveal_strlit("://"); }
    match find_str(uri, "://") {
        Some(i) => {
            let v = chars_of(uri);
            let n = v.len();
            assert(i + 3 <= n);
            let rest = string_of_chars(&v, i + 3, n);
            assert(rest@ =~= uri@.skip(i + 3));
            Some(rest)
        },
        None => None,
    }
}

/// The host part of a URI (with its port, if any).
pub fn extract_host_from_uri(uri: &str) -> (r: Option<String>)
    ensures
        match uri_host_spec(uri@) {
            Some(h) => r matches Some(s) && s@ == h,
            None => r is None,
        },
{
    let rest = match after_scheme_exec(uri) {
        Some(r) => r,
        None => { return None; },
    };
    let v = chars_of(rest.as_str());
    let n = v.len();
    proof { reveal_strlit("/"); }
    let end = match find_str(rest.as_str(), "/") {
        Some(p) => p,
        None => n,
    };
    let host = string_of_chars(&v, 0, end);
    assert(host@ =~= match first_occurrence(rest@, "/"@) { Some(p) => rest@.take(p), None => rest@ });
    if host.as_str().is_empty() {
        return None;
    }
    Some(host)
}

/// The part of a host before its first `:`.
pub open spec fn host_name_part(h: Seq<char>) -> Seq<char> {
    split_spec(h, ':')[0]
}

/// The part of a host between its first and second `:`, when it has a `:`.
pub open spec fn host_port_part(h: Seq<char>) -> Option<Seq<char>> {
    if split_spec(h, ':').len() > 1 { Some(split_spec(h, ':')[1]) } else { None }
}

/// Whether a redirect should be pointed back at the proxy: it is an absolute URI whose host
/// names the upstream (without regard to case), with the same port when both give one.
pub open spec fn should_rewrite_spec(location: Seq<char>, upstream_host: Seq<char>) -> bool {
    is_absolute_spec(location) && match uri_host_spec(location) {
        Some(lh) => spec_str_to_lowercase(host_name_part(lh)) == spec_str_to_lowercase(host_name_part(upstream_host))
            && match (host_port_part(lh), host_port_part(upstream_host)) {
                (Some(a), Some(b)) => a == b,
                _ => true,
            },
        None => false,
    }
}

proof fn lemma_split_nonempty(s: Seq<char>, sep: char)
    ensures
        split_spec(s, sep).len() >= 1,
    decreases s.len(),
{
    if s.len() > 0 {
        lemma_split_nonempty(s.drop_last(), sep);
    }
}

/// Whether a redirect should be pointed back at the proxy (see `should_rewrite_spec`).
pub fn should_rewrite_location(location: &str, upstream_host: &str) -> (r: bool)
    ensures
        r == should_rewrite_spec(location@, upstream_host@),
{
    if !is_absolute_uri(location) {
        return false;
    }
    match extract_host_from_uri(location) {
        Some(location_host) => {
            let lparts = split_char(location_host.as_str(), ':');
            let uparts = split_char(upstream_host, ':');
            proof {
                lemma_split_nonempty(location_host@, ':');
                lemma_split_nonempty(upstream_host@, ':');
            }
            assert(lparts@[0]@ == views(lparts@)[0]);
            assert(uparts@[0]@ == views(uparts@)[0]);
            let a = str_to_lowercase(lparts[0].as_str());
            let b = str_to_lowercase(uparts[0].as_str());
            if !str_eq(a.as_str(), b.as_str()) {
                return false;
            }
            if lparts.len() > 1 && uparts.len() > 1 {
                assert(lparts@[1]@ == views(lparts@)[1]);
                assert(uparts@[1]@ == views(uparts@)[1]);
                str_eq(lparts[1].as_str(), uparts[1].as_str())
            } else {
                true
            }
        },
        None => false,
    }
}

/// The path (with query and fragment) of an absolute URI: from the first `/` after `://`;
/// `/` when there is none.
pub open spec fn uri_path_spec(location: Seq<char>) -> Seq<char> {
    match after_scheme(location) {
        Some(rest) => match first_occurrence(rest, "/"@) {
            Some(p) => rest.skip(p),
            None => "/"@,
        },
        None => "/"@,
    }
}

/// A redirect pointed at the proxy: `client_scheme://proxy_host` followed by the path.
pub fn rewrite_location_to_proxy(location: &str, client_scheme: &str, proxy_host: &str) -> (r: String)
    ensures
        r@ == client_scheme@ + "://"@ + proxy_host@ + uri_path_spec(location@),
{
    let mut out = String::from_str(client_scheme);
    out.append("://");
    out.append(proxy_host);
    proof { reveal_strlit("/"); }
    match after_scheme_exec(location) {
        Some(rest) => match find_str(rest.as_str(), "/") {
            Some(p) => {
                let v = chars_of(rest.as_str());
                let n = v.len();
                let path = string_of_chars(&v, p, n);
                assert(path@ =~= rest@.skip(p as int));
                out.append(path.as_str());
            },
            None => out.append("/"),
        },
        None => out.append("/"),
    }
    out
}

} // verus!
