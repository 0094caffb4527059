use vstd::prelude::*;
use std::collections::HashMap;
use crate::string_map::{lists_map, map_entries, map_remove, map_insert};
use crate::text::{str_eq, find_str, first_occurrence, parse_usize, parse_usize_spec, decimal, push_decimal, concat_str};
use crate::unicode::{str_to_lowercase, spec_str_to_lowercase};
use crate::parser::{key_matches, lookup_outcome, header_text};

verus! {

/// The map without the names that match `key` without regard to case.
pub open spec fn without_key(headers: Map<String, String>, key: Seq<char>) -> Map<String, String> {
    Map::new(|k: String| headers.contains_key(k) && !key_matches(k, key), |k: String| headers[k])
}

/// Whether `k` is among the names of the first `n` entries.
pub open spec fn listed_before(entries: Seq<(String, String)>, n: int, k: String) -> bool {
    exists|j: int| 0 <= j < n && entries[j].0 == k
}

/// How a lookup of `transfer-encoding` reads chunked transfer: the value, lowercased,
/// holds `chunked`.
pub open spec fn chunked_any_outcome(r: bool, headers: Map<String, String>) -> bool {
    (exists|k: String| #[trigger] headers.contains_key(k) && key_matches(k, "transfer-encoding"@)
        && r == (first_occurrence(spec_str_to_lowercase(headers[k]@), "chunked"@) is Some))
    || ((forall|k: String| #[trigger] headers.contains_key(k) ==> !key_matches(k, "transfer-encoding"@)) && !r)
}

/// How the content length is read from a lookup of `content-length`.
pub open spec fn length_any_outcome(r: Option<usize>, headers: Map<String, String>) -> bool {
    (exists|k: String| #[trigger] headers.contains_key(k) && key_matches(k, "content-length"@)
        && r == parse_usize_spec(headers[k]@))
    || ((forall|k: String| #[trigger] headers.contains_key(k) ==> !key_matches(k, "content-length"@)) && r is None)
}

fn get_header_of(headers: &HashMap<String, String>, key: &str) -> (r: Option<String>)
    ensures
        lookup_outcome(r, headers@, key@),
{
    let key_lower = str_to_lowercase(key);
    let entries = map_entries(headers);
    let mut i: usize = 0;
    while i < entries.len()
        invariant
            i <= entries@.len(),
            lists_map(entries@, headers@),
            key_lower@ == spec_str_to_lowercase(key@),
            forall|j: int| 0 <= j < i ==> !key_matches(#[trigger] entries@[j].0, key@),
        decreases entries@.len() - i,
    {
        let (k, v) = &entries[i];
        let kl = str_to_lowercase(k.as_str());
        if str_eq(kl.as_str(), key_lower.as_str()) {
            assert(headers@.contains_key(entries@[i as int].0));
            return Some(v.clone());
        }
        i += 1;
    }
    assert forall|k: String| #[trigger] headers@.contains_key(k) implies !key_matches(k, key@) by {
        let j = choose|j: int| 0 <= j < entries@.len() && entries@[j].0 == k;
        assert(!key_matches(entries@[j].0, key@));
    }
    None
}

/// Removes every header whose name matches `key` without regard to case.
fn remove_header_of(headers: &mut HashMap<String, String>, key: &str)
    ensures
        final(headers)@ == without_key(old(headers)@, key@),
{
    let key_lower = str_to_lowercase(key);
    let entries = map_entries(headers);
    let ghost orig = headers@;
    let mut i: usize = 0;
    while i < entries.len()
        invariant
            i <= entries@.len(),
            lists_map(entries@, orig),
            key_lower@ == spec_str_to_lowercase(key@),
            headers@ == Map::new(
                |k: String| orig.contains_key(k) && !(key_matches(k, key@)
                    && listed_before(entries@, i as int, k)),
                |k: String| orig[k],
            ),
        decreases entries@.len() - i,
    {
        let (k, _) = &entries[i];
        let kl = str_to_lowercase(k.as_str());
        let ghost before = headers@;
        if str_eq(kl.as_str(), key_lower.as_str()) {
            assert(before.contains_key(*k)) by {
                assert(orig.contains_key(entries@[i as int].0));
                if listed_before(entries@, i as int, *k) {
                    let j = choose|j: int| 0 <= j < i && entries@[j].0 == *k;
                    assert(entries@[j].0 != entries@[i as int].0);
                }
            }
            map_remove(headers, k);
            assert(headers@ =~= Map::new(
                |k2: String| orig.contains_key(k2) && !(key_matches(k2, key@)
                    && listed_before(entries@, i + 1, k2)),
                |k2: String| orig[k2],
            )) by {
                assert forall|k2: String| #[trigger] listed_before(entries@, i + 1, k2)
                    <==> (listed_before(entries@, i as int, k2) || k2 == entries@[i as int].0) by {
                    if k2 == entries@[i as int].0 {
                        assert(0 <= i < i + 1 && entries@[i as int].0 == k2);
                    }
                    if listed_before(entries@, i + 1, k2) && k2 != entries@[i as int].0 {
                        let j = choose|j: int| 0 <= j < i + 1 && entries@[j].0 == k2;
                        assert(j < i);
                    }
                }
            }
        } else {
            assert(headers@ =~= Map::new(
                |k2: String| orig.contains_key(k2) && !(key_matches(k2, key@)
                    && listed_before(entries@, i + 1, k2)),
                |k2: String| orig[k2],
            )) by {
                assert forall|k2: String| #[trigger] listed_before(entries@, i + 1, k2)
                    <==> (listed_before(entries@, i as int, k2) || k2 == entries@[i as int].0) by {
                    if k2 == entries@[i as int].0 {
                        assert(0 <= i < i + 1 && entries@[i as int].0 == k2);
                    }
                    if listed_before(entries@, i + 1, k2) && k2 != entries@[i as int].0 {
                        let j = choose|j: int| 0 <= j < i + 1 && entries@[j].0 == k2;
                        assert(j < i);
                    }
                }
            }
        }
        i += 1;
    }
    assert(headers@ =~= without_key(orig, key@)) by {
        assert forall|k2: String| orig.contains_key(k2) implies #[trigger] listed_before(entries@, i as int, k2) by {
            let j = choose|j: int| 0 <= j < entries@.len() && entries@[j].0 == k2;
            assert(0 <= j < i);
        }
    }
}

/// Replaces every header matching `key` without regard to case by `key: value`.
fn set_header_of(headers: &mut HashMap<String, String>, key: String, value: String)
    ensures
        final(headers)@ == without_key(old(headers)@, key@).insert(key, value),
{
    remove_header_of(headers, key.as_str());
    map_insert(headers, key, value);
}

fn content_length_of(headers: &HashMap<String, String>) -> (r: Option<usize>)
    ensures
        length_any_outcome(r, headers@),
{
    match get_header_of(headers, "content-length") {
        Some(v) => parse_usize(v.as_str()),
        None => None,
    }
}

fn is_chunked_of(headers: &HashMap<String, String>) -> (r: bool)
    ensures
        chunked_any_outcome(r, headers@),
{
    match get_header_of(headers, "transfer-encoding") {
        Some(te) => find_str(str_to_lowercase(te.as_str()).as_str(), "chunked").is_some(),
        None => false,
    }
}

/// The bytes of a message: its first line, its header lines (in the map's order), a blank
/// line, as UTF-8, then the body.
fn serialize_message(first_line: &str, headers: &HashMap<String, String>, body: &Vec<u8>) -> (r: Vec<u8>)
    ensures
        exists|entries: Seq<(String, String)>| lists_map(entries, headers@)
            && r@ == vstd::utf8::encode_utf8(first_line@ + "\r\n"@ + header_text(entries) + "\r\n"@) + body@,
{
    let mut text = concat_str(first_line, "\r\n");
    let es = map_entries(headers);
    let ghost start = text@;
    let mut i: usize = 0;
    while i < es.len()
        invariant
            i <= es@.len(),
            text@ == start + header_text(es@.take(i as int)),
        decreases es@.len() - i,
    {
        assert(es@.take(i + 1).drop_last() =~= es@.take(i as int));
        let (k, v) = &es[i];
        text.append(k.as_str());
        text.append(": ");
        text.append(v.as_str());
        text.append("\r\n");
        i += 1;
    }
    assert(es@.take(i as int) =~= es@);
    text.append("\r\n");
    let bytes = text.as_str().as_bytes();
    let mut buf: Vec<u8> = Vec::new();
    let mut j: usize = 0;
    while j < bytes.len()
        invariant
            j <= bytes@.len(),
            buf@ == bytes@.take(j as int),
        decreases bytes@.len() - j,
    {
        buf.push(bytes[j]);
        assert(bytes@.take(j + 1) =~= bytes@.take(j as int).push(bytes@[j as int]));
        j += 1;
    }
    assert(bytes@.take(j as int) =~= bytes@);
    let ghost head = buf@;
    let mut k: usize = 0;
    while k < body.len()
        invariant
            k <= body@.len(),
            buf@ == head + body@.take(k as int),
        decreases body@.len() - k,
    {
        buf.push(body[k]);
        assert(body@.take(k + 1) =~= body@.take(k as int).push(body@[k as int]));
        k += 1;
    }
    assert(body@.take(k as int) =~= body@);
    buf
}

/// An HTTP request.
#[derive(Debug, Clone)]
pub struct HttpRequest {
    pub method: String,
    pub path: String,
    pub version: String,
    pub headers: HashMap<String, String>,
    pub body: Vec<u8>,
}

impl HttpRequest {
    /// The value of a header, matched without regard to case.
    pub fn get_header(&self, key: &str) -> (r: Option<String>)
        ensures
            lookup_outcome(r, self.headers@, key@),
    {
        get_header_of(&self.headers, key)
    }

    /// Sets a header, replacing any header of that name whatever its case.
    pub fn set_header(&mut self, key: String, value: String)
        ensures
            final(self).headers@ == without_key(old(self).headers@, key@).insert(key, value),
            final(self).method == old(self).method && final(self).path == old(self).path
                && final(self).version == old(self).version && final(self).body == old(self).body,
    {
        set_header_of(&mut self.headers, key, value);
    }

    /// Removes a header, whatever the case of its name.
    pub fn remove_header(&mut self, key: &str)
        ensures
            final(self).headers@ == without_key(old(self).headers@, key@),
            final(self).method == old(self).method && final(self).path == old(self).path
                && final(self).version == old(self).version && final(self).body == old(self).body,
    {
        remove_header_of(&mut self.headers, key);
    }

    /// The Content-Length, when present and a number.
    pub fn content_length(&self) -> (r: Option<usize>)
        ensures
            length_any_outcome(r, self.headers@),
    {
        content_length_of(&self.headers)
    }

    /// Whether Transfer-Encoding mentions `chunked`, whatever its case.
    pub fn is_chunked(&self) -> (r: bool)
        ensures
            chunked_any_outcome(r, self.headers@),
    {
        is_chunked_of(&self.headers)
    }

    /// The request's bytes: `method path version`, the header lines, a blank line, the body.
    pub fn serialize(&self) -> (r: Vec<u8>)
        ensures
            exists|entries: Seq<(String, String)>| lists_map(entries, self.headers@)
                && r@ == vstd::utf8::encode_utf8(self.method@ + " "@ + self.path@ + " "@ + self.version@ + "\r\n"@
                    + header_text(entries) + "\r\n"@) + self.body@,
    {
        let mut first = concat_str(self.method.as_str(), " ");
        first.append(self.path.as_str());
        first.append(" ");
        first.append(self.version.as_str());
        serialize_message(first.as_str(), &self.headers, &self.body)
    }
}

/// An HTTP response.
#[derive(Debug, Clone)]
pub struct HttpResponse {
    pub version: String,
    pub status_code: u16,
    pub reason: String,
    pub headers: HashMap<String, String>,
    pub body: Vec<u8>,
}

impl HttpResponse {
    /// The value of a header, matched without regard to case.
    pub fn get_header(&self, key: &str) -> (r: Option<String>)
        ensures
            lookup_outcome(r, self.headers@, key@),
    {
        get_header_of(&self.headers, key)
    }

    /// Sets a header, replacing any header of that name whatever its case.
    pub fn set_header(&mut self, key: String, value: String)
        ensures
            final(self).headers@ == without_key(old(self).headers@, key@).insert(key, value),
            final(self).version == old(self).version && final(self).status_code == old(self).status_code
                && final(self).reason == old(self).reason && final(self).body == old(self).body,
    {
        set_header_of(&mut self.headers, key, value);
    }

    /// Removes a header, whatever the case of its name.
    pub fn remove_header(&mut self, key: &str)
        ensures
            final(self).headers@ == without_key(old(self).headers@, key@),
            final(self).version == old(self).version && final(self).status_code == old(self).status_code
                && final(self).reason == old(self).reason && final(self).body == old(self).body,
    {
        remove_header_of(&mut self.headers, key);
    }

    /// The Content-Length, when present and a number.
    pub fn content_length(&self) -> (r: Option<usize>)
        ensures
            length_any_outcome(r, self.headers@),
    {
        content_length_of(&self.headers)
    }

    /// Whether Transfer-Encoding mentions `chunked`, whatever its case.
    pub fn is_chunked(&self) -> (r: bool)
        ensures
            chunked_any_outcome(r, self.headers@),
    {
        is_chunked_of(&self.headers)
    }

    /// The response's bytes: `version status reason`, the header lines, a blank line, the body.
    pub fn serialize(&self) -> (r: Vec<u8>)
        ensures
            exists|entries: Seq<(String, String)>| lists_map(entries, self.headers@)
                && r@ == vstd::utf8::encode_utf8(self.version@ + " "@ + decimal(self.status_code as nat) + " "@
                    + self.reason@ + "\r\n"@ + header_text(entries) + "\r\n"@) + self.body@,
    {
        let mut first = concat_str(self.version.as_str(), " ");
        push_decimal(&mut first, self.status_code as u64);
        first.append(" ");
        first.append(self.reason.as_str());
        serialize_message(first.as_str(), &self.headers, &self.body)
    }
}

/// A secret found in a message.
#[derive(Debug, Clone)]
pub struct PatternMatch {
    pub pattern_name: String,
    pub matched_text: String,
    pub byte_offset: usize,
    pub redacted_as: String,
}

} // verus!
