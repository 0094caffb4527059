use vstd::prelude::*;
use std::collections::{HashMap, HashSet};

verus! {

/// Whether `entries` lists the pairs of `m`: as many entries as keys, each entry a pair of
/// the map, every key listed, no key twice (no two keys with the same characters).
pub open spec fn lists_map(entries: Seq<(String, String)>, m: Map<String, String>) -> bool {
    &&& entries.len() == m.dom().len()
    &&& forall|i: int| 0 <= i < entries.len() ==> m.contains_key(#[trigger] entries[i].0) && m[entries[i].0] == entries[i].1
    &&& forall|k: String| #[trigger] m.contains_key(k) ==> exists|i: int| 0 <= i < entries.len() && entries[i].0 == k
    &&& forall|i: int, j: int| 0 <= i < j < entries.len() ==> entries[i].0 != entries[j].0
    &&& forall|i: int, j: int| 0 <= i < j < entries.len() ==> (#[trigger] entries[i]).0@ != (#[trigger] entries[j]).0@
}

/// Whether the UTF-8 form of every name and value fits in a `usize`, as that of any
/// `String` does (its length in bytes is a `usize`).
pub open spec fn texts_fit(entries: Seq<(String, String)>) -> bool {
    forall|i: int| 0 <= i < entries.len() ==> vstd::utf8::encode_utf8((#[trigger] entries[i]).0@).len() <= usize::MAX
        && vstd::utf8::encode_utf8(entries[i].1@).len() <= usize::MAX
}

/// Copies out the pairs of a string map with `HashMap::iter`.
///
/// Trusted: `iter` visits every key-value pair of the map once, in an order that depends on
/// the map's randomly seeded hasher; the order is left unsaid, the pairs are stated. The
/// map's keys are unequal strings, so their characters differ, and each copied string's
/// length in bytes (`String::len`) is a `usize`.
#[verifier::external_body]
pub(crate) fn map_entries(m: &HashMap<String, String>) -> (r: Vec<(String, String)>)
    ensures
        lists_map(r@, m@),
        texts_fit(r@),
{
    let mut out = Vec::new();
    for (k, v) in m.iter() {
        out.push((k.clone(), v.clone()));
    }
    out
}

/// Removes a key of a string map with `HashMap::remove`.
///
/// Trusted: std documents `remove` as removing the key from the map; the key given is one
/// the map holds, as listed by `map_entries`.
#[verifier::external_body]
pub(crate) fn map_remove(m: &mut HashMap<String, String>, k: &String)
    requires
        old(m)@.contains_key(*k),
    ensures
        final(m)@ == old(m)@.remove(*k),
{
    m.remove(k);
}

/// Inserts a pair into a string map with `HashMap::insert`.
///
/// Trusted: std documents `insert` as adding the pair when the map does not hold the key;
/// no key of the map has the same text as `k`.
#[verifier::external_body]
pub(crate) fn map_insert(m: &mut HashMap<String, String>, k: String, v: String)
    requires
        forall|k2: String| #[trigger] old(m)@.contains_key(k2) ==> k2@ != k@,
    ensures
        final(m)@ == old(m)@.insert(k, v),
{
    m.insert(k, v);
}

/// Whether a string set holds a string with the characters of `k`, with `HashSet::contains`.
///
/// Trusted: std documents `contains` as true when the set holds a value equal to `k`; two
/// strings are equal when they hold the same characters.
#[verifier::external_body]
pub(crate) fn set_contains(s: &HashSet<String>, k: &str) -> (r: bool)
    ensures
        r == (exists|x: String| s@.contains(x) && x@ == k@),
{
    s.contains(k)
}

/// Adds a string to a string set with `HashSet::insert`.
///
/// Trusted: std documents `insert` as adding the value when the set does not hold it; no
/// string of the set has the same characters as `k`.
#[verifier::external_body]
pub(crate) fn set_insert(s: &mut HashSet<String>, k: String)
    requires
        forall|x: String| #[trigger] old(s)@.contains(x) ==> x@ != k@,
    ensures
        final(s)@ == old(s)@.insert(k),
{
    s.insert(k);
}

/// Whether string map `m` holds, by the characters of its keys and values, the pairs of
/// `t`: each pair of `m` is one of `t`, each key of `t` is the text of a key of `m`, and no
/// two keys of `m` have the same text.
pub open spec fn holds_texts(m: Map<String, String>, t: Map<Seq<char>, Seq<char>>) -> bool {
    &&& forall|s: String| #[trigger] m.contains_key(s) ==> t.contains_key(s@) && m[s]@ == t[s@]
    &&& forall|x: Seq<char>| #[trigger] t.contains_key(x) ==> exists|s: String| m.contains_key(s) && s@ == x
    &&& forall|s1: String, s2: String| m.contains_key(s1) && m.contains_key(s2) && s1@ == s2@ ==> s1 == s2
}

/// Stores a pair in a string map with `HashMap::insert`, replacing the value of a key with
/// the same characters.
///
/// Trusted: std documents `insert` as adding the pair, or, when the map holds an equal key,
/// keeping that key and replacing its value; strings are equal when their characters are.
#[verifier::external_body]
pub(crate) fn map_put(m: &mut HashMap<String, String>, k: String, v: String)
    ensures
        forall|t: Map<Seq<char>, Seq<char>>| holds_texts(old(m)@, t) ==> holds_texts(final(m)@, t.insert(k@, v@)),
{
    m.insert(k, v);
}

/// The number of pairs of a string map, with `HashMap::len`.
///
/// Trusted: std documents `len` as the number of elements of the map.
#[verifier::external_body]
pub(crate) fn map_len(m: &HashMap<String, String>) -> (r: usize)
    ensures
        r == m@.dom().len(),
{
    m.len()
}

} // verus!
