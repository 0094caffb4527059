use vstd::prelude::*;
use crate::unicode::{char_is_whitespace, spec_is_whitespace};

verus! {

/// The characters of `s`, in order.
pub fn chars_of(s: &str) -> (v: Vec<char>)
    ensures
        v@ == s@,
{
    let mut v: Vec<char> = Vec::new();
    for c in it: s.chars()
        invariant
            it.seq() == s@,
            v@ == it.seq().take(it.index() as int),
    {
        assert(v@.push(c) == it.seq().take(it.index() + 1));
        v.push(c);
    }
    v
}

/// Whether two character sequences are equal, compared character by character.
pub fn chars_eq(a: &[char], b: &[char]) -> (r: bool)
    ensures
        r == (a@ == b@),
{
    if a.len() != b.len() {
        return false;
    }
    let mut i: usize = 0;
    while i < a.len()
        invariant
            a@.len() == b@.len(),
            i <= a@.len(),
            forall|j: int| 0 <= j < i ==> a@[j] == b@[j],
        decreases a@.len() - i,
    {
        if a[i] != b[i] {
            return false;
        }
        i = i + 1;
    }
    assert(a@ =~= b@);
    true
}

/// Whether two strings hold the same characters.
pub fn str_eq(a: &str, b: &str) -> (r: bool)
    ensures
        r == (a@ == b@),
{
    let va = chars_of(a);
    let vb = chars_of(b);
    chars_eq(va.as_slice(), vb.as_slice())
}

/// Whether `s` begins with the character `c`.
pub fn starts_with_char(s: &str, c: char) -> (r: bool)
    ensures
        r == (s@.len() > 0 && s@[0] == c),
{
    let v = chars_of(s);
    v.len() > 0 && v[0] == c
}

/// The decimal digit character for `d < 10`.
pub open spec fn digit_char(d: nat) -> char {
    if d == 0 { '0' } else if d == 1 { '1' } else if d == 2 { '2' } else if d == 3 { '3' }
    else if d == 4 { '4' } else if d == 5 { '5' } else if d == 6 { '6' } else if d == 7 { '7' }
    else if d == 8 { '8' } else { '9' }
}

/// The decimal representation of `n`, without leading zeros.
pub open spec fn decimal(n: nat) -> Seq<char>
    decreases n,
{
    if n < 10 {
        seq![digit_char(n)]
    } else {
        decimal(n / 10).push(digit_char(n % 10))
    }
}

fn digit_str(d: u64) -> (s: &'static str)
    requires
        d < 10,
    ensures
        s@ == seq![digit_char(d as nat)],
{
    proof {
        reveal_strlit("0");
        reveal_strlit("1");
        reveal_strlit("2");
        reveal_strlit("3");
        reveal_strlit("4");
        reveal_strlit("5");
        reveal_strlit("6");
        reveal_strlit("7");
        reveal_strlit("8");
        reveal_strlit("9");
    }
    if d == 0 { "0" } else if d == 1 { "1" } else if d == 2 { "2" } else if d == 3 { "3" }
    else if d == 4 { "4" } else if d == 5 { "5" } else if d == 6 { "6" } else if d == 7 { "7" }
    else if d == 8 { "8" } else { "9" }
}

/// Appends the decimal representation of `n` to `out`.
pub fn push_decimal(out: &mut String, n: u64)
    ensures
        final(out)@ == old(out)@ + decimal(n as nat),
    decreases n,
{
    if n < 10 {
        out.append(digit_str(n));
    } else {
        push_decimal(out, n / 10);
        out.append(digit_str(n % 10));
    }
}

/// The decimal representation of `n` as a new string.
pub fn u64_to_decimal(n: u64) -> (s: String)
    ensures
        s@ == decimal(n as nat),
{
    let mut s = String::new();
    push_decimal(&mut s, n);
    s
}

/// A new string holding the characters of `a` followed by those of `b`.
pub fn concat_str(a: &str, b: &str) -> (s: String)
    ensures
        s@ == a@ + b@,
{
    let mut s = a.to_owned();
    s.append(b);
    s
}

/// The lowercase hexadecimal digit character for `d < 16`.
pub open spec fn hex_digit_char(d: nat) -> char {
    if d < 10 { digit_char(d) } else if d == 10 { 'a' } else if d == 11 { 'b' } else if d == 12 { 'c' }
    else if d == 13 { 'd' } else if d == 14 { 'e' } else { 'f' }
}

/// The lowercase hexadecimal representation of `n`, without leading zeros.
pub open spec fn hex_lower(n: nat) -> Seq<char>
    decreases n,
{
    if n < 16 {
        seq![hex_digit_char(n)]
    } else {
        hex_lower(n / 16).push(hex_digit_char(n % 16))
    }
}

fn hex_digit_str(d: u64) -> (s: &'static str)
    requires
        d < 16,
    ensures
        s@ == seq![hex_digit_char(d as nat)],
{
    proof {
        reveal_strlit("a");
        reveal_strlit("b");
        reveal_strlit("c");
        reveal_strlit("d");
        reveal_strlit("e");
        reveal_strlit("f");
    }
    if d < 10 { digit_str(d) } else if d == 10 { "a" } else if d == 11 { "b" } else if d == 12 { "c" }
    else if d == 13 { "d" } else if d == 14 { "e" } else { "f" }
}

/// Appends the lowercase hexadecimal representation of `n` to `out`.
pub fn push_hex_lower(out: &mut String, n: u64)
    ensures
        final(out)@ == old(out)@ + hex_lower(n as nat),
    decreases n,
{
    if n < 16 {
        out.append(hex_digit_str(n));
    } else {
        push_hex_lower(out, n / 16);
        out.append(hex_digit_str(n % 16));
    }
}

/// Whether `c` is an ASCII decimal digit.
pub open spec fn is_digit(c: char) -> bool {
    '0' <= c && c <= '9'
}

/// The value of a sequence of decimal digits.
pub open spec fn digits_value(s: Seq<char>) -> nat
    decreases s.len(),
{
    if s.len() == 0 {
        0
    } else {
        digits_value(s.drop_last()) * 10 + ((s.last() as int - '0' as int) as nat)
    }
}

/// The digits of a decimal number as `str::parse::<u64>` reads them: an optional leading `+`.
pub open spec fn unsigned_digits(s: Seq<char>) -> Seq<char> {
    if s.len() > 0 && s[0] == '+' { s.drop_first() } else { s }
}

/// What `str::parse::<u64>` accepts: an optional `+`, then one or more decimal digits whose
/// value fits in 64 bits.
pub open spec fn parse_u64_spec(s: Seq<char>) -> Option<u64> {
    let d = unsigned_digits(s);
    if d.len() > 0 && (forall|i: int| 0 <= i < d.len() ==> is_digit(#[trigger] d[i]))
        && digits_value(d) <= u64::MAX {
        Some(digits_value(d) as u64)
    } else {
        None
    }
}

/// Parses an unsigned decimal number (see `parse_u64_spec`).
pub fn parse_u64(s: &str) -> (r: Option<u64>)
    ensures
        r == parse_u64_spec(s@),
{
    let v = chars_of(s);
    let start: usize = if v.len() > 0 && v[0] == '+' { 1 } else { 0 };
    let ghost d = unsigned_digits(s@);
    assert(d =~= v@.subrange(start as int, v@.len() as int));
    if start >= v.len() {
        return None;
    }
    let mut acc: u64 = 0;
    let mut i = start;
    while i < v.len()
        invariant
            start <= i <= v@.len(),
            v@ == s@,
            d == unsigned_digits(s@),
            d =~= v@.subrange(start as int, v@.len() as int),
            forall|j: int| 0 <= j < i - start ==> is_digit(#[trigger] d[j]),
            acc == digits_value(d.take(i - start)),
        decreases v@.len() - i,
    {
        let c = v[i];
        assert(d[i - start] == c);
        assert(d.take(i - start + 1).drop_last() =~= d.take(i - start));
        assert(d.take(i - start + 1).last() == c);
        if !('0' <= c && c <= '9') {
            assert(!is_digit(d[i - start]));
            return None;
        }
        let dig = (c as u32 - '0' as u32) as u64;
        assert(digits_value(d.take(i - start + 1)) == acc * 10 + dig);
        if acc > (u64::MAX - dig) / 10 {
            assert(digits_value(d.take(i - start + 1)) > u64::MAX) by (nonlinear_arith)
                requires
                    acc > (u64::MAX - dig) / 10,
                    digits_value(d.take(i - start + 1)) == acc * 10 + dig;
            proof {
                if forall|j: int| 0 <= j < d.len() ==> is_digit(#[trigger] d[j]) {
                    lemma_digits_value_prefix_grows(d, i - start + 1);
                }
            }
            return None;
        }
        assert(acc * 10 + dig <= u64::MAX) by (nonlinear_arith)
            requires acc <= (u64::MAX - dig) / 10, dig <= 9;
        acc = acc * 10 + dig;
        i = i + 1;
    }
    assert(d.take(d.len() as int) =~= d);
    Some(acc)
}

/// The value of a digit sequence is at least the value of any of its prefixes.
pub proof fn lemma_digits_value_prefix_grows(d: Seq<char>, n: int)
    requires
        0 <= n <= d.len(),
        forall|i: int| 0 <= i < d.len() ==> is_digit(#[trigger] d[i]),
    ensures
        digits_value(d) >= digits_value(d.take(n)),
    decreases d.len(),
{
    if n < d.len() {
        assert(d.drop_last().take(n) =~= d.take(n));
        lemma_digits_value_prefix_grows(d.drop_last(), n);
    } else {
        assert(d.take(n) =~= d);
    }
}

/// `c` with ASCII uppercase letters mapped to lowercase.
pub open spec fn ascii_lower(c: char) -> char {
    if 'A' <= c && c <= 'Z' { ((c as u8) + 32) as char } else { c }
}

/// Whether `a` equals `lower` once ASCII letters in `a` are lowercased.
pub fn eq_ascii_lowercase(a: &str, lower: &str) -> (r: bool)
    ensures
        r == (a@.map_values(|c: char| ascii_lower(c)) == lower@),
{
    let va = chars_of(a);
    let vb = chars_of(lower);
    let ghost la = a@.map_values(|c: char| ascii_lower(c));
    if va.len() != vb.len() {
        assert(la.len() != lower@.len());
        return false;
    }
    let mut i: usize = 0;
    while i < va.len()
        invariant
            va@ == a@,
            vb@ == lower@,
            va@.len() == vb@.len(),
            i <= va@.len(),
            la == a@.map_values(|c: char| ascii_lower(c)),
            forall|j: int| 0 <= j < i ==> la[j] == vb@[j],
        decreases va@.len() - i,
    {
        let c = va[i];
        let lc = if 'A' <= c && c <= 'Z' { ((c as u8) + 32) as char } else { c };
        assert(lc == ascii_lower(c));
        if lc != vb[i] {
            return false;
        }
        i = i + 1;
    }
    assert(la =~= lower@);
    true
}

/// The display text of the error that `String::from_utf8` returns for `bytes`.
pub uninterp spec fn utf8_error_text(bytes: Seq<u8>) -> Seq<char>;

/// Decodes `bytes` as UTF-8 with `String::from_utf8`.
///
/// Trusted: std's `String::from_utf8` succeeds exactly on well-formed UTF-8 (vstd's
/// `valid_utf8`) and then holds the characters those bytes encode; otherwise it fails,
/// and the display text of its error (a function of the bytes) is named `utf8_error_text`.
#[verifier::external_body]
pub(crate) fn string_from_utf8(bytes: Vec<u8>) -> (r: Result<String, String>)
    ensures
        r is Ok <==> vstd::utf8::valid_utf8(bytes@),
        r matches Ok(s) ==> s@ == vstd::utf8::decode_utf8(bytes@),
        r matches Err(e) ==> e@ == utf8_error_text(bytes@),
{
    match String::from_utf8(bytes) {
        Ok(s) => Ok(s),
        Err(e) => Err(e.to_string()),
    }
}

/// Appends `c` to `s` with `String::push`.
///
/// Trusted: std documents `push` as appending the given `char` to the end of the string.
#[verifier::external_body]
pub(crate) fn push_char(s: &mut String, c: char)
    ensures
        final(s)@ == old(s)@.push(c),
{
    s.push(c);
}

/// A new string holding the characters `v[from..to]`.
pub fn string_of_chars(v: &Vec<char>, from: usize, to: usize) -> (s: String)
    requires
        from <= to <= v@.len(),
    ensures
        s@ == v@.subrange(from as int, to as int),
{
    let mut s = String::new();
    let mut i = from;
    while i < to
        invariant
            from <= i <= to,
            to <= v@.len(),
            s@ == v@.subrange(from as int, i as int),
        decreases to - i,
    {
        push_char(&mut s, v[i]);
        assert(v@.subrange(from as int, i + 1) =~= v@.subrange(from as int, i as int).push(v@[i as int]));
        i += 1;
    }
    s
}

/// The number of leading whitespace characters of `s`.
pub open spec fn leading_ws(s: Seq<char>) -> nat
    decreases s.len(),
{
    if s.len() > 0 && spec_is_whitespace(s[0]) { 1 + leading_ws(s.drop_first()) } else { 0 }
}

/// The number of trailing whitespace characters of `s`.
pub open spec fn trailing_ws(s: Seq<char>) -> nat
    decreases s.len(),
{
    if s.len() > 0 && spec_is_whitespace(s.last()) { 1 + trailing_ws(s.drop_last()) } else { 0 }
}

/// `s` without leading and trailing whitespace, as `str::trim` gives it.
pub open spec fn trim_spec(s: Seq<char>) -> Seq<char> {
    let rest = s.skip(leading_ws(s) as int);
    rest.take(rest.len() - trailing_ws(rest))
}

proof fn lemma_leading_ws_bound(s: Seq<char>)
    ensures
        leading_ws(s) <= s.len(),
    decreases s.len(),
{
    if s.len() > 0 && spec_is_whitespace(s[0]) {
        lemma_leading_ws_bound(s.drop_first());
    }
}

proof fn lemma_trailing_ws_bound(s: Seq<char>)
    ensures
        trailing_ws(s) <= s.len(),
    decreases s.len(),
{
    if s.len() > 0 && spec_is_whitespace(s.last()) {
        lemma_trailing_ws_bound(s.drop_last());
    }
}

/// `s` without leading and trailing whitespace.
pub fn trim(s: &str) -> (r: String)
    ensures
        r@ == trim_spec(s@),
{
    let v = chars_of(s);
    let mut a: usize = 0;
    proof { lemma_leading_ws_bound(s@); }
    assert(s@.skip(0) =~= s@);
    while a < v.len() && char_is_whitespace(v[a])
        invariant
            a <= v@.len(),
            v@ == s@,
            leading_ws(s@) == a + leading_ws(s@.skip(a as int)),
        decreases v@.len() - a,
    {
        assert(s@.skip(a as int).drop_first() =~= s@.skip(a + 1));
        a += 1;
    }
    assert(leading_ws(s@.skip(a as int)) == 0);
    let ghost rest = s@.skip(a as int);
    let mut b: usize = v.len();
    proof { lemma_trailing_ws_bound(rest); }
    assert(rest.take(b - a) =~= rest);
    while b > a && char_is_whitespace(v[b - 1])
        invariant
            a <= b <= v@.len(),
            v@ == s@,
            rest == s@.skip(a as int),
            trailing_ws(rest) == (v@.len() - b) + trailing_ws(rest.take(b - a)),
        decreases b,
    {
        assert(rest.take(b - a).drop_last() =~= rest.take(b - a - 1));
        assert(rest.take(b - a).last() == v@[b - 1]);
        b -= 1;
    }
    assert(trailing_ws(rest.take(b - a)) == 0) by {
        if b > a {
            assert(rest.take(b - a).last() == v@[b - 1]);
        }
    }
    assert(v@.subrange(a as int, b as int) =~= rest.take(rest.len() - trailing_ws(rest)));
    string_of_chars(&v, a, b)
}

/// The pieces of `s` between occurrences of `sep`, as `str::split` with a `char` gives them.
pub open spec fn split_spec(s: Seq<char>, sep: char) -> Seq<Seq<char>>
    decreases s.len(),
{
    if s.len() == 0 {
        seq![Seq::empty()]
    } else {
        let prev = split_spec(s.drop_last(), sep);
        if s.last() == sep {
            prev.push(Seq::empty())
        } else {
            prev.update(prev.len() - 1, prev.last().push(s.last()))
        }
    }
}

/// A text always splits into at least one piece.
pub proof fn lemma_split_nonempty(s: Seq<char>, sep: char)
    ensures
        split_spec(s, sep).len() >= 1,
    decreases s.len(),
{
    if s.len() > 0 {
        lemma_split_nonempty(s.drop_last(), sep);
    }
}

/// The pieces of `s` between occurrences of `sep`.
pub fn split_char(s: &str, sep: char) -> (r: Vec<String>)
    ensures
        views(r@) == split_spec(s@, sep),
        r@.len() >= 1,
{
    let v = chars_of(s);
    let mut pieces: Vec<String> = Vec::new();
    let mut cur = String::new();
    let mut i: usize = 0;
    while i < v.len()
        invariant
            i <= v@.len(),
            v@ == s@,
            views(pieces@).push(cur@) == split_spec(s@.take(i as int), sep),
        decreases v@.len() - i,
    {
        let c = v[i];
        let ghost before = views(pieces@).push(cur@);
        assert(s@.take(i + 1).drop_last() =~= s@.take(i as int));
        assert(s@.take(i + 1).last() == c);
        proof { lemma_split_nonempty(s@.take(i as int), sep); }
        if c == sep {
            let done = cur;
            pieces.push(done);
            cur = String::new();
            assert(views(pieces@).push(cur@) =~= before.push(Seq::empty()));
        } else {
            push_char(&mut cur, c);
            assert(views(pieces@).push(cur@) =~= before.update(before.len() - 1, before.last().push(c)));
        }
        i += 1;
    }
    assert(s@.take(i as int) =~= s@);
    let ghost before = views(pieces@).push(cur@);
    pieces.push(cur);
    assert(views(pieces@) =~= before);
    pieces
}

/// Whether `c` occurs in `s`.
pub fn contains_char(s: &str, c: char) -> (r: bool)
    ensures
        r == s@.contains(c),
{
    let v = chars_of(s);
    let mut i: usize = 0;
    while i < v.len()
        invariant
            i <= v@.len(),
            v@ == s@,
            forall|j: int| 0 <= j < i ==> s@[j] != c,
        decreases v@.len() - i,
    {
        if v[i] == c {
            assert(s@[i as int] == c);
            return true;
        }
        i += 1;
    }
    false
}

/// Whether `s` ends with `suffix`.
pub fn ends_with_str(s: &str, suffix: &str) -> (r: bool)
    ensures
        r == suffix@.is_suffix_of(s@),
{
    let v = chars_of(s);
    let w = chars_of(suffix);
    if w.len() > v.len() {
        return false;
    }
    let off = v.len() - w.len();
    let mut i: usize = 0;
    while i < w.len()
        invariant
            i <= w@.len(),
            v@ == s@,
            w@ == suffix@,
            w@.len() <= v@.len(),
            v@.len() <= usize::MAX,
            off == v@.len() - w@.len(),
            forall|j: int| 0 <= j < i ==> s@[off + j] == suffix@[j],
        decreases w@.len() - i,
    {
        if v[off + i] != w[i] {
            assert(s@.subrange(s@.len() - suffix@.len(), s@.len() as int)[i as int] != suffix@[i as int]);
            return false;
        }
        i += 1;
    }
    assert(s@.subrange(s@.len() - suffix@.len(), s@.len() as int) =~= suffix@);
    true
}

/// Whether `a` and `b` are equal once ASCII letters are lowercased.
pub fn eq_ignore_ascii_case(a: &str, b: &str) -> (r: bool)
    ensures
        r == (a@.map_values(|c: char| ascii_lower(c)) == b@.map_values(|c: char| ascii_lower(c))),
{
    let va = chars_of(a);
    let vb = chars_of(b);
    let ghost la = a@.map_values(|c: char| ascii_lower(c));
    let ghost lb = b@.map_values(|c: char| ascii_lower(c));
    if va.len() != vb.len() {
        assert(la.len() != lb.len());
        return false;
    }
    let mut i: usize = 0;
    while i < va.len()
        invariant
            va@ == a@,
            vb@ == b@,
            va@.len() == vb@.len(),
            i <= va@.len(),
            la == a@.map_values(|c: char| ascii_lower(c)),
            lb == b@.map_values(|c: char| ascii_lower(c)),
            forall|j: int| 0 <= j < i ==> la[j] == lb[j],
        decreases va@.len() - i,
    {
        let c = va[i];
        let d = vb[i];
        let lc = if 'A' <= c && c <= 'Z' { ((c as u8) + 32) as char } else { c };
        let ld = if 'A' <= d && d <= 'Z' { ((d as u8) + 32) as char } else { d };
        assert(lc == la[i as int] && ld == lb[i as int]);
        if lc != ld {
            return false;
        }
        i = i + 1;
    }
    assert(la =~= lb);
    true
}

/// The texts of a sequence of strings.
pub open spec fn views(v: Seq<String>) -> Seq<Seq<char>> {
    v.map_values(|p: String| p@)
}

/// Pushing a string pushes its text.
pub proof fn lemma_views_push(v: Seq<String>, x: String)
    ensures
        views(v.push(x)) == views(v).push(x@),
{
    assert(views(v.push(x)) =~= views(v).push(x@));
}

/// Whether `pat` occurs in `s` starting at `i`.
pub open spec fn occurs_at(s: Seq<char>, pat: Seq<char>, i: int) -> bool {
    0 <= i && i + pat.len() <= s.len() && s.subrange(i, i + pat.len()) == pat
}

/// The first position at which `pat` occurs in `s`.
pub open spec fn first_occurrence(s: Seq<char>, pat: Seq<char>) -> Option<int> {
    if exists|i: int| #[trigger] occurs_at(s, pat, i) {
        Some(choose|i: int| occurs_at(s, pat, i) && forall|j: int| 0 <= j < i ==> !#[trigger] occurs_at(s, pat, j))
    } else {
        None
    }
}

/// Some occurrence has no occurrence before it.
proof fn lemma_earliest_occurrence(s: Seq<char>, pat: Seq<char>, i: int)
    requires
        occurs_at(s, pat, i),
    ensures
        exists|m: int| occurs_at(s, pat, m) && forall|j: int| 0 <= j < m ==> !#[trigger] occurs_at(s, pat, j),
    decreases i,
{
    if exists|j: int| 0 <= j < i && #[trigger] occurs_at(s, pat, j) {
        let j = choose|j: int| 0 <= j < i && #[trigger] occurs_at(s, pat, j);
        lemma_earliest_occurrence(s, pat, j);
    } else {
        assert(forall|j: int| 0 <= j < i ==> !#[trigger] occurs_at(s, pat, j));
    }
}

/// The first occurrence, when there is one, is an occurrence with none before it.
pub proof fn lemma_first_occurrence_found(s: Seq<char>, pat: Seq<char>)
    ensures
        first_occurrence(s, pat) matches Some(p) ==> occurs_at(s, pat, p)
            && forall|j: int| 0 <= j < p ==> !#[trigger] occurs_at(s, pat, j),
{
    if exists|i: int| #[trigger] occurs_at(s, pat, i) {
        let i = choose|i: int| #[trigger] occurs_at(s, pat, i);
        lemma_earliest_occurrence(s, pat, i);
    }
}

/// The first occurrence is the one with no occurrence before it.
pub proof fn lemma_first_occurrence(s: Seq<char>, pat: Seq<char>, i: int)
    requires
        occurs_at(s, pat, i),
        forall|j: int| 0 <= j < i ==> !#[trigger] occurs_at(s, pat, j),
    ensures
        first_occurrence(s, pat) == Some(i),
{
    let c = choose|c: int| occurs_at(s, pat, c) && forall|j: int| 0 <= j < c ==> !#[trigger] occurs_at(s, pat, j);
    assert(c == i) by {
        if c < i {
            assert(!occurs_at(s, pat, c));
        }
        if i < c {
            assert(!occurs_at(s, pat, i));
        }
    }
}

/// The first position at which `pat` occurs in `s`, if any.
pub fn find_str(s: &str, pat: &str) -> (r: Option<usize>)
    ensures
        match r {
            Some(i) => occurs_at(s@, pat@, i as int) && forall|j: int| 0 <= j < i ==> !#[trigger] occurs_at(s@, pat@, j),
            None => forall|j: int| !#[trigger] occurs_at(s@, pat@, j),
        },
        r == match first_occurrence(s@, pat@) {
            Some(i) => Some(i as usize),
            None => None::<usize>,
        },
{
    let v = chars_of(s);
    let w = chars_of(pat);
    if w.len() > v.len() {
        assert forall|i: int| !#[trigger] occurs_at(s@, pat@, i) by {}
        return None;
    }
    let mut i: usize = 0;
    while i <= v.len() - w.len()
        invariant
            v@ == s@,
            w@ == pat@,
            w@.len() <= v@.len(),
            v@.len() <= usize::MAX,
            i <= v@.len() - w@.len() + 1,
            forall|j: int| 0 <= j < i ==> !#[trigger] occurs_at(s@, pat@, j),
        decreases v@.len() - i,
    {
        let mut k: usize = 0;
        let mut same = true;
        while k < w.len()
            invariant
                v@ == s@,
                w@ == pat@,
                v@.len() <= usize::MAX,
                i + w@.len() <= v@.len(),
                k <= w@.len(),
                same == forall|m: int| 0 <= m < k ==> s@[i + m] == pat@[m],
            decreases w@.len() - k,
        {
            if v[i + k] != w[k] {
                same = false;
            }
            k += 1;
        }
        if same {
            assert(s@.subrange(i as int, i + pat@.len()) =~= pat@);
            assert(occurs_at(s@, pat@, i as int));
            proof { lemma_first_occurrence(s@, pat@, i as int); }
            return Some(i);
        }
        assert(!occurs_at(s@, pat@, i as int)) by {
            if occurs_at(s@, pat@, i as int) {
                let m = choose|m: int| 0 <= m < w@.len() && s@[i + m] != pat@[m];
                assert(s@.subrange(i as int, i + pat@.len())[m] == s@[i + m]);
            }
        }
        i += 1;
    }
    assert forall|j: int| !#[trigger] occurs_at(s@, pat@, j) by {
        if 0 <= j < i {
        }
    }
    None
}

/// The display text `String::from_utf8_lossy` gives for `bytes`.
pub uninterp spec fn utf8_lossy_text(bytes: Seq<u8>) -> Seq<char>;

/// Decodes bytes as UTF-8 with `String::from_utf8_lossy`.
///
/// Trusted: the text is what `utf8_lossy_text` names, a function of the bytes; std documents
/// that valid UTF-8 is decoded as is (only invalid sequences are replaced).
#[verifier::external_body]
pub(crate) fn utf8_lossy(bytes: &[u8]) -> (r: String)
    ensures
        r@ == utf8_lossy_text(bytes@),
        vstd::utf8::valid_utf8(bytes@) ==> r@ == vstd::utf8::decode_utf8(bytes@),
{
    String::from_utf8_lossy(bytes).into_owned()
}

/// The first line of `s` as `str::lines` gives it: up to the first `\n`, without a `\r`
/// just before it; the whole text when there is no `\n`; empty for an empty text.
pub open spec fn first_line(s: Seq<char>) -> Seq<char> {
    match first_occurrence(s, seq!['\n']) {
        Some(i) => if i > 0 && s[i - 1] == '\r' { s.take(i - 1) } else { s.take(i) },
        None => s,
    }
}

/// The first line of `s` (see `first_line`).
pub fn first_line_of(s: &str) -> (r: String)
    ensures
        r@ == first_line(s@),
{
    let v = chars_of(s);
    let nl = String::from_str("\n");
    proof { reveal_strlit("\n"); }
    assert(nl@ =~= seq!['\n']);
    match find_str(s, nl.as_str()) {
        Some(i) => {
            assert(i < v@.len());
            if i > 0 && v[i - 1] == '\r' {
                string_of_chars(&v, 0, i - 1)
            } else {
                string_of_chars(&v, 0, i)
            }
        },
        None => string_of_chars(&v, 0, v.len()),
    }
}

/// Whether `s` starts with `prefix`.
pub fn starts_with_str(s: &str, prefix: &str) -> (r: bool)
    ensures
        r == prefix@.is_prefix_of(s@),
{
    let v = chars_of(s);
    let w = chars_of(prefix);
    if w.len() > v.len() {
        return false;
    }
    let mut i: usize = 0;
    while i < w.len()
        invariant
            i <= w@.len(),
            w@.len() <= v@.len(),
            v@ == s@,
            w@ == prefix@,
            forall|j: int| 0 <= j < i ==> s@[j] == prefix@[j],
        decreases w@.len() - i,
    {
        if v[i] != w[i] {
            return false;
        }
        i += 1;
    }
    true
}

/// The pieces of `s` between non-overlapping occurrences of a non-empty `pat`, from the left.
pub open spec fn split_str_spec(s: Seq<char>, pat: Seq<char>) -> Seq<Seq<char>>
    decreases s.len(),
{
    if pat.len() == 0 {
        seq![s]
    } else {
        match first_occurrence(s, pat) {
            Some(i) => if 0 <= i && i + pat.len() <= s.len() {
                seq![s.take(i)] + split_str_spec(s.skip(i + pat.len()), pat)
            } else {
                seq![s]
            },
            None => seq![s],
        }
    }
}

/// The pieces of `s` between occurrences of a non-empty `pat`.
pub fn split_str(s: &str, pat: &str) -> (r: Vec<String>)
    requires
        pat@.len() > 0,
    ensures
        views(r@) == split_str_spec(s@, pat@),
    decreases s@.len(),
{
    let v = chars_of(s);
    let n = v.len();
    match find_str(s, pat) {
        Some(i) => {
            let w = chars_of(pat);
            let k = w.len();
            assert(i + k <= n);
            let head = string_of_chars(&v, 0, i);
            let rest = string_of_chars(&v, i + k, n);
            assert(rest@ =~= s@.skip(i + pat@.len()));
            let mut out: Vec<String> = Vec::new();
            out.push(head);
            let tail = split_str(rest.as_str(), pat);
            let ghost o1 = views(out@);
            let mut j: usize = 0;
            while j < tail.len()
                invariant
                    j <= tail@.len(),
                    views(out@) == o1 + views(tail@).take(j as int),
                decreases tail@.len() - j,
            {
                let ghost before = out@;
                let item = tail[j].clone();
                out.push(item);
                proof { lemma_views_push(before, item); }
                assert(views(tail@).take(j + 1) =~= views(tail@).take(j as int).push(tail@[j as int]@));
                assert(views(out@) =~= o1 + views(tail@).take(j + 1));
                j += 1;
            }
            assert(views(tail@).take(j as int) =~= views(tail@));
            assert(o1 =~= seq![s@.take(i as int)]);
            out
        },
        None => {
            let mut out: Vec<String> = Vec::new();
            let whole = string_of_chars(&v, 0, n);
            assert(whole@ =~= s@);
            out.push(whole);
            proof { lemma_views_push(Seq::empty(), whole); }
            assert(views(out@) =~= seq![s@]);
            out
        },
    }
}

/// The pieces joined with `sep` between them.
pub open spec fn join_spec(pieces: Seq<Seq<char>>, sep: Seq<char>) -> Seq<char>
    decreases pieces.len(),
{
    if pieces.len() == 0 {
        Seq::empty()
    } else if pieces.len() == 1 {
        pieces[0]
    } else {
        join_spec(pieces.drop_last(), sep) + sep + pieces.last()
    }
}

/// The pieces joined with `sep` between them.
pub fn join(pieces: &Vec<String>, sep: &str) -> (r: String)
    ensures
        r@ == join_spec(views(pieces@), sep@),
{
    let ghost pv = views(pieces@);
    let mut out = String::new();
    let mut i: usize = 0;
    while i < pieces.len()
        invariant
            i <= pieces@.len(),
            pv == views(pieces@),
            out@ == join_spec(pv.take(i as int), sep@),
        decreases pieces@.len() - i,
    {
        assert(pv.take(i + 1).drop_last() =~= pv.take(i as int));
        assert(pv.take(i + 1).last() == pieces@[i as int]@);
        if i > 0 {
            out.append(sep);
        } else {
            assert(pv.take(1)[0] == pieces@[0]@);
        }
        out.append(pieces[i].as_str());
        i += 1;
    }
    assert(pv.take(i as int) =~= pv);
    out
}

/// `s` without a trailing `\r`.
pub open spec fn strip_cr(s: Seq<char>) -> Seq<char> {
    if s.len() > 0 && s.last() == '\r' { s.drop_last() } else { s }
}

/// The lines of `s` as `str::lines` gives them: split at `\n`, a `\r` before a `\n`
/// dropped, no empty line after a final `\n`.
pub open spec fn lines_spec(s: Seq<char>) -> Seq<Seq<char>> {
    let p = split_spec(s, '\n');
    let n = p.len();
    Seq::new(
        if n > 0 && p.last().len() == 0 { (n - 1) as nat } else { n },
        |i: int| if i < n - 1 { strip_cr(p[i]) } else { p[i] },
    )
}

/// The lines of `s` (see `lines_spec`).
pub fn lines(s: &str) -> (r: Vec<String>)
    ensures
        views(r@) == lines_spec(s@),
{
    let pieces = split_char(s, '\n');
    let ghost p = views(pieces@);
    let n = pieces.len();
    let count = if n > 0 && pieces[n - 1].as_str().is_empty() { n - 1 } else { n };
    let mut out: Vec<String> = Vec::new();
    let mut i: usize = 0;
    while i < count
        invariant
            i <= count,
            count <= n,
            n == pieces@.len(),
            p == views(pieces@),
            count == (if n > 0 && p.last().len() == 0 { (n - 1) as nat } else { n as nat }),
            views(out@) == lines_spec(s@).take(i as int),
            p == split_spec(s@, '\n'),
        decreases count - i,
    {
        let piece = &pieces[i];
        let line = if i < n - 1 {
            let v = chars_of(piece.as_str());
            let k = v.len();
            if k > 0 && v[k - 1] == '\r' {
                string_of_chars(&v, 0, k - 1)
            } else {
                string_of_chars(&v, 0, k)
            }
        } else {
            piece.clone()
        };
        assert(line@ == lines_spec(s@)[i as int]) by {
            if i < n - 1 {
                assert(piece@ == p[i as int]);
            }
        }
        let ghost before = out@;
        out.push(line);
        proof { lemma_views_push(before, line); }
        assert(views(out@) =~= lines_spec(s@).take(i + 1));
        i += 1;
    }
    assert(lines_spec(s@).take(i as int) =~= lines_spec(s@));
    out
}

/// The position of the last `c` in `s`.
pub open spec fn last_index(s: Seq<char>, c: char) -> Option<int>
    decreases s.len(),
{
    if s.len() == 0 {
        None
    } else if s.last() == c {
        Some(s.len() - 1)
    } else {
        last_index(s.drop_last(), c)
    }
}

/// The position of the last `c` in `s`, if any.
pub fn rfind_char(s: &str, c: char) -> (r: Option<usize>)
    ensures
        match last_index(s@, c) {
            Some(i) => r == Some(i as usize) && 0 <= i < s@.len(),
            None => r is None,
        },
{
    let v = chars_of(s);
    let mut k: usize = v.len();
    assert(s@.take(k as int) =~= s@);
    while k > 0
        invariant
            k <= v@.len(),
            v@ == s@,
            last_index(s@, c) == last_index(s@.take(k as int), c),
        decreases k,
    {
        assert(s@.take(k as int).drop_last() =~= s@.take(k - 1));
        if v[k - 1] == c {
            return Some(k - 1);
        }
        k -= 1;
    }
    None
}

/// What `str::parse::<u16>` accepts: as `parse_u64_spec`, within 16 bits.
pub open spec fn parse_u16_spec(s: Seq<char>) -> Option<u16> {
    match parse_u64_spec(s) {
        Some(n) => if n <= 65535 { Some(n as u16) } else { None },
        None => None,
    }
}

/// Parses an unsigned decimal number of at most 16 bits.
pub fn parse_u16(s: &str) -> (r: Option<u16>)
    ensures
        r == parse_u16_spec(s@),
{
    match parse_u64(s) {
        Some(n) => if n <= 65535 { Some(n as u16) } else { None },
        None => None,
    }
}

/// The words of `s` as `str::split_whitespace` gives them: the maximal runs of
/// non-whitespace characters, in order.
pub open spec fn words_spec(s: Seq<char>) -> Seq<Seq<char>>
    decreases s.len(),
{
    if s.len() == 0 {
        Seq::empty()
    } else {
        let prev = words_spec(s.drop_last());
        let c = s.last();
        if spec_is_whitespace(c) {
            prev
        } else if s.len() >= 2 && !spec_is_whitespace(s[s.len() - 2]) && prev.len() > 0 {
            prev.update(prev.len() - 1, prev.last().push(c))
        } else {
            prev.push(seq![c])
        }
    }
}

/// The words of `s` (see `words_spec`).
pub fn split_whitespace(s: &str) -> (r: Vec<String>)
    ensures
        views(r@) == words_spec(s@),
{
    let v = chars_of(s);
    let mut words: Vec<String> = Vec::new();
    let mut cur = String::new();
    let mut in_word = false;
    let mut i: usize = 0;
    while i < v.len()
        invariant
            i <= v@.len(),
            v@ == s@,
            in_word ==> i > 0 && !spec_is_whitespace(s@[i - 1]) && cur@.len() > 0,
            !in_word ==> (i == 0 || spec_is_whitespace(s@[i - 1])) && cur@.len() == 0,
            (if in_word { views(words@).push(cur@) } else { views(words@) }) == words_spec(s@.take(i as int)),
        decreases v@.len() - i,
    {
        let c = v[i];
        assert(s@.take(i + 1).drop_last() =~= s@.take(i as int));
        assert(s@.take(i + 1).last() == c);
        if i >= 1 {
            assert(s@.take(i + 1)[i - 1] == s@[i - 1]);
        }
        if char_is_whitespace(c) {
            if in_word {
                let ghost before = words@;
                let done = cur;
                words.push(done);
                proof { lemma_views_push(before, done); }
                cur = String::new();
                in_word = false;
            }
        } else {
            let ghost before = views(words@);
            push_char(&mut cur, c);
            if !in_word {
                assert(cur@ =~= seq![c]);
            }
            in_word = true;
        }
        i += 1;
    }
    assert(s@.take(i as int) =~= s@);
    if in_word {
        let ghost before = words@;
        let done = cur;
        words.push(done);
        proof { lemma_views_push(before, done); }
    }
    words
}

/// The pieces joined with single spaces.
pub fn join_with_space(pieces: &Vec<String>, from: usize) -> (r: String)
    requires
        from <= pieces@.len(),
    ensures
        r@ == join_spec(views(pieces@).skip(from as int), " "@),
{
    let ghost pv = views(pieces@).skip(from as int);
    let mut out = String::new();
    let mut i: usize = from;
    while i < pieces.len()
        invariant
            from <= i <= pieces@.len(),
            pv == views(pieces@).skip(from as int),
            out@ == join_spec(pv.take(i - from), " "@),
        decreases pieces@.len() - i,
    {
        assert(pv.take(i - from + 1).drop_last() =~= pv.take(i - from));
        assert(pv.take(i - from + 1).last() == pieces@[i as int]@);
        if i > from {
            out.append(" ");
        } else {
            assert(pv.take(1)[0] == pieces@[i as int]@);
        }
        out.append(pieces[i].as_str());
        i += 1;
    }
    assert(pv.take(i - from) =~= pv);
    out
}

/// What `str::parse::<usize>` accepts: as `parse_u64_spec`, within the size of `usize`.
pub open spec fn parse_usize_spec(s: Seq<char>) -> Option<usize> {
    match parse_u64_spec(s) {
        Some(n) => if n <= usize::MAX { Some(n as usize) } else { None },
        None => None,
    }
}

/// Parses an unsigned decimal number that fits in a `usize`.
pub fn parse_usize(s: &str) -> (r: Option<usize>)
    ensures
        r == parse_usize_spec(s@),
{
    match parse_u64(s) {
        Some(n) => if n <= usize::MAX as u64 { Some(n as usize) } else { None },
        None => None,
    }
}

} // verus!
