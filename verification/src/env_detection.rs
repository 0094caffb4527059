use vstd::prelude::*;
use crate::text::{lines, lines_spec, views, chars_of, string_of_chars, leading_ws, starts_with_char,
    contains_char, first_occurrence, find_str, string_from_utf8, starts_with_str};
use crate::unicode::{char_is_whitespace, spec_is_whitespace, str_to_uppercase, spec_str_to_uppercase};

verus! {

/// What kind of content a sample looks like.
#[derive(Debug, Clone, Copy, PartialEq, Eq, Structural)]
pub enum DetectionMode {
    /// `KEY=VALUE` lines.
    EnvFormat,
    /// Plain text.
    TextFormat,
    /// Binary content, which env-mode refuses.
    BinaryDetected,
}

/// How many bytes of the input are looked at.
pub const DETECTION_SAMPLE_SIZE: usize = 512;

/// The secret keywords looked for in variable names.
pub open spec fn secret_keywords() -> Seq<Seq<char>> {
    seq!["API_KEY"@, "SECRET"@, "TOKEN"@, "PASSWORD"@, "CREDENTIAL"@, "PASSPHRASE"@, "AWS_ACCESS"@,
        "AWS_SECRET"@, "PRIVATE_KEY"@]
}

/// The common variable names looked for at line starts.
pub open spec fn common_env_vars() -> Seq<Seq<char>> {
    seq!["PATH"@, "HOME"@, "USER"@, "SHELL"@, "LANG"@, "PWD"@, "HOSTNAME"@, "TERM"@]
}

/// Whether a byte is printable ASCII, tab, line feed or carriage return.
pub open spec fn printable(b: u8) -> bool {
    (32 <= b <= 126) || b == 9 || b == 10 || b == 13
}

/// The number of bytes that are not printable.
pub open spec fn non_printable_count(d: Seq<u8>) -> nat
    decreases d.len(),
{
    if d.len() == 0 { 0 } else { non_printable_count(d.drop_last()) + if printable(d.last()) { 0nat } else { 1nat } }
}

/// Whether more than 30% of the bytes are not printable.
pub open spec fn mostly_unprintable(d: Seq<u8>) -> bool {
    d.len() > 0 && 10 * non_printable_count(d) > 3 * d.len()
}

/// `s` without its leading whitespace.
pub open spec fn trim_start_spec(s: Seq<char>) -> Seq<char> {
    s.skip(leading_ws(s) as int)
}

/// Whether a line is a `NAME=VALUE` assignment: not empty, not a `#` or `;` comment, with an `=`.
pub open spec fn is_assignment(line: Seq<char>) -> bool {
    line.len() > 0 && line[0] != '#' && line[0] != ';' && line.contains('=')
}

/// The variable name of a line: its text after leading whitespace, up to the first `=`.
pub open spec fn var_name(line: Seq<char>) -> Seq<char> {
    let t = trim_start_spec(line);
    match first_occurrence(t, "="@) {
        Some(i) => t.take(i),
        None => t,
    }
}

/// Whether a line's variable name, upper-cased, holds a secret keyword.
pub open spec fn names_secret(line: Seq<char>) -> bool {
    exists|k: int| 0 <= k < secret_keywords().len()
        && first_occurrence(spec_str_to_uppercase(var_name(line)), #[trigger] secret_keywords()[k]) is Some
}

/// Whether a line starts (after leading whitespace) with a common variable name and holds an `=`.
pub open spec fn names_common_var(line: Seq<char>) -> bool {
    let t = trim_start_spec(line);
    exists|k: int| 0 <= k < common_env_vars().len() && (#[trigger] common_env_vars()[k]).is_prefix_of(t) && t.contains('=')
}

/// The number of lines with a property.
pub open spec fn count_lines(ls: Seq<Seq<char>>, p: spec_fn(Seq<char>) -> bool) -> nat
    decreases ls.len(),
{
    if ls.len() == 0 { 0 } else { count_lines(ls.drop_last(), p) + if p(ls.last()) { 1nat } else { 0nat } }
}

/// The line counts the env-format score is made of.
#[derive(Debug, Clone, Copy, PartialEq, Eq, Structural)]
pub struct EnvCounts {
    /// All lines.
    pub lines: usize,
    /// Assignment lines.
    pub var_equals: usize,
    /// Lines whose variable name holds a secret keyword.
    pub secret_keywords: usize,
    /// Lines that assign a common variable.
    pub common_env: usize,
}

/// Whether `c` counts the lines of `text`.
pub open spec fn counts_of(text: Seq<char>, c: EnvCounts) -> bool {
    let ls = lines_spec(text);
    &&& c.lines == ls.len()
    &&& c.var_equals == count_lines(ls, |l: Seq<char>| is_assignment(l))
    &&& c.secret_keywords == count_lines(ls, |l: Seq<char>| names_secret(l))
    &&& c.common_env == count_lines(ls, |l: Seq<char>| names_common_var(l))
}

/// What a sample of the input is found to be.
#[derive(Debug, Clone, PartialEq, Eq)]
pub enum SampleKind {
    /// Binary, and why.
    Binary(String),
    /// Text, with its line counts.
    Text(EnvCounts),
}

/// Whether a byte string holds a zero byte.
pub fn contains_null_bytes(data: &[u8]) -> (r: bool)
    ensures
        r == data@.contains(0u8),
{
    let mut i: usize = 0;
    while i < data.len()
        invariant
            i <= data@.len(),
            forall|j: int| 0 <= j < i ==> data@[j] != 0,
        decreases data@.len() - i,
    {
        if data[i] == 0 {
            return true;
        }
        i += 1;
    }
    false
}

/// Whether more than 30% of the bytes are not printable (see `mostly_unprintable`).
pub fn has_high_non_printable_ratio(data: &[u8]) -> (r: bool)
    ensures
        r == mostly_unprintable(data@),
{
    if data.len() == 0 {
        return false;
    }
    let mut n: usize = 0;
    let mut i: usize = 0;
    while i < data.len()
        invariant
            i <= data@.len(),
            n == non_printable_count(data@.take(i as int)),
            n <= i,
        decreases data@.len() - i,
    {
        assert(data@.take(i + 1).drop_last() == data@.take(i as int));
        let b = data[i];
        if !((32 <= b && b <= 126) || b == 9 || b == 10 || b == 13) {
            n += 1;
        }
        i += 1;
    }
    assert(data@.take(i as int) == data@);
    (n as u128) * 10 > (data.len() as u128) * 3
}

/// `s` without its leading whitespace.
fn trim_start(s: &str) -> (r: String)
    ensures
        r@ == trim_start_spec(s@),
{
    let v = chars_of(s);
    let mut a: usize = 0;
    proof { lemma_leading_ws_take(s@, 0); }
    while a < v.len() && char_is_whitespace(v[a])
        invariant
            a <= v@.len(),
            v@ == s@,
            leading_ws(s@) == a + leading_ws(s@.skip(a as int)),
        decreases v@.len() - a,
    {
        assert(s@.skip(a as int).drop_first() == s@.skip(a + 1));
        assert(s@.skip(a as int)[0] == s@[a as int]);
        a += 1;
    }
    proof {
        if a < v@.len() {
            assert(s@.skip(a as int)[0] == s@[a as int]);
        }
    }
    string_of_chars(&v, a, v.len())
}

proof fn lemma_leading_ws_take(s: Seq<char>, a: int)
    requires
        a == 0,
    ensures
        leading_ws(s) == a + leading_ws(s.skip(a)),
{
    assert(s.skip(0) == s);
}

/// Whether a line is an assignment (see `is_assignment`).
fn assignment_line(line: &str) -> (r: bool)
    ensures
        r == is_assignment(line@),
{
    !line.is_empty() && !starts_with_char(line, '#') && !starts_with_char(line, ';') && contains_char(line, '=')
}

/// Whether a line's variable name holds a secret keyword (see `names_secret`).
fn secret_line(line: &str) -> (r: bool)
    ensures
        r == names_secret(line@),
{
    let t = trim_start(line);
    proof { reveal_strlit("="); }
    let name = match find_str(t.as_str(), "=") {
        Some(i) => {
            let v = chars_of(t.as_str());
            string_of_chars(&v, 0, i)
        },
        None => t.clone(),
    };
    let upper = str_to_uppercase(name.as_str());
    let u = upper.as_str();
    let keywords: [&str; 9] = ["API_KEY", "SECRET", "TOKEN", "PASSWORD", "CREDENTIAL", "PASSPHRASE", "AWS_ACCESS",
        "AWS_SECRET", "PRIVATE_KEY"];
    assert(keywords@.map_values(|k: &str| k@) == secret_keywords());
    let mut k: usize = 0;
    while k < 9
        invariant
            k <= 9,
            keywords@.map_values(|k: &str| k@) == secret_keywords(),
            u@ == spec_str_to_uppercase(var_name(line@)),
            forall|j: int| 0 <= j < k ==> first_occurrence(u@, #[trigger] secret_keywords()[j]) is None,
        decreases 9 - k,
    {
        assert(keywords@.map_values(|k: &str| k@)[k as int] == keywords@[k as int]@);
        if find_str(u, keywords[k]).is_some() {
            return true;
        }
        k += 1;
    }
    false
}

/// Whether a line assigns a common variable (see `names_common_var`).
fn common_var_line(line: &str) -> (r: bool)
    ensures
        r == names_common_var(line@),
{
    let t = trim_start(line);
    let t = t.as_str();
    let vars: [&str; 8] = ["PATH", "HOME", "USER", "SHELL", "LANG", "PWD", "HOSTNAME", "TERM"];
    assert(vars@.map_values(|k: &str| k@) == common_env_vars());
    let has_eq = contains_char(t, '=');
    let mut k: usize = 0;
    while k < 8
        invariant
            k <= 8,
            vars@.map_values(|k: &str| k@) == common_env_vars(),
            t@ == trim_start_spec(line@),
            has_eq == t@.contains('='),
            forall|j: int| 0 <= j < k ==> !((#[trigger] common_env_vars()[j]).is_prefix_of(t@) && t@.contains('=')),
        decreases 8 - k,
    {
        assert(vars@.map_values(|k: &str| k@)[k as int] == vars@[k as int]@);
        if starts_with_str(t, vars[k]) && has_eq {
            return true;
        }
        k += 1;
    }
    false
}

/// The line counts of a text (see `counts_of`).
pub fn env_counts(content: &str) -> (r: EnvCounts)
    ensures
        counts_of(content@, r),
{
    let ls = lines(content);
    let ghost lv = views(ls@);
    let mut var_equals: usize = 0;
    let mut secrets: usize = 0;
    let mut common: usize = 0;
    let mut i: usize = 0;
    while i < ls.len()
        invariant
            i <= ls@.len(),
            lv == views(ls@),
            lv == lines_spec(content@),
            var_equals == count_lines(lv.take(i as int), |l: Seq<char>| is_assignment(l)),
            secrets == count_lines(lv.take(i as int), |l: Seq<char>| names_secret(l)),
            common == count_lines(lv.take(i as int), |l: Seq<char>| names_common_var(l)),
            var_equals <= i && secrets <= i && common <= i,
        decreases ls@.len() - i,
    {
        assert(lv.take(i + 1).drop_last() == lv.take(i as int));
        assert(lv.take(i + 1).last() == ls@[i as int]@);
        let line = ls[i].as_str();
        if assignment_line(line) {
            var_equals += 1;
        }
        if secret_line(line) {
            secrets += 1;
        }
        if common_var_line(line) {
            common += 1;
        }
        i += 1;
    }
    assert(lv.take(i as int) == lv);
    EnvCounts { lines: ls.len(), var_equals, secret_keywords: secrets, common_env: common }
}

/// The number of bytes a UTF-8 character starting with `b` takes (0 when `b` starts none
/// of more than one byte).
pub open spec fn lead_width(b: u8) -> int {
    if vstd::utf8::is_leading_byte_width_2(b) { 2 }
    else if vstd::utf8::is_leading_byte_width_3(b) { 3 }
    else if vstd::utf8::is_leading_byte_width_4(b) { 4 }
    else { 0 }
}

/// Whether `t` is the start of a multi-byte character cut short: a leading byte and fewer
/// continuation bytes than the character needs.
pub open spec fn cut_char(t: Seq<u8>) -> bool {
    &&& t.len() >= 1
    &&& lead_width(t[0]) > t.len()
    &&& forall|i: int| 1 <= i < t.len() ==> vstd::utf8::is_continuation_byte(#[trigger] t[i])
}

/// How many trailing bytes of a sample are a character cut short by the sample's end (0
/// when none are).
pub open spec fn cut_len(s: Seq<u8>) -> int {
    if s.len() >= 1 && cut_char(s.skip(s.len() - 1)) { 1 }
    else if s.len() >= 2 && cut_char(s.skip(s.len() - 2)) { 2 }
    else if s.len() >= 3 && cut_char(s.skip(s.len() - 3)) { 3 }
    else { 0 }
}

/// The bytes of a sample read as text: all of it when it is UTF-8; when the sample was cut
/// from a longer input inside a character, what precedes that character when that is UTF-8;
/// else none.
pub open spec fn sample_text(input: Seq<u8>, s: Seq<u8>) -> Option<Seq<u8>> {
    if vstd::utf8::valid_utf8(s) {
        Some(s)
    } else if input.len() > DETECTION_SAMPLE_SIZE && cut_len(s) > 0
        && vstd::utf8::valid_utf8(s.take(s.len() - cut_len(s))) {
        Some(s.take(s.len() - cut_len(s)))
    } else {
        None
    }
}

/// What the first 512 bytes of the input are: binary when they hold a zero byte, are
/// mostly unprintable, or are not UTF-8 (in that order of checks; a character cut by the
/// 512-byte limit is left out, see `sample_text`), and text with its line counts otherwise.
pub fn classify_sample(input: &[u8]) -> (r: SampleKind)
    ensures
        ({
            let s = if input@.len() > DETECTION_SAMPLE_SIZE { input@.take(512) } else { input@ };
            if s.contains(0u8) {
                r matches SampleKind::Binary(m) && m@ == "Binary content detected (null bytes)"@
            } else if mostly_unprintable(s) {
                r matches SampleKind::Binary(m) && m@ == "Binary content detected (non-printable chars)"@
            } else {
                match sample_text(input@, s) {
                    None => r matches SampleKind::Binary(m) && m@ == "Invalid UTF-8 detected"@,
                    Some(t) => r matches SampleKind::Text(c) && counts_of(vstd::utf8::decode_utf8(t), c),
                }
            }
        }),
{
    let n = if input.len() > DETECTION_SAMPLE_SIZE { DETECTION_SAMPLE_SIZE } else { input.len() };
    let mut sample: Vec<u8> = Vec::new();
    let mut i: usize = 0;
    while i < n
        invariant
            i <= n,
            n <= input@.len(),
            sample@ == input@.take(i as int),
        decreases n - i,
    {
        sample.push(input[i]);
        assert(input@.take(i + 1) == input@.take(i as int).push(input@[i as int]));
        i += 1;
    }
    assert(sample@ == (if input@.len() > DETECTION_SAMPLE_SIZE { input@.take(512) } else { input@ }));
    if contains_null_bytes(sample.as_slice()) {
        return SampleKind::Binary(String::from_str("Binary content detected (null bytes)"));
    }
    if has_high_non_printable_ratio(sample.as_slice()) {
        return SampleKind::Binary(String::from_str("Binary content detected (non-printable chars)"));
    }
    let cut = if input.len() > DETECTION_SAMPLE_SIZE { cut_length(sample.as_slice()) } else { 0 };
    let mut head: Vec<u8> = Vec::new();
    let mut j: usize = 0;
    let m = sample.len() - cut;
    while j < m
        invariant
            j <= m,
            m <= sample@.len(),
            head@ == sample@.take(j as int),
        decreases m - j,
    {
        head.push(sample[j]);
        assert(sample@.take(j + 1) == sample@.take(j as int).push(sample@[j as int]));
        j += 1;
    }
    match string_from_utf8(sample) {
        Ok(text) => SampleKind::Text(env_counts(text.as_str())),
        Err(_) => {
            if cut == 0 {
                return SampleKind::Binary(String::from_str("Invalid UTF-8 detected"));
            }
            match string_from_utf8(head) {
                Ok(text) => SampleKind::Text(env_counts(text.as_str())),
                Err(_) => SampleKind::Binary(String::from_str("Invalid UTF-8 detected")),
            }
        },
    }
}

fn lead_width_exec(b: u8) -> (r: usize)
    ensures
        r == lead_width(b),
{
    if 0xc0 <= b && b <= 0xdf { 2 } else if 0xe0 <= b && b <= 0xef { 3 } else if 0xf0 <= b && b <= 0xf7 { 4 } else { 0 }
}

/// Whether the last `k` bytes of `s` are a character cut short (see `cut_char`).
fn is_cut_tail(s: &[u8], k: usize) -> (r: bool)
    requires
        1 <= k <= s@.len(),
    ensures
        r == cut_char(s@.skip(s@.len() - k)),
{
    let n = s.len();
    let ghost t = s@.skip(n - k);
    if lead_width_exec(s[n - k]) <= k {
        assert(t[0] == s@[n - k]);
        return false;
    }
    let mut i: usize = 1;
    while i < k
        invariant
            1 <= i <= k,
            k <= n,
            n == s@.len(),
            t == s@.skip(n - k),
            forall|q: int| 1 <= q < i ==> vstd::utf8::is_continuation_byte(#[trigger] t[q]),
        decreases k - i,
    {
        let b = s[n - k + i];
        assert(t[i as int] == b);
        if !(0x80 <= b && b <= 0xbf) {
            return false;
        }
        i += 1;
    }
    assert(t[0] == s@[n - k]);
    true
}

/// The number of trailing bytes that are a character cut short (see `cut_len`).
fn cut_length(s: &[u8]) -> (r: usize)
    ensures
        r == cut_len(s@),
{
    let n = s.len();
    if n >= 1 && is_cut_tail(s, 1) { 1 }
    else if n >= 2 && is_cut_tail(s, 2) { 2 }
    else if n >= 3 && is_cut_tail(s, 3) { 3 }
    else { 0 }
}

} // verus!
