use vstd::prelude::*;

verus! {

/// What `char::is_uppercase` returns for `c` (Unicode `Uppercase` property).
pub uninterp spec fn spec_is_uppercase(c: char) -> bool;

/// What `char::to_uppercase` yields for `c`, as characters.
pub uninterp spec fn spec_to_uppercase(c: char) -> Seq<char>;

/// Calls `char::is_uppercase`; the result is named by `spec_is_uppercase`. For ASCII
/// characters the documentation gives it as `'A'..='Z'`, which is stated too.
#[verifier::external_body]
pub(crate) fn char_is_uppercase(c: char) -> (r: bool)
    ensures
        r == spec_is_uppercase(c),
        (c as u32) < 128 ==> (r == ('A' <= c && c <= 'Z')),
{
    c.is_uppercase()
}

/// Calls `char::to_uppercase` and collects the characters it yields; the result is named
/// by `spec_to_uppercase`.
#[verifier::external_body]
pub(crate) fn char_to_uppercase(c: char) -> (r: String)
    ensures
        r@ == spec_to_uppercase(c),
{
    c.to_uppercase().collect::<String>()
}

/// What `char::is_whitespace` returns for a character beyond ASCII (Unicode `White_Space`
/// property).
pub uninterp spec fn unicode_whitespace(c: char) -> bool;

/// Whether `char::is_whitespace` holds of `c`: among ASCII characters, of the space and of
/// tab through carriage return (U+0009 to U+000D), as the `White_Space` property gives.
pub open spec fn spec_is_whitespace(c: char) -> bool {
    if (c as u32) < 128 { c == ' ' || ('\t' <= c && c <= '\r') } else { unicode_whitespace(c) }
}

/// Calls `char::is_whitespace`; the result is `spec_is_whitespace`, named by
/// `unicode_whitespace` beyond ASCII.
#[verifier::external_body]
pub(crate) fn char_is_whitespace(c: char) -> (r: bool)
    ensures
        r == spec_is_whitespace(c),
        (c as u32) >= 128 ==> r == unicode_whitespace(c),
{
    c.is_whitespace()
}

/// Whether every character of a text is ASCII.
pub open spec fn is_ascii_text(s: Seq<char>) -> bool {
    forall|i: int| 0 <= i < s.len() ==> (s[i] as u32) < 128
}

/// A character's ASCII lowercase: `'A'..='Z'` to `'a'..='z'`, any other kept.
pub open spec fn ascii_lower(c: char) -> char {
    if 'A' <= c && c <= 'Z' { ((c as u32) + 32) as char } else { c }
}

/// A character's ASCII uppercase: `'a'..='z'` to `'A'..='Z'`, any other kept.
pub open spec fn ascii_upper(c: char) -> char {
    if 'a' <= c && c <= 'z' { ((c as u32) - 32) as char } else { c }
}

/// A text with each character mapped to its ASCII lowercase.
pub open spec fn ascii_lowercase(s: Seq<char>) -> Seq<char> {
    s.map_values(|c: char| ascii_lower(c))
}

/// A text with each character mapped to its ASCII uppercase.
pub open spec fn ascii_uppercase(s: Seq<char>) -> Seq<char> {
    s.map_values(|c: char| ascii_upper(c))
}

/// What `str::to_lowercase` returns for a text that is not all ASCII (Unicode lowercase
/// mapping).
pub uninterp spec fn unicode_lowercase(s: Seq<char>) -> Seq<char>;

/// What `str::to_lowercase` returns: for an ASCII text the Unicode mapping is the ASCII one,
/// character by character (`'A'..='Z'` become `'a'..='z'`).
pub open spec fn spec_str_to_lowercase(s: Seq<char>) -> Seq<char> {
    if is_ascii_text(s) { ascii_lowercase(s) } else { unicode_lowercase(s) }
}

/// Calls `str::to_lowercase`; the result is `spec_str_to_lowercase`, named by
/// `unicode_lowercase` for a text beyond ASCII.
#[verifier::external_body]
pub(crate) fn str_to_lowercase(s: &str) -> (r: String)
    ensures
        r@ == spec_str_to_lowercase(s@),
        !is_ascii_text(s@) ==> r@ == unicode_lowercase(s@),
{
    s.to_lowercase()
}

/// What `str::to_uppercase` returns for a text that is not all ASCII (Unicode uppercase
/// mapping).
pub uninterp spec fn unicode_uppercase(s: Seq<char>) -> Seq<char>;

/// What `str::to_uppercase` returns: for an ASCII text the Unicode mapping is the ASCII one,
/// character by character (`'a'..='z'` become `'A'..='Z'`).
pub open spec fn spec_str_to_uppercase(s: Seq<char>) -> Seq<char> {
    if is_ascii_text(s) { ascii_uppercase(s) } else { unicode_uppercase(s) }
}

/// Calls `str::to_uppercase`; the result is `spec_str_to_uppercase`, named by
/// `unicode_uppercase` for a text beyond ASCII.
#[verifier::external_body]
pub(crate) fn str_to_uppercase(s: &str) -> (r: String)
    ensures
        r@ == spec_str_to_uppercase(s@),
        !is_ascii_text(s@) ==> r@ == unicode_uppercase(s@),
{
    s.to_uppercase()
}

} // verus!
