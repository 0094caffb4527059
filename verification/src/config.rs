use vstd::prelude::*;
use crate::text::{str_eq, split_char, split_spec, views, trim, trim_spec, parse_u64, parse_u64_spec};
use crate::unicode::{str_to_lowercase, spec_str_to_lowercase};
use crate::secrets::lists_text;

verus! {

/// Which patterns a redaction run applies.
#[derive(Debug, Clone)]
pub enum PatternSelection {
    /// Only the patterns listed.
    Whitelist(Vec<String>),
    /// Every pattern but those listed.
    Blacklist(Vec<String>),
    /// Every pattern.
    All,
    /// No pattern.
    NoPatterns,
}

impl Default for PatternSelection {
    fn default() -> (s: Self)
        ensures
            s is All,
    {
        PatternSelection::All
    }
}

/// Whether a selection applies the pattern `name`.
pub open spec fn selection_applies(s: PatternSelection, name: Seq<char>) -> bool {
    match s {
        PatternSelection::All => true,
        PatternSelection::NoPatterns => false,
        PatternSelection::Whitelist(v) => lists_text(v@, name),
        PatternSelection::Blacklist(v) => !lists_text(v@, name),
    }
}

/// Whether `v` holds a string equal to `x`.
fn listed(v: &Vec<String>, x: &str) -> (r: bool)
    ensures
        r == lists_text(v@, x@),
{
    let mut i: usize = 0;
    while i < v.len()
        invariant
            i <= v@.len(),
            forall|j: int| 0 <= j < i ==> (#[trigger] v@[j])@ != x@,
        decreases v@.len() - i,
    {
        if str_eq(v[i].as_str(), x) {
            return true;
        }
        i += 1;
    }
    false
}

impl PatternSelection {
    /// Whether the pattern `pattern_name` is redacted under this selection.
    pub fn should_redact(&self, pattern_name: &str) -> (r: bool)
        ensures
            r == selection_applies(*self, pattern_name@),
    {
        match self {
            PatternSelection::All => true,
            PatternSelection::NoPatterns => false,
            PatternSelection::Whitelist(v) => listed(v, pattern_name),
            PatternSelection::Blacklist(v) => !listed(v, pattern_name),
        }
    }
}

/// The redaction mode (`all`, `none` or `configured`) and the pattern selection.
#[derive(Debug, Clone)]
pub struct RedactionConfig {
    pub mode: String,
    pub patterns: PatternSelection,
}

impl RedactionConfig {
    /// Redacts every pattern.
    pub fn all() -> (c: Self)
        ensures
            c.mode@ == "all"@,
            c.patterns is All,
    {
        RedactionConfig { mode: String::from_str("all"), patterns: PatternSelection::All }
    }

    /// Redacts nothing.
    pub fn none() -> (c: Self)
        ensures
            c.mode@ == "none"@,
            c.patterns is NoPatterns,
    {
        RedactionConfig { mode: String::from_str("none"), patterns: PatternSelection::NoPatterns }
    }
}

impl Default for RedactionConfig {
    fn default() -> (c: Self)
        ensures
            c.mode@ == "all"@,
            c.patterns is All,
    {
        RedactionConfig::all()
    }
}

/// The pieces of a comma-separated list, each trimmed.
pub open spec fn trimmed_pieces(s: Seq<char>) -> Seq<Seq<char>> {
    split_spec(s, ',').map_values(|p: Seq<char>| trim_spec(p))
}

/// The list a variable's value gives: its trimmed comma-separated pieces, or the default
/// when the variable is unset or empty.
pub fn env_list_value(raw: Option<&str>, default: Vec<String>) -> (r: Vec<String>)
    ensures
        match raw {
            Some(v) => if v@.len() > 0 { views(r@) == trimmed_pieces(v@) } else { r@ == default@ },
            None => r@ == default@,
        },
{
    match raw {
        Some(v) => {
            if v.is_empty() {
                return default;
            }
            let parts = split_char(v, ',');
            let mut out: Vec<String> = Vec::new();
            let mut i: usize = 0;
            while i < parts.len()
                invariant
                    i <= parts@.len(),
                    views(parts@) == split_spec(v@, ','),
                    views(out@) == views(parts@).take(i as int).map_values(|p: Seq<char>| trim_spec(p)),
                decreases parts@.len() - i,
            {
                let p = trim(parts[i].as_str());
                proof {
                    crate::text::lemma_views_push(out@, p);
                    assert(views(parts@)[i as int] == parts@[i as int]@);
                    assert(views(parts@).take(i + 1).map_values(|p: Seq<char>| trim_spec(p))
                        == views(parts@).take(i as int).map_values(|p: Seq<char>| trim_spec(p)).push(p@));
                }
                out.push(p);
                i += 1;
            }
            assert(views(parts@).take(parts@.len() as int) == views(parts@));
            out
        },
        None => default,
    }
}

/// The text a variable gives: its value, or the default when unset.
pub fn env_string_value(raw: Option<&str>, default: &str) -> (r: String)
    ensures
        r@ == match raw {
            Some(v) => v@,
            None => default@,
        },
{
    match raw {
        Some(v) => String::from_str(v),
        None => String::from_str(default),
    }
}

/// What a flag's value means, lowercased: `true`, `1`, `yes`, `on` and `false`, `0`, `no`,
/// `off`; anything else means nothing.
pub open spec fn flag_meaning(l: Seq<char>) -> Option<bool> {
    if l == "true"@ || l == "1"@ || l == "yes"@ || l == "on"@ {
        Some(true)
    } else if l == "false"@ || l == "0"@ || l == "no"@ || l == "off"@ {
        Some(false)
    } else {
        None
    }
}

/// The flag a variable gives, or the default when it is unset or says neither.
pub fn env_bool_value(raw: Option<&str>, default: bool) -> (r: bool)
    ensures
        r == match raw {
            Some(v) => match flag_meaning(spec_str_to_lowercase(v@)) {
                Some(b) => b,
                None => default,
            },
            None => default,
        },
{
    match raw {
        Some(v) => {
            let l = str_to_lowercase(v);
            let l = l.as_str();
            if str_eq(l, "true") || str_eq(l, "1") || str_eq(l, "yes") || str_eq(l, "on") {
                true
            } else if str_eq(l, "false") || str_eq(l, "0") || str_eq(l, "no") || str_eq(l, "off") {
                false
            } else {
                default
            }
        },
        None => default,
    }
}

/// What `str::parse::<i32>` accepts: an optional `+` or `-`, then decimal digits whose
/// value fits in 32 signed bits.
pub open spec fn parse_i32_spec(s: Seq<char>) -> Option<i32> {
    if s.len() > 0 && s[0] == '-' {
        let d = s.drop_first();
        if d.len() > 0 && d[0] != '+' {
            match parse_u64_spec(d) {
                Some(n) => if n <= 2147483648 { Some((0 - n) as i32) } else { None },
                None => None,
            }
        } else {
            None
        }
    } else {
        match parse_u64_spec(s) {
            Some(n) => if n <= 2147483647 { Some(n as i32) } else { None },
            None => None,
        }
    }
}

/// The number a variable gives, or the default when it is unset or not a 32-bit integer.
pub fn env_int_value(raw: Option<&str>, default: i32) -> (r: i32)
    ensures
        r == match raw {
            Some(v) => match parse_i32_spec(v@) {
                Some(n) => n,
                None => default,
            },
            None => default,
        },
{
    match raw {
        Some(v) => {
            let c = crate::text::chars_of(v);
            if c.len() > 0 && c[0] == '-' {
                let rest = crate::text::string_of_chars(&c, 1, c.len());
                assert(rest@ == v@.drop_first());
                let rc = crate::text::chars_of(rest.as_str());
                if rc.len() > 0 && rc[0] != '+' {
                    match parse_u64(rest.as_str()) {
                        Some(n) => if n <= 2147483648 {
                            let m: i64 = 0 - (n as i64);
                            m as i32
                        } else {
                            default
                        },
                        None => default,
                    }
                } else {
                    default
                }
            } else {
                match parse_u64(v) {
                    Some(n) => if n <= 2147483647 { n as i32 } else { default },
                    None => default,
                }
            }
        },
        None => default,
    }
}

} // verus!
