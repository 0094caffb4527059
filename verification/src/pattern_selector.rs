use vstd::prelude::*;
use std::collections::HashSet;
use crate::text::{str_eq, split_char, split_spec, views, trim, trim_spec, concat_str, contains_char,
    chars_of, string_of_chars, starts_with_str, ends_with_str, join, join_spec, decimal, push_decimal};
use crate::unicode::{str_to_uppercase, spec_str_to_uppercase, str_to_lowercase, spec_str_to_lowercase};
use crate::string_map::{set_contains, set_insert};
use crate::text::{find_str, first_occurrence, occurs_at};

verus! {

/// The five risk tiers that secret patterns are sorted into.
#[derive(Debug, Clone, Copy, PartialEq, Eq, Hash, Structural)]
pub enum PatternTier {
    Critical,
    ApiKeys,
    Infrastructure,
    Services,
    Patterns,
}

/// The canonical upper-case name of a tier.
pub open spec fn tier_name(t: PatternTier) -> Seq<char> {
    match t {
        PatternTier::Critical => "CRITICAL"@,
        PatternTier::ApiKeys => "API_KEYS"@,
        PatternTier::Infrastructure => "INFRASTRUCTURE"@,
        PatternTier::Services => "SERVICES"@,
        PatternTier::Patterns => "PATTERNS"@,
    }
}

/// The tier that an upper-cased name stands for: the canonical names and the aliases
/// `API-KEYS`, `INFRA` and `GENERIC`.
pub open spec fn tier_named(u: Seq<char>) -> Option<PatternTier> {
    if u == "CRITICAL"@ {
        Some(PatternTier::Critical)
    } else if u == "API_KEYS"@ || u == "API-KEYS"@ {
        Some(PatternTier::ApiKeys)
    } else if u == "INFRASTRUCTURE"@ || u == "INFRA"@ {
        Some(PatternTier::Infrastructure)
    } else if u == "SERVICES"@ {
        Some(PatternTier::Services)
    } else if u == "PATTERNS"@ || u == "GENERIC"@ {
        Some(PatternTier::Patterns)
    } else {
        None
    }
}

/// What `PatternTier::from_str` gives for a text: the tier its upper-cased form names, or
/// the message that names the text.
pub open spec fn tier_parse(s: Seq<char>) -> Result<PatternTier, Seq<char>> {
    match tier_named(spec_str_to_uppercase(s)) {
        Some(t) => Ok(t),
        None => Err("Unknown tier: "@ + s),
    }
}

/// What `PatternTier::parse_list` gives for the comma-separated pieces: every trimmed piece
/// parsed as a tier, or the error of the first piece that is none.
pub open spec fn tier_list_parse(pieces: Seq<Seq<char>>) -> Result<Seq<PatternTier>, Seq<char>>
    decreases pieces.len(),
{
    if pieces.len() == 0 {
        Ok(Seq::empty())
    } else {
        match tier_list_parse(pieces.drop_last()) {
            Err(e) => Err(e),
            Ok(ts) => match tier_parse(trim_spec(pieces.last())) {
                Ok(t) => Ok(ts.push(t)),
                Err(e) => Err(e),
            },
        }
    }
}

impl PatternTier {
    /// The canonical upper-case name.
    pub fn name(&self) -> (r: &'static str)
        ensures
            r@ == tier_name(*self),
    {
        match self {
            PatternTier::Critical => "CRITICAL",
            PatternTier::ApiKeys => "API_KEYS",
            PatternTier::Infrastructure => "INFRASTRUCTURE",
            PatternTier::Services => "SERVICES",
            PatternTier::Patterns => "PATTERNS",
        }
    }

    /// The tier's risk score, from 95 for critical down to 30 for generic patterns.
    pub fn risk_score(&self) -> (r: u8)
        ensures
            r == match *self {
                PatternTier::Critical => 95u8,
                PatternTier::ApiKeys => 80u8,
                PatternTier::Infrastructure => 60u8,
                PatternTier::Services => 40u8,
                PatternTier::Patterns => 30u8,
            },
    {
        match self {
            PatternTier::Critical => 95,
            PatternTier::ApiKeys => 80,
            PatternTier::Infrastructure => 60,
            PatternTier::Services => 40,
            PatternTier::Patterns => 30,
        }
    }

    /// Critical and API-key patterns are redacted unless configured otherwise.
    pub fn should_redact_by_default(&self) -> (r: bool)
        ensures
            r == (*self == PatternTier::Critical || *self == PatternTier::ApiKeys),
    {
        match self {
            PatternTier::Critical | PatternTier::ApiKeys => true,
            _ => false,
        }
    }

    /// Parses a comma-separated list of tier names (see `tier_list_parse`).
    pub fn parse_list(input: &str) -> (r: Result<Vec<PatternTier>, String>)
        ensures
            match tier_list_parse(split_spec(input@, ',')) {
                Ok(ts) => r matches Ok(v) && v@ == ts,
                Err(e) => r matches Err(m) && m@ == e,
            },
    {
        let parts = split_char(input, ',');
        let mut out: Vec<PatternTier> = Vec::new();
        let mut i: usize = 0;
        while i < parts.len()
            invariant
                i <= parts@.len(),
                views(parts@) == split_spec(input@, ','),
                tier_list_parse(views(parts@).take(i as int)) == Ok::<Seq<PatternTier>, Seq<char>>(out@),
            decreases parts@.len() - i,
        {
            assert(views(parts@).take(i + 1).drop_last() == views(parts@).take(i as int));
            assert(views(parts@)[i as int] == parts@[i as int]@);
            let piece = trim(parts[i].as_str());
            match PatternTier::from_str(piece.as_str()) {
                Ok(t) => {
                    out.push(t);
                },
                Err(e) => {
                    proof { lemma_tier_list_error_stays(views(parts@), i as int + 1); }
                    assert(views(parts@).take(parts@.len() as int) == views(parts@));
                    return Err(e);
                },
            }
            i += 1;
        }
        assert(views(parts@).take(parts@.len() as int) == views(parts@));
        Ok(out)
    }

    /// Parses one tier name, case-insensitively (see `tier_parse`).
    pub fn from_str(s: &str) -> (r: Result<PatternTier, String>)
        ensures
            match tier_parse(s@) {
                Ok(t) => r == Ok::<PatternTier, String>(t),
                Err(e) => r matches Err(m) && m@ == e,
            },
    {
        let u = str_to_uppercase(s);
        let u = u.as_str();
        if str_eq(u, "CRITICAL") {
            Ok(PatternTier::Critical)
        } else if str_eq(u, "API_KEYS") || str_eq(u, "API-KEYS") {
            Ok(PatternTier::ApiKeys)
        } else if str_eq(u, "INFRASTRUCTURE") || str_eq(u, "INFRA") {
            Ok(PatternTier::Infrastructure)
        } else if str_eq(u, "SERVICES") {
            Ok(PatternTier::Services)
        } else if str_eq(u, "PATTERNS") || str_eq(u, "GENERIC") {
            Ok(PatternTier::Patterns)
        } else {
            Err(concat_str("Unknown tier: ", s))
        }
    }
}

/// Once a prefix of the pieces fails to parse, every longer prefix fails with the same error.
proof fn lemma_tier_list_error_stays(pieces: Seq<Seq<char>>, n: int)
    requires
        0 < n <= pieces.len(),
        tier_list_parse(pieces.take(n)) is Err,
    ensures
        tier_list_parse(pieces) == tier_list_parse(pieces.take(n)),
    decreases pieces.len() - n,
{
    if n < pieces.len() {
        assert(pieces.take(n + 1).drop_last() == pieces.take(n));
        lemma_tier_list_error_stays(pieces, n + 1);
    } else {
        assert(pieces.take(n) == pieces);
    }
}

/// How the patterns of a detection or redaction run are chosen.
#[derive(Debug)]
pub enum PatternSelector {
    /// The patterns of these tiers.
    Tier(Vec<PatternTier>),
    /// The patterns whose names match one of these wildcards (one `*` at most is read).
    Wildcard(Vec<String>),
    /// The patterns whose names one of these regular expressions finds a match in.
    Regex(Vec<String>),
    /// Only these patterns, by name.
    Whitelist(HashSet<String>),
    /// Every pattern but these, by name.
    Blacklist(HashSet<String>),
    /// Every pattern.
    All,
    /// No pattern.
    NoPatterns,
}

/// Whether `v` holds exactly the tiers `ts`, in order.
pub open spec fn is_tiers(sel: PatternSelector, ts: Seq<PatternTier>) -> bool {
    sel matches PatternSelector::Tier(v) && v@ == ts
}

/// The pieces, each trimmed.
pub open spec fn trims(pieces: Seq<Seq<char>>) -> Seq<Seq<char>> {
    pieces.map_values(|p: Seq<char>| trim_spec(p))
}

/// Whether `sel` is what `PatternSelector::from_str` makes of `input`: after trimming,
/// `all` and `none` (in any case), `regex:` and the expression after it, a comma list of
/// tiers or else of trimmed wildcards, a single name with `-` or `*` as a wildcard, a tier
/// name, and else a whitelist of that one name.
pub open spec fn selector_parsed(input: Seq<char>, sel: PatternSelector) -> bool {
    let t = trim_spec(input);
    let l = spec_str_to_lowercase(t);
    if l == "all"@ {
        sel is All
    } else if l == "none"@ {
        sel is NoPatterns
    } else if "regex:"@.is_prefix_of(t) {
        sel matches PatternSelector::Regex(v) && views(v@) == seq![t.skip(6)]
    } else if t.contains(',') {
        match tier_list_parse(split_spec(t, ',')) {
            Ok(ts) => is_tiers(sel, ts),
            Err(_) => sel matches PatternSelector::Wildcard(v) && views(v@) == trims(split_spec(t, ',')),
        }
    } else if t.contains('-') || t.contains('*') {
        sel matches PatternSelector::Wildcard(v) && views(v@) == seq![t]
    } else {
        match tier_parse(t) {
            Ok(x) => is_tiers(sel, seq![x]),
            Err(_) => sel matches PatternSelector::Whitelist(set)
                && exists|x: String| set@ == Set::<String>::empty().insert(x) && x@ == t,
        }
    }
}

/// Whether the wildcard `w` matches the pattern name `name`: `*` matches every name; else
/// the name, lowercased, must start with the lowercased text before the first `*` and end
/// with the lowercased text after it, or equal the wildcard when it has no `*`.
pub open spec fn wildcard_matches(name: Seq<char>, w: Seq<char>) -> bool {
    if w == "*"@ {
        true
    } else {
        match first_occurrence(w, "*"@) {
            Some(i) => spec_str_to_lowercase(w.take(i)).is_prefix_of(spec_str_to_lowercase(name))
                && spec_str_to_lowercase(w.skip(i + 1)).is_suffix_of(spec_str_to_lowercase(name)),
            None => spec_str_to_lowercase(name) == spec_str_to_lowercase(w),
        }
    }
}

/// What the `regex` crate gives for compiling `pattern` and searching `haystack` with it:
/// `None` when the pattern does not compile, else whether it matches somewhere.
pub uninterp spec fn regex_search(pattern: Seq<char>, haystack: Seq<char>) -> Option<bool>;

/// Compiles `pattern` with `regex::Regex::new` and, if it compiles, searches `haystack` with
/// `Regex::is_match`.
///
/// Trusted: the result is the crate's, named `regex_search` of the two texts; compiling
/// and matching depend on nothing else.
#[verifier::external_body]
fn regex_is_match(pattern: &str, haystack: &str) -> (r: Option<bool>)
    ensures
        r == regex_search(pattern@, haystack@),
{
    match regex::Regex::new(pattern) {
        Ok(re) => Some(re.is_match(haystack)),
        Err(_) => None,
    }
}

/// Whether a selector chooses the pattern `name` of tier `tier`; an expression that does
/// not compile chooses nothing.
pub open spec fn pattern_chosen(sel: PatternSelector, name: Seq<char>, tier: PatternTier) -> bool {
    match sel {
        PatternSelector::Tier(ts) => ts@.contains(tier),
        PatternSelector::All => true,
        PatternSelector::NoPatterns => false,
        PatternSelector::Whitelist(set) => exists|x: String| set@.contains(x) && x@ == name,
        PatternSelector::Blacklist(set) => !exists|x: String| set@.contains(x) && x@ == name,
        PatternSelector::Wildcard(ws) => exists|i: int| 0 <= i < ws@.len() && wildcard_matches(name, #[trigger] ws@[i]@),
        PatternSelector::Regex(rs) => exists|i: int| 0 <= i < rs@.len() && regex_search(#[trigger] rs@[i]@, name) == Some(true),
    }
}

/// The names of the tiers, in order.
pub open spec fn tier_names(ts: Seq<PatternTier>) -> Seq<Seq<char>> {
    ts.map_values(|t: PatternTier| tier_name(t))
}

/// The text that `PatternSelector::description` gives.
pub open spec fn selector_description(sel: PatternSelector) -> Seq<char> {
    match sel {
        PatternSelector::Tier(ts) => "Tiers: "@ + join_spec(tier_names(ts@), ", "@),
        PatternSelector::All => "All patterns"@,
        PatternSelector::NoPatterns => "No patterns"@,
        PatternSelector::Whitelist(set) => "Whitelist: "@ + decimal(set.len() as nat),
        PatternSelector::Blacklist(set) => "Blacklist: "@ + decimal(set.len() as nat) + " excluded"@,
        PatternSelector::Wildcard(ws) => "Wildcards: "@ + join_spec(views(ws@), ", "@),
        PatternSelector::Regex(rs) => "Regex: "@ + join_spec(views(rs@), ", "@),
    }
}

impl Default for PatternSelector {
    fn default() -> (s: Self)
        ensures
            is_tiers(s, seq![PatternTier::Critical, PatternTier::ApiKeys, PatternTier::Infrastructure]),
    {
        PatternSelector::default_detect()
    }
}

impl PatternSelector {
    /// The detection default: critical, API-key and infrastructure tiers.
    pub fn default_detect() -> (s: Self)
        ensures
            is_tiers(s, seq![PatternTier::Critical, PatternTier::ApiKeys, PatternTier::Infrastructure]),
    {
        PatternSelector::Tier(vec![PatternTier::Critical, PatternTier::ApiKeys, PatternTier::Infrastructure])
    }

    /// The redaction default: the critical and API-key tiers, those that
    /// `should_redact_by_default` names.
    pub fn default_redact() -> (s: Self)
        ensures
            is_tiers(s, seq![PatternTier::Critical, PatternTier::ApiKeys]),
    {
        PatternSelector::Tier(vec![PatternTier::Critical, PatternTier::ApiKeys])
    }

    /// Reads a selector from its text form (see `selector_parsed`); every text gives one.
    pub fn from_str(input: &str) -> (r: Result<Self, String>)
        ensures
            r matches Ok(sel) && selector_parsed(input@, sel),
    {
        let t = trim(input);
        let t = t.as_str();
        let l = str_to_lowercase(t);
        proof {
            reveal_strlit("regex:");
        }
        if str_eq(l.as_str(), "all") {
            return Ok(PatternSelector::All);
        }
        if str_eq(l.as_str(), "none") {
            return Ok(PatternSelector::NoPatterns);
        }
        if starts_with_str(t, "regex:") {
            let v = chars_of(t);
            let rest = string_of_chars(&v, 6, v.len());
            assert(rest@ == t@.skip(6));
            let out = vec![rest];
            assert(views(out@) == seq![t@.skip(6)]);
            return Ok(PatternSelector::Regex(out));
        }
        if contains_char(t, ',') {
            match PatternTier::parse_list(t) {
                Ok(tiers) => {
                    return Ok(PatternSelector::Tier(tiers));
                },
                Err(_) => {
                    let parts = split_char(t, ',');
                    let mut out: Vec<String> = Vec::new();
                    let mut i: usize = 0;
                    while i < parts.len()
                        invariant
                            i <= parts@.len(),
                            views(parts@) == split_spec(t@, ','),
                            views(out@) == trims(views(parts@).take(i as int)),
                        decreases parts@.len() - i,
                    {
                        let p = trim(parts[i].as_str());
                        proof {
                            crate::text::lemma_views_push(out@, p);
                            assert(views(parts@)[i as int] == parts@[i as int]@);
                            assert(trims(views(parts@).take(i + 1)) == trims(views(parts@).take(i as int)).push(p@));
                        }
                        out.push(p);
                        i += 1;
                    }
                    assert(views(parts@).take(parts@.len() as int) == views(parts@));
                    return Ok(PatternSelector::Wildcard(out));
                },
            }
        }
        if contains_char(t, '-') || contains_char(t, '*') {
            let one = String::from_str(t);
            let out = vec![one];
            assert(views(out@) == seq![t@]);
            return Ok(PatternSelector::Wildcard(out));
        }
        match PatternTier::from_str(t) {
            Ok(tier) => {
                let out = vec![tier];
                assert(out@ == seq![tier]);
                Ok(PatternSelector::Tier(out))
            },
            Err(_) => {
                let mut set: HashSet<String> = HashSet::new();
                let name = String::from_str(t);
                let ghost g = name;
                set_insert(&mut set, name);
                assert(set@ == Set::<String>::empty().insert(g) && g@ == t@);
                Ok(PatternSelector::Whitelist(set))
            },
        }
    }

    /// Whether this selector chooses the pattern `pattern_name` of tier `pattern_tier` (see
    /// `pattern_chosen`).
    #[verifier::loop_isolation(false)]
    pub fn matches_pattern(&self, pattern_name: &str, pattern_tier: PatternTier) -> (r: bool)
        ensures
            r == pattern_chosen(*self, pattern_name@, pattern_tier),
    {
        match self {
            PatternSelector::Tier(tiers) => {
                let mut i: usize = 0;
                while i < tiers.len()
                    invariant
                        i <= tiers@.len(),
                        forall|j: int| 0 <= j < i ==> tiers@[j] != pattern_tier,
                    decreases tiers@.len() - i,
                {
                    if tiers[i] == pattern_tier {
                        assert(tiers@[i as int] == pattern_tier);
                        return true;
                    }
                    i += 1;
                }
                false
            },
            PatternSelector::All => true,
            PatternSelector::NoPatterns => false,
            PatternSelector::Whitelist(set) => set_contains(set, pattern_name),
            PatternSelector::Blacklist(set) => !set_contains(set, pattern_name),
            PatternSelector::Wildcard(ws) => {
                let mut i: usize = 0;
                while i < ws.len()
                    invariant
                        i <= ws@.len(),
                        forall|j: int| 0 <= j < i ==> !wildcard_matches(pattern_name@, #[trigger] ws@[j]@),
                    decreases ws@.len() - i,
                {
                    if Self::wildcard_match(pattern_name, ws[i].as_str()) {
                        assert(wildcard_matches(pattern_name@, ws@[i as int]@));
                        return true;
                    }
                    i += 1;
                }
                false
            },
            PatternSelector::Regex(rs) => {
                let mut i: usize = 0;
                while i < rs.len()
                    invariant
                        i <= rs@.len(),
                        forall|j: int| 0 <= j < i ==> regex_search(#[trigger] rs@[j]@, pattern_name@) != Some(true),
                    decreases rs@.len() - i,
                {
                    if let Some(true) = regex_is_match(rs[i].as_str(), pattern_name) {
                        assert(regex_search(rs@[i as int]@, pattern_name@) == Some(true));
                        return true;
                    }
                    i += 1;
                }
                false
            },
        }
    }

    /// Whether `wildcard` matches `pattern_name` (see `wildcard_matches`).
    fn wildcard_match(pattern_name: &str, wildcard: &str) -> (r: bool)
        ensures
            r == wildcard_matches(pattern_name@, wildcard@),
    {
        if str_eq(wildcard, "*") {
            return true;
        }
        proof {
            reveal_strlit("*");
        }
        let found = find_str(wildcard, "*");
        match found {
            Some(star) => {
                assert(occurs_at(wildcard@, "*"@, star as int));
                assert("*"@.len() == 1);
                let v = chars_of(wildcard);
                let n = v.len();
                let prefix = string_of_chars(&v, 0, star);
                let suffix = string_of_chars(&v, star + 1, n);
                let lower_name = str_to_lowercase(pattern_name);
                let lower_prefix = str_to_lowercase(prefix.as_str());
                let lower_suffix = str_to_lowercase(suffix.as_str());
                assert(prefix@ == wildcard@.take(star as int));
                assert(suffix@ == wildcard@.skip(star + 1));
                starts_with_str(lower_name.as_str(), lower_prefix.as_str())
                    && ends_with_str(lower_name.as_str(), lower_suffix.as_str())
            },
            None => {
                let a = str_to_lowercase(pattern_name);
                let b = str_to_lowercase(wildcard);
                str_eq(a.as_str(), b.as_str())
            },
        }
    }

    /// A short text saying what the selector chooses (see `selector_description`).
    pub fn description(&self) -> (r: String)
        ensures
            r@ == selector_description(*self),
    {
        match self {
            PatternSelector::Tier(tiers) => {
                let mut names: Vec<String> = Vec::new();
                let mut i: usize = 0;
                while i < tiers.len()
                    invariant
                        i <= tiers@.len(),
                        views(names@) == tier_names(tiers@.take(i as int)),
                    decreases tiers@.len() - i,
                {
                    let n = String::from_str(tiers[i].name());
                    proof {
                        crate::text::lemma_views_push(names@, n);
                        assert(tier_names(tiers@.take(i + 1)) == tier_names(tiers@.take(i as int)).push(n@));
                    }
                    names.push(n);
                    i += 1;
                }
                assert(tiers@.take(tiers@.len() as int) == tiers@);
                let mut r = String::from_str("Tiers: ");
                r.append(join(&names, ", ").as_str());
                r
            },
            PatternSelector::All => String::from_str("All patterns"),
            PatternSelector::NoPatterns => String::from_str("No patterns"),
            PatternSelector::Whitelist(set) => {
                let mut r = String::from_str("Whitelist: ");
                push_decimal(&mut r, set.len() as u64);
                r
            },
            PatternSelector::Blacklist(set) => {
                let mut r = String::from_str("Blacklist: ");
                push_decimal(&mut r, set.len() as u64);
                r.append(" excluded");
                r
            },
            PatternSelector::Wildcard(ws) => {
                let mut r = String::from_str("Wildcards: ");
                r.append(join(ws, ", ").as_str());
                r
            },
            PatternSelector::Regex(rs) => {
                let mut r = String::from_str("Regex: ");
                r.append(join(rs, ", ").as_str());
                r
            },
        }
    }
}

} // verus!
