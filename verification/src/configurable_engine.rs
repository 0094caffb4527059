use vstd::prelude::*;
use crate::pattern_selector::{PatternSelector, PatternTier, pattern_chosen, selector_description, is_tiers};
use crate::pattern_metadata::{get_pattern_tier, tier_of};
use crate::text::utf8_lossy;
use vstd::utf8::{valid_utf8, decode_utf8, encode_utf8, is_char_boundary};
use crate::bytes::push_range;

verus! {

/// A secret found by the redaction engine: the pattern's type, where it starts in the text
/// (a byte offset), its length in bytes, and the text that replaces it.
#[derive(Debug, Clone)]
pub struct RedactionMatch {
    pub pattern_type: String,
    pub position: usize,
    pub match_len: usize,
    pub redacted_text: String,
}

/// Matches that lie in a text of `len` bytes in order, none overlapping the next, each
/// starting and ending on a character boundary of `bytes`.
pub open spec fn well_placed(ms: Seq<RedactionMatch>, bytes: Seq<u8>) -> bool {
    &&& forall|i: int| 0 <= i < ms.len() ==> (#[trigger] ms[i]).position + ms[i].match_len <= bytes.len()
    &&& forall|i: int, j: int| 0 <= i < j < ms.len() ==> ms[i].position + ms[i].match_len <= ms[j].position
    &&& forall|i: int| 0 <= i < ms.len() ==> vstd::utf8::is_char_boundary(bytes, (#[trigger] ms[i]).position as int)
        && vstd::utf8::is_char_boundary(bytes, ms[i].position + ms[i].match_len)
}

/// The text from byte `from` on, with each match replaced by its redacted text.
pub open spec fn splice(bytes: Seq<u8>, ms: Seq<RedactionMatch>, from: int) -> Seq<u8>
    decreases ms.len(),
{
    if ms.len() == 0 {
        bytes.subrange(from, bytes.len() as int)
    } else {
        bytes.subrange(from, ms[0].position as int) + vstd::utf8::encode_utf8(ms[0].redacted_text@)
            + splice(bytes, ms.drop_first(), ms[0].position + ms[0].match_len)
    }
}

/// Whether a selector keeps a match redacted: the selector chooses the match's pattern,
/// with the pattern's tier looked up by name as for detection.
pub open spec fn match_chosen(sel: PatternSelector, m: RedactionMatch) -> bool {
    pattern_chosen(sel, m.pattern_type@, tier_of(m.pattern_type@))
}

/// The matches that a selector keeps redacted, in order.
pub open spec fn chosen_matches(sel: PatternSelector, ms: Seq<RedactionMatch>) -> Seq<RedactionMatch>
    decreases ms.len(),
{
    if ms.len() == 0 {
        Seq::empty()
    } else if match_chosen(sel, ms[0]) {
        seq![ms[0]] + chosen_matches(sel, ms.drop_first())
    } else {
        chosen_matches(sel, ms.drop_first())
    }
}

proof fn lemma_chosen_empty(sel: PatternSelector, ms: Seq<RedactionMatch>)
    ensures
        chosen_matches(sel, ms).len() == 0 <==> forall|j: int| 0 <= j < ms.len() ==> !match_chosen(sel, #[trigger] ms[j]),
    decreases ms.len(),
{
    if ms.len() > 0 {
        lemma_chosen_empty(sel, ms.drop_first());
        assert forall|j: int| 1 <= j < ms.len() implies #[trigger] ms[j] == ms.drop_first()[j - 1] by {}
        if chosen_matches(sel, ms).len() == 0 {
            assert forall|j: int| 0 <= j < ms.len() implies !match_chosen(sel, #[trigger] ms[j]) by {
                if j > 0 {
                    assert(ms[j] == ms.drop_first()[j - 1]);
                }
            }
        }
    }
}

/// The matches a selector keeps are a sub-list, so they stay in place too.
proof fn lemma_chosen_well_placed(sel: PatternSelector, ms: Seq<RedactionMatch>, bytes: Seq<u8>)
    requires
        well_placed(ms, bytes),
    ensures
        well_placed(chosen_matches(sel, ms), bytes),
        forall|j: int| 0 <= j < chosen_matches(sel, ms).len() ==>
            exists|k: int| 0 <= k < ms.len() && #[trigger] chosen_matches(sel, ms)[j] == ms[k],
    decreases ms.len(),
{
    if ms.len() > 0 {
        let rest = ms.drop_first();
        assert(well_placed(rest, bytes)) by {
            assert forall|i: int| 0 <= i < rest.len() implies #[trigger] rest[i] == ms[i + 1] by {}
            assert forall|i: int, j: int| 0 <= i < j < rest.len() implies rest[i].position + rest[i].match_len <= rest[j].position by {
                assert(rest[i] == ms[i + 1] && rest[j] == ms[j + 1]);
            }
        }
        lemma_chosen_well_placed(sel, rest, bytes);
        let cr = chosen_matches(sel, rest);
        assert forall|j: int| 0 <= j < cr.len() implies exists|k: int| 0 <= k < ms.len() && #[trigger] cr[j] == ms[k] by {
            let k = choose|k: int| 0 <= k < rest.len() && cr[j] == rest[k];
            assert(cr[j] == ms[k + 1]);
        }
        if match_chosen(sel, ms[0]) {
            let c = seq![ms[0]] + cr;
            assert forall|j: int| 1 <= j < c.len() implies #[trigger] c[j] == cr[j - 1] by {}
            assert forall|j: int| 0 <= j < cr.len() implies ms[0].position + ms[0].match_len <= (#[trigger] cr[j]).position by {
                let k = choose|k: int| 0 <= k < rest.len() && cr[j] == rest[k];
                assert(rest[k] == ms[k + 1]);
            }
            assert forall|i: int, j: int| 0 <= i < j < c.len() implies c[i].position + c[i].match_len <= c[j].position by {
                if i > 0 {
                    assert(c[i] == cr[i - 1] && c[j] == cr[j - 1]);
                } else {
                    assert(c[j] == cr[j - 1]);
                }
            }
            assert forall|j: int| 0 <= j < c.len() implies exists|k: int| 0 <= k < ms.len() && #[trigger] c[j] == ms[k] by {
                if j == 0 {
                    assert(c[0] == ms[0]);
                } else {
                    assert(c[j] == cr[j - 1]);
                }
            }
        }
    }
}

/// A text with the chosen matches redacted and the others left as they were: the text
/// itself when none is chosen, else the spliced bytes decoded (they are valid UTF-8, see
/// `lemma_splice_valid`).
pub open spec fn redacted_with(sel: PatternSelector, original: Seq<char>, ms: Seq<RedactionMatch>) -> Seq<char> {
    let chosen = chosen_matches(sel, ms);
    if chosen.len() == 0 {
        original
    } else {
        decode_utf8(splice(encode_utf8(original), chosen, 0))
    }
}

/// The bytes between two character boundaries of valid UTF-8 are valid UTF-8.
proof fn lemma_valid_between(bytes: Seq<u8>, from: int, to: int)
    requires
        valid_utf8(bytes),
        0 <= from <= to <= bytes.len(),
        is_char_boundary(bytes, from),
        is_char_boundary(bytes, to),
    ensures
        valid_utf8(bytes.subrange(from, to)),
{
    vstd::utf8::valid_utf8_split(bytes, from);
    let s = bytes.subrange(from, bytes.len() as int);
    vstd::utf8::is_char_boundary_start_end_of_seq(s);
    if to < bytes.len() {
        vstd::utf8::is_char_boundary_iff_not_is_continuation_byte(bytes, to);
        vstd::utf8::is_char_boundary_iff_not_is_continuation_byte(s, to - from);
        assert(s[to - from] == bytes[to]);
    } else {
        assert(s.len() == to - from);
    }
    vstd::utf8::valid_utf8_split(s, to - from);
    assert(s.subrange(0, to - from) =~= bytes.subrange(from, to));
}

/// Splicing redacted texts into valid UTF-8 at character boundaries gives valid UTF-8.
pub proof fn lemma_splice_valid(bytes: Seq<u8>, ms: Seq<RedactionMatch>, from: int)
    requires
        valid_utf8(bytes),
        well_placed(ms, bytes),
        0 <= from <= bytes.len(),
        is_char_boundary(bytes, from),
        forall|j: int| 0 <= j < ms.len() ==> from <= (#[trigger] ms[j]).position,
    ensures
        valid_utf8(splice(bytes, ms, from)),
    decreases ms.len(),
{
    broadcast use vstd::utf8::encode_utf8_valid_utf8, vstd::utf8::valid_utf8_concat;
    vstd::utf8::is_char_boundary_start_end_of_seq(bytes);
    if ms.len() == 0 {
        lemma_valid_between(bytes, from, bytes.len() as int);
    } else {
        let m = ms[0];
        let rest = ms.drop_first();
        lemma_valid_between(bytes, from, m.position as int);
        assert(well_placed(rest, bytes)) by {
            assert forall|i: int| 0 <= i < rest.len() implies #[trigger] rest[i] == ms[i + 1] by {}
            assert forall|i: int, j: int| 0 <= i < j < rest.len() implies rest[i].position + rest[i].match_len <= rest[j].position by {
                assert(rest[i] == ms[i + 1] && rest[j] == ms[j + 1]);
            }
        }
        assert forall|j: int| 0 <= j < rest.len() implies m.position + m.match_len <= (#[trigger] rest[j]).position by {
            assert(rest[j] == ms[j + 1]);
        }
        lemma_splice_valid(bytes, rest, m.position + m.match_len);
        let a = bytes.subrange(from, m.position as int);
        let b = encode_utf8(m.redacted_text@);
        let c = splice(bytes, rest, m.position + m.match_len);
        assert(valid_utf8(a + b));
        assert(valid_utf8((a + b) + c));
    }
}

/// Chooses which of the redaction engine's findings are reported and which stay redacted:
/// one selector for each. The engine itself is run by the caller, which hands its
/// findings in.
pub struct ConfigurableEngine {
    pub detect_selector: PatternSelector,
    pub redact_selector: PatternSelector,
}

impl ConfigurableEngine {
    /// An engine with the given selectors.
    pub fn new(detect_selector: PatternSelector, redact_selector: PatternSelector) -> (e: Self)
        ensures
            e.detect_selector == detect_selector,
            e.redact_selector == redact_selector,
    {
        ConfigurableEngine { detect_selector, redact_selector }
    }

    /// The default selectors: detect critical, API-key and infrastructure patterns, redact
    /// critical and API-key ones.
    pub fn with_defaults() -> (e: Self)
        ensures
            is_tiers(e.detect_selector, seq![PatternTier::Critical, PatternTier::ApiKeys, PatternTier::Infrastructure]),
            is_tiers(e.redact_selector, seq![PatternTier::Critical, PatternTier::ApiKeys]),
    {
        ConfigurableEngine { detect_selector: PatternSelector::default_detect(), redact_selector: PatternSelector::default_redact() }
    }

    /// For each warning's pattern type, whether the detection selector reports it (the
    /// pattern's tier looked up by name).
    pub fn detect_mask(&self, pattern_types: &Vec<String>) -> (r: Vec<bool>)
        ensures
            r@.len() == pattern_types@.len(),
            forall|i: int| 0 <= i < r@.len() ==> r@[i] == pattern_chosen(self.detect_selector,
                #[trigger] pattern_types@[i]@, tier_of(pattern_types@[i]@)),
    {
        let mut r: Vec<bool> = Vec::new();
        let mut i: usize = 0;
        while i < pattern_types.len()
            invariant
                i <= pattern_types@.len(),
                r@.len() == i,
                forall|q: int| 0 <= q < i ==> r@[q] == pattern_chosen(self.detect_selector,
                    #[trigger] pattern_types@[q]@, tier_of(pattern_types@[q]@)),
            decreases pattern_types@.len() - i,
        {
            let t = pattern_types[i].as_str();
            let tier = get_pattern_tier(t);
            r.push(self.detect_selector.matches_pattern(t, tier));
            i += 1;
        }
        r
    }

    /// The text with the matches that the redaction selector chooses replaced by their
    /// redacted text, the others left as found (see `redacted_with`).
    pub fn apply_redact_selector(&self, original: &str, matches: &Vec<RedactionMatch>) -> (r: String)
        requires
            well_placed(matches@, vstd::utf8::encode_utf8(original@)),
        ensures
            r@ == redacted_with(self.redact_selector, original@, matches@),
    {
        let bytes = original.as_bytes();
        let ghost b = bytes@;
        let blen = bytes.len();
        let ghost ms = matches@;
        let ghost sel = self.redact_selector;
        let mut out: Vec<u8> = Vec::new();
        let mut last_end: usize = 0;
        let mut any = false;
        let mut i: usize = 0;
        assert(ms.skip(0) =~= ms);
        while i < matches.len()
            invariant
                b == vstd::utf8::encode_utf8(original@),
                b == bytes@,
                b.len() == blen,
                ms == matches@,
                sel == self.redact_selector,
                well_placed(ms, b),
                i <= ms.len(),
                last_end <= b.len(),
                forall|j: int| i <= j < ms.len() ==> last_end <= (#[trigger] ms[j]).position,
                out@ + splice(b, chosen_matches(sel, ms.skip(i as int)), last_end as int)
                    == splice(b, chosen_matches(sel, ms), 0),
                any == exists|j: int| 0 <= j < i && match_chosen(sel, #[trigger] ms[j]),
            decreases ms.len() - i,
        {
            let m = &matches[i];
            assert(last_end <= ms[i as int].position);
            assert(ms[i as int].position + ms[i as int].match_len <= b.len());
            let t = m.pattern_type.as_str();
            let tier = get_pattern_tier(t);
            let keep = self.redact_selector.matches_pattern(t, tier);
            assert(ms.skip(i as int).drop_first() =~= ms.skip(i + 1));
            assert(ms.skip(i as int)[0] == ms[i as int]);
            if keep {
                assert(match_chosen(sel, ms[i as int]));
                let ghost rest = chosen_matches(sel, ms.skip(i + 1));
                assert(chosen_matches(sel, ms.skip(i as int)) == seq![ms[i as int]] + rest);
                assert((seq![ms[i as int]] + rest).drop_first() =~= rest);
                let red = m.redacted_text.as_str().as_bytes();
                push_range(&mut out, bytes, last_end, m.position);
                push_range(&mut out, red, 0, red.len());
                assert(red@.subrange(0, red@.len() as int) =~= red@);
                last_end = m.position + m.match_len;
                assert(forall|j: int| i < j < ms.len() ==> ms[i as int].position + ms[i as int].match_len <= #[trigger] ms[j].position);
                any = true;
            } else {
                assert(!match_chosen(sel, ms[i as int]));
                assert(chosen_matches(sel, ms.skip(i as int)) == chosen_matches(sel, ms.skip(i + 1)));
            }
            i += 1;
        }
        proof { lemma_chosen_empty(sel, ms); }
        if !any {
            return String::from_str(original);
        }
        assert(ms.skip(i as int) =~= Seq::<RedactionMatch>::empty());
        push_range(&mut out, bytes, last_end, bytes.len());
        assert(out@ == splice(b, chosen_matches(sel, ms), 0));
        proof {
            vstd::utf8::encode_utf8_valid_utf8(original@);
            vstd::utf8::is_char_boundary_start_end_of_seq(b);
            lemma_chosen_well_placed(sel, ms, b);
            lemma_splice_valid(b, chosen_matches(sel, ms), 0);
        }
        utf8_lossy(out.as_slice())
    }

    /// `Detect: …, Redact: …` with the two selectors' descriptions.
    pub fn describe(&self) -> (r: String)
        ensures
            r@ == "Detect: "@ + selector_description(self.detect_selector) + ", Redact: "@
                + selector_description(self.redact_selector),
    {
        let mut r = String::from_str("Detect: ");
        let d = self.detect_selector.description();
        r.append(d.as_str());
        r.append(", Redact: ");
        let e = self.redact_selector.description();
        r.append(e.as_str());
        r
    }

    /// The detection selector.
    pub fn detect_selector(&self) -> (r: &PatternSelector)
        ensures
            *r == self.detect_selector,
    {
        &self.detect_selector
    }

    /// The redaction selector.
    pub fn redact_selector(&self) -> (r: &PatternSelector)
        ensures
            *r == self.redact_selector,
    {
        &self.redact_selector
    }

    /// Replaces the detection selector.
    pub fn set_detect_selector(&mut self, selector: PatternSelector)
        ensures
            final(self).detect_selector == selector,
            final(self).redact_selector == old(self).redact_selector,
    {
        self.detect_selector = selector;
    }

    /// Replaces the redaction selector.
    pub fn set_redact_selector(&mut self, selector: PatternSelector)
        ensures
            final(self).redact_selector == selector,
            final(self).detect_selector == old(self).detect_selector,
    {
        self.redact_selector = selector;
    }
}

} // verus!
