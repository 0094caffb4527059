use scred_http::pattern_selector::{PatternSelector, PatternTier};
use std::collections::HashSet;

#[test]
fn test_tier_names() {
    assert_eq!(PatternTier::Critical.name(), "CRITICAL");
    assert_eq!(PatternTier::ApiKeys.name(), "API_KEYS");
    assert_eq!(PatternTier::Infrastructure.name(), "INFRASTRUCTURE");
    assert_eq!(PatternTier::Services.name(), "SERVICES");
    assert_eq!(PatternTier::Patterns.name(), "PATTERNS");
}

#[test]
fn test_tier_risk_scores() {
    assert_eq!(PatternTier::Critical.risk_score(), 95);
    assert_eq!(PatternTier::ApiKeys.risk_score(), 80);
    assert_eq!(PatternTier::Infrastructure.risk_score(), 60);
    assert_eq!(PatternTier::Services.risk_score(), 40);
    assert_eq!(PatternTier::Patterns.risk_score(), 30);
}

#[test]
fn test_default_redact() {
    assert!(PatternTier::Critical.should_redact_by_default());
    assert!(PatternTier::ApiKeys.should_redact_by_default());
    assert!(!PatternTier::Infrastructure.should_redact_by_default());
    assert!(!PatternTier::Services.should_redact_by_default());
    assert!(!PatternTier::Patterns.should_redact_by_default());
}

#[test]
fn test_parse_tier_list() {
    let tiers = PatternTier::parse_list("CRITICAL,API_KEYS,INFRASTRUCTURE").unwrap();
    assert_eq!(tiers.len(), 3);
    assert_eq!(tiers[0], PatternTier::Critical);
    assert_eq!(tiers[1], PatternTier::ApiKeys);
    assert_eq!(tiers[2], PatternTier::Infrastructure);
}

#[test]
fn test_selector_from_str_all() {
    let sel = PatternSelector::from_str("all").unwrap();
    assert!(matches!(sel, PatternSelector::All));
}

#[test]
fn test_selector_from_str_tier() {
    let sel = PatternSelector::from_str("CRITICAL").unwrap();
    assert!(matches!(sel, PatternSelector::Tier(_)));
}

#[test]
fn test_selector_from_str_multiple_tiers() {
    let sel = PatternSelector::from_str("CRITICAL,API_KEYS").unwrap();
    assert!(matches!(sel, PatternSelector::Tier(ref tiers) if tiers.len() == 2));
}

#[test]
fn test_selector_from_str_wildcard() {
    let sel = PatternSelector::from_str("aws-*").unwrap();
    assert!(matches!(sel, PatternSelector::Wildcard(_)));
}

#[test]
fn test_wildcard_match() {
    let sel = PatternSelector::Wildcard(vec!["aws-*".to_string()]);
    assert!(sel.matches_pattern("aws-akia", PatternTier::Critical));
    assert!(sel.matches_pattern("aws-secret-access-key", PatternTier::Critical));
    assert!(!sel.matches_pattern("github-token", PatternTier::Critical));
}

#[test]
fn test_tier_selector() {
    let sel = PatternSelector::Tier(vec![PatternTier::Critical, PatternTier::ApiKeys]);
    assert!(sel.matches_pattern("aws-akia", PatternTier::Critical));
    assert!(sel.matches_pattern("openai", PatternTier::ApiKeys));
    assert!(!sel.matches_pattern("k8s-token", PatternTier::Infrastructure));
}

#[test]
fn tier_aliases_parse_in_any_case() {
    assert_eq!(PatternTier::from_str("api-keys").unwrap(), PatternTier::ApiKeys);
    assert_eq!(PatternTier::from_str("Infra").unwrap(), PatternTier::Infrastructure);
    assert_eq!(PatternTier::from_str("generic").unwrap(), PatternTier::Patterns);
    assert_eq!(PatternTier::from_str("bogus").unwrap_err(), "Unknown tier: bogus");
}

#[test]
fn tier_list_stops_at_first_unknown_piece() {
    assert_eq!(PatternTier::parse_list("critical, nope, also").unwrap_err(), "Unknown tier: nope");
    let tiers = PatternTier::parse_list(" services ,patterns").unwrap();
    assert_eq!(tiers, vec![PatternTier::Services, PatternTier::Patterns]);
}

#[test]
fn selector_text_forms() {
    assert!(matches!(PatternSelector::from_str("  NONE ").unwrap(), PatternSelector::NoPatterns));
    match PatternSelector::from_str("regex:^(aws|github)").unwrap() {
        PatternSelector::Regex(v) => assert_eq!(v, vec!["^(aws|github)".to_string()]),
        _ => panic!("expected a regex selector"),
    }
    match PatternSelector::from_str("aws-*, github-*").unwrap() {
        PatternSelector::Wildcard(v) => assert_eq!(v, vec!["aws-*".to_string(), "github-*".to_string()]),
        _ => panic!("expected wildcards"),
    }
    match PatternSelector::from_str("openai").unwrap() {
        PatternSelector::Whitelist(s) => {
            assert_eq!(s.len(), 1);
            assert!(s.contains("openai"));
        }
        _ => panic!("expected a whitelist"),
    }
}

#[test]
fn selector_matching_by_kind() {
    let mut names = HashSet::new();
    names.insert("jwt".to_string());
    assert!(PatternSelector::Whitelist(names.clone()).matches_pattern("jwt", PatternTier::Patterns));
    assert!(!PatternSelector::Blacklist(names).matches_pattern("jwt", PatternTier::Patterns));
    assert!(PatternSelector::All.matches_pattern("x", PatternTier::Services));
    assert!(!PatternSelector::NoPatterns.matches_pattern("x", PatternTier::Services));
    let re = PatternSelector::Regex(vec!["^(aws|github)".to_string(), "(".to_string()]);
    assert!(re.matches_pattern("github-pat", PatternTier::Critical));
    assert!(!re.matches_pattern("slack-token", PatternTier::ApiKeys));
    let w = PatternSelector::Wildcard(vec!["*-TOKEN".to_string(), "Exact-Name".to_string(), "*".to_string()]);
    assert!(w.matches_pattern("anything", PatternTier::Critical));
    let w2 = PatternSelector::Wildcard(vec!["*-TOKEN".to_string(), "Exact-Name".to_string()]);
    assert!(w2.matches_pattern("vault-token", PatternTier::Critical));
    assert!(w2.matches_pattern("exact-name", PatternTier::Critical));
    assert!(!w2.matches_pattern("exact-names", PatternTier::Critical));
}

#[test]
fn selector_descriptions() {
    assert_eq!(PatternSelector::default_detect().description(), "Tiers: CRITICAL, API_KEYS, INFRASTRUCTURE");
    assert_eq!(PatternSelector::default_redact().description(), "Tiers: CRITICAL, API_KEYS");
    assert_eq!(PatternSelector::All.description(), "All patterns");
    assert_eq!(PatternSelector::NoPatterns.description(), "No patterns");
    let mut names = HashSet::new();
    names.insert("a".to_string());
    names.insert("b".to_string());
    assert_eq!(PatternSelector::Whitelist(names.clone()).description(), "Whitelist: 2");
    assert_eq!(PatternSelector::Blacklist(names).description(), "Blacklist: 2 excluded");
    assert_eq!(PatternSelector::Wildcard(vec!["a-*".to_string(), "b".to_string()]).description(), "Wildcards: a-*, b");
    assert_eq!(PatternSelector::Regex(vec!["^x".to_string()]).description(), "Regex: ^x");
    assert!(matches!(PatternSelector::default(), PatternSelector::Tier(ref t) if t.len() == 3));
}
