use scred_http::config::{env_bool_value, env_int_value, env_list_value, env_string_value, PatternSelection, RedactionConfig};
use scred_http::secrets::{SecretRule, SecretsConfig};
use std::collections::HashMap;

fn rule(action: &str, hosts: &[&str], places: &[&str]) -> SecretRule {
    SecretRule {
        allowed_hosts: hosts.iter().map(|s| s.to_string()).collect(),
        allowed_in: places.iter().map(|s| s.to_string()).collect(),
        action: action.to_string(),
    }
}

#[test]
fn secrets_default_redacts_everything() {
    let c = SecretsConfig::default();
    assert_eq!(c.patterns, vec!["aws*".to_string(), "github*".to_string(), "stripe".to_string()]);
    assert!(c.should_redact("anything", None));
    assert!(c.allowed_in_location("anything", "body:x"));
    assert!(c.allowed_on_host("anything", "h"));
}

#[test]
fn secrets_rules_decide() {
    let mut rules = HashMap::new();
    rules.insert("gh".to_string(), rule("allow", &["api.github.com"], &[]));
    rules.insert("aws".to_string(), rule("Block", &[], &["header:Authorization"]));
    rules.insert("odd".to_string(), rule("whatever", &[], &[]));
    let c = SecretsConfig { patterns: vec![], rules };
    assert!(!c.should_redact("gh", Some("h")));
    assert!(c.should_redact("aws", None));
    assert!(c.should_redact("odd", None));
    assert!(c.should_redact("missing", None));
    assert!(c.allowed_on_host("gh", "api.github.com"));
    assert!(!c.allowed_on_host("gh", "evil.com"));
    assert!(c.allowed_on_host("aws", "any"));
    assert!(c.allowed_in_location("aws", "header:Authorization"));
    assert!(!c.allowed_in_location("aws", "body:key"));
    assert!(c.allowed_in_location("gh", "body:key"));
}

#[test]
fn pattern_selection_and_redaction_config() {
    let w = PatternSelection::Whitelist(vec!["a".to_string()]);
    assert!(w.should_redact("a"));
    assert!(!w.should_redact("b"));
    let b = PatternSelection::Blacklist(vec!["a".to_string()]);
    assert!(!b.should_redact("a"));
    assert!(b.should_redact("b"));
    assert!(PatternSelection::default().should_redact("x"));
    assert!(!PatternSelection::NoPatterns.should_redact("x"));
    assert_eq!(RedactionConfig::all().mode, "all");
    assert_eq!(RedactionConfig::none().mode, "none");
    assert!(!RedactionConfig::none().patterns.should_redact("x"));
    assert_eq!(RedactionConfig::default().mode, "all");
}

#[test]
fn environment_values() {
    assert_eq!(env_list_value(Some(" a , b,c "), vec![]), vec!["a".to_string(), "b".to_string(), "c".to_string()]);
    assert_eq!(env_list_value(Some(""), vec!["d".to_string()]), vec!["d".to_string()]);
    assert_eq!(env_list_value(None, vec!["d".to_string()]), vec!["d".to_string()]);
    assert_eq!(env_string_value(Some("x"), "y"), "x");
    assert_eq!(env_string_value(None, "y"), "y");
    assert!(env_bool_value(Some("YES"), false));
    assert!(!env_bool_value(Some("off"), true));
    assert!(env_bool_value(Some("maybe"), true));
    assert_eq!(env_int_value(Some("-2147483648"), 0), i32::MIN);
    assert_eq!(env_int_value(Some("+42"), 0), 42);
    assert_eq!(env_int_value(Some("2147483648"), 7), 7);
    assert_eq!(env_int_value(Some("-+1"), 7), 7);
    assert_eq!(env_int_value(None, 7), 7);
}
