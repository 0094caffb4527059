use scred_http::pattern_metadata::get_pattern_tier;
use scred_http::pattern_selector::PatternTier;

#[test]
fn test_critical_patterns() {
    assert_eq!(get_pattern_tier("aws-akia"), PatternTier::Critical);
    assert_eq!(get_pattern_tier("github-token"), PatternTier::Critical);
    assert_eq!(get_pattern_tier("stripe-api-key"), PatternTier::Critical);
}

#[test]
fn test_api_key_patterns() {
    assert_eq!(get_pattern_tier("openai-api-key"), PatternTier::ApiKeys);
    assert_eq!(get_pattern_tier("slack-token"), PatternTier::ApiKeys);
    assert_eq!(get_pattern_tier("sendgrid-api-key"), PatternTier::ApiKeys);
}

#[test]
fn test_infrastructure_patterns() {
    assert_eq!(get_pattern_tier("k8s-bearer-token"), PatternTier::Infrastructure);
    assert_eq!(get_pattern_tier("vault-token"), PatternTier::Infrastructure);
    assert_eq!(get_pattern_tier("grafana-api-key"), PatternTier::Infrastructure);
}

#[test]
fn test_services_patterns() {
    assert_eq!(get_pattern_tier("razorpay-api-key"), PatternTier::Services);
    assert_eq!(get_pattern_tier("paystack"), PatternTier::Services);
}

#[test]
fn test_generic_patterns() {
    assert_eq!(get_pattern_tier("jwt"), PatternTier::Patterns);
    assert_eq!(get_pattern_tier("bearer-token"), PatternTier::Patterns);
    assert_eq!(get_pattern_tier("private-key"), PatternTier::Patterns);
}

#[test]
fn test_default_unknown() {
    // Unknown patterns should default to generic
    assert_eq!(get_pattern_tier("unknown-pattern"), PatternTier::Patterns);
}

#[test]
fn test_case_insensitive() {
    assert_eq!(get_pattern_tier("AWS-AKIA"), PatternTier::Critical);
    assert_eq!(get_pattern_tier("GitHub-Token"), PatternTier::Critical);
}

#[test]
fn tier_lookup_covers_every_tier_and_folds_case() {
    assert_eq!(get_pattern_tier("PostGres"), PatternTier::Critical);
    assert_eq!(get_pattern_tier("atlas ian"), PatternTier::ApiKeys);
    assert_eq!(get_pattern_tier("1PASSWORD-SVC-TOKEN"), PatternTier::Infrastructure);
    assert_eq!(get_pattern_tier("generic-api-key"), PatternTier::Services);
    assert_eq!(get_pattern_tier("privatekey"), PatternTier::Patterns);
    assert_eq!(get_pattern_tier(""), PatternTier::Patterns);
}
