use vstd::prelude::*;
use crate::pattern_selector::PatternTier;
use crate::text::str_eq;
use crate::unicode::{str_to_lowercase, spec_str_to_lowercase};

verus! {

/// The known pattern names, each with its tier, in a fixed order.
#[verifier::opaque]
pub open spec fn tier_entries() -> Seq<(Seq<char>, PatternTier)> {
    seq![
        ("aws-akia"@, PatternTier::Critical),
        ("aws-access-token"@, PatternTier::Critical),
        ("aws-secret-access-key"@, PatternTier::Critical),
        ("aws-session-token"@, PatternTier::Critical),
        ("aws-mfa-serial"@, PatternTier::Critical),
        ("github-token"@, PatternTier::Critical),
        ("github-pat"@, PatternTier::Critical),
        ("github-oauth"@, PatternTier::Critical),
        ("github-user"@, PatternTier::Critical),
        ("github-server"@, PatternTier::Critical),
        ("github-refresh"@, PatternTier::Critical),
        ("stripe-api-key"@, PatternTier::Critical),
        ("stripe-restricted-key"@, PatternTier::Critical),
        ("stripe-payment-intent"@, PatternTier::Critical),
        ("stripepaymentintent-2"@, PatternTier::Critical),
        ("shopify-app-password"@, PatternTier::Critical),
        ("openaiadmin"@, PatternTier::Critical),
        ("sk-admin-"@, PatternTier::Critical),
        ("context7-api-key"@, PatternTier::Critical),
        ("context7-secret"@, PatternTier::Critical),
        ("mongodb"@, PatternTier::Critical),
        ("postgres"@, PatternTier::Critical),
        ("openai-api-key"@, PatternTier::ApiKeys),
        ("openai"@, PatternTier::ApiKeys),
        ("anthropic"@, PatternTier::ApiKeys),
        ("google-gemini"@, PatternTier::ApiKeys),
        ("google-cloud-api-key"@, PatternTier::ApiKeys),
        ("slack-token"@, PatternTier::ApiKeys),
        ("twilio-api-key"@, PatternTier::ApiKeys),
        ("sendgrid-api-key"@, PatternTier::ApiKeys),
        ("mailchimp-api-key"@, PatternTier::ApiKeys),
        ("mailgun-api-key"@, PatternTier::ApiKeys),
        ("telegram-bot-token"@, PatternTier::ApiKeys),
        ("discord-webhook"@, PatternTier::ApiKeys),
        ("azure-api-key"@, PatternTier::ApiKeys),
        ("azure-ad-client-secret"@, PatternTier::ApiKeys),
        ("datadog-api-key"@, PatternTier::ApiKeys),
        ("sentry-access-token"@, PatternTier::ApiKeys),
        ("sentryorgtoken"@, PatternTier::ApiKeys),
        ("pagerduty-api-key"@, PatternTier::ApiKeys),
        ("new-relic-api-key"@, PatternTier::ApiKeys),
        ("heroku-api-key"@, PatternTier::ApiKeys),
        ("npm-token"@, PatternTier::ApiKeys),
        ("npmtokenv2"@, PatternTier::ApiKeys),
        ("notion-api-key"@, PatternTier::ApiKeys),
        ("huggingface-token"@, PatternTier::ApiKeys),
        ("hubspot-api-key"@, PatternTier::ApiKeys),
        ("mapbox-token"@, PatternTier::ApiKeys),
        ("gitlab-token"@, PatternTier::ApiKeys),
        ("postman-api-key"@, PatternTier::ApiKeys),
        ("snyk-api-token"@, PatternTier::ApiKeys),
        ("twitch-oauth-token"@, PatternTier::ApiKeys),
        ("rubygems"@, PatternTier::ApiKeys),
        ("linear-api-key"@, PatternTier::ApiKeys),
        ("linearapi"@, PatternTier::ApiKeys),
        ("vercel-token"@, PatternTier::ApiKeys),
        ("travisoauth"@, PatternTier::ApiKeys),
        ("supabase-api-key"@, PatternTier::ApiKeys),
        ("atlas ian"@, PatternTier::ApiKeys),
        ("contentful-personal-access-token"@, PatternTier::ApiKeys),
        ("circleci-personal-access-token"@, PatternTier::ApiKeys),
        ("gitee-access-token"@, PatternTier::ApiKeys),
        ("gandi-api-key"@, PatternTier::ApiKeys),
        ("apideck"@, PatternTier::ApiKeys),
        ("okta-api-token"@, PatternTier::ApiKeys),
        ("k8s-bearer-token"@, PatternTier::Infrastructure),
        ("k8s-service-account-token"@, PatternTier::Infrastructure),
        ("kubelet-token"@, PatternTier::Infrastructure),
        ("docker-registry-token"@, PatternTier::Infrastructure),
        ("docker-login-token"@, PatternTier::Infrastructure),
        ("ecr-registry-token"@, PatternTier::Infrastructure),
        ("ghcr-token"@, PatternTier::Infrastructure),
        ("vault-token"@, PatternTier::Infrastructure),
        ("vault-unseal-key"@, PatternTier::Infrastructure),
        ("consul-token"@, PatternTier::Infrastructure),
        ("etcd-password"@, PatternTier::Infrastructure),
        ("minio-access-key"@, PatternTier::Infrastructure),
        ("databricks-token"@, PatternTier::Infrastructure),
        ("dynatrace-api-token"@, PatternTier::Infrastructure),
        ("grafana-api-key"@, PatternTier::Infrastructure),
        ("grafana"@, PatternTier::Infrastructure),
        ("prometheus-bearer-token"@, PatternTier::Infrastructure),
        ("splunk-bearer-token"@, PatternTier::Infrastructure),
        ("okta"@, PatternTier::Infrastructure),
        ("1password-svc-token"@, PatternTier::Infrastructure),
        ("artifactory-api-key"@, PatternTier::Infrastructure),
        ("artifactory-reference-token"@, PatternTier::Infrastructure),
        ("artifactoryreferencetoken"@, PatternTier::Infrastructure),
        ("planetscale-1"@, PatternTier::Infrastructure),
        ("planetscaledb-1"@, PatternTier::Infrastructure),
        ("planetscale-password"@, PatternTier::Infrastructure),
        ("upstash-redis"@, PatternTier::Infrastructure),
        ("salad-cloud-api-key"@, PatternTier::Infrastructure),
        ("azure-storage"@, PatternTier::Infrastructure),
        ("azure-app-config"@, PatternTier::Infrastructure),
        ("azure-batch"@, PatternTier::Infrastructure),
        ("azure-cosmosdb"@, PatternTier::Infrastructure),
        ("razorpay-api-key"@, PatternTier::Services),
        ("square-api-key"@, PatternTier::Services),
        ("braintree-api-key"@, PatternTier::Services),
        ("paystack"@, PatternTier::Services),
        ("pagarme"@, PatternTier::Services),
        ("ramp"@, PatternTier::Services),
        ("flutterwave"@, PatternTier::Services),
        ("flutterwave-public-key"@, PatternTier::Services),
        ("coinbase"@, PatternTier::Services),
        ("checkr-personal-access-token"@, PatternTier::Services),
        ("digicert-api-key"@, PatternTier::Services),
        ("duffel-api-token"@, PatternTier::Services),
        ("easypost-api-token"@, PatternTier::Services),
        ("expo-access-token"@, PatternTier::Services),
        ("figma-token"@, PatternTier::Services),
        ("fleetbase"@, PatternTier::Services),
        ("getdns"@, PatternTier::Services),
        ("assertible"@, PatternTier::Services),
        ("pagertree-api-token"@, PatternTier::Services),
        ("pypi-upload-token"@, PatternTier::Services),
        ("tumblr-api-key"@, PatternTier::Services),
        ("generic-api-key"@, PatternTier::Services),
        ("jwt-generic"@, PatternTier::Patterns),
        ("jwt"@, PatternTier::Patterns),
        ("bearer-token"@, PatternTier::Patterns),
        ("basic-auth"@, PatternTier::Patterns),
        ("authorization-header"@, PatternTier::Patterns),
        ("api-key-header"@, PatternTier::Patterns),
        ("private-key"@, PatternTier::Patterns),
        ("privatekey"@, PatternTier::Patterns)
    ]
}

/// The table of `tier_entries`, as executable values.
fn tier_table() -> (v: Vec<(&'static str, PatternTier)>)
    ensures
        v@.len() == tier_entries().len(),
        forall|i: int| 0 <= i < v@.len() ==> (#[trigger] v@[i]).0@ == tier_entries()[i].0 && v@[i].1 == tier_entries()[i].1,
{
    reveal(tier_entries);
    vec![
        ("aws-akia", PatternTier::Critical),
        ("aws-access-token", PatternTier::Critical),
        ("aws-secret-access-key", PatternTier::Critical),
        ("aws-session-token", PatternTier::Critical),
        ("aws-mfa-serial", PatternTier::Critical),
        ("github-token", PatternTier::Critical),
        ("github-pat", PatternTier::Critical),
        ("github-oauth", PatternTier::Critical),
        ("github-user", PatternTier::Critical),
        ("github-server", PatternTier::Critical),
        ("github-refresh", PatternTier::Critical),
        ("stripe-api-key", PatternTier::Critical),
        ("stripe-restricted-key", PatternTier::Critical),
        ("stripe-payment-intent", PatternTier::Critical),
        ("stripepaymentintent-2", PatternTier::Critical),
        ("shopify-app-password", PatternTier::Critical),
        ("openaiadmin", PatternTier::Critical),
        ("sk-admin-", PatternTier::Critical),
        ("context7-api-key", PatternTier::Critical),
        ("context7-secret", PatternTier::Critical),
        ("mongodb", PatternTier::Critical),
        ("postgres", PatternTier::Critical),
        ("openai-api-key", PatternTier::ApiKeys),
        ("openai", PatternTier::ApiKeys),
        ("anthropic", PatternTier::ApiKeys),
        ("google-gemini", PatternTier::ApiKeys),
        ("google-cloud-api-key", PatternTier::ApiKeys),
        ("slack-token", PatternTier::ApiKeys),
        ("twilio-api-key", PatternTier::ApiKeys),
        ("sendgrid-api-key", PatternTier::ApiKeys),
        ("mailchimp-api-key", PatternTier::ApiKeys),
        ("mailgun-api-key", PatternTier::ApiKeys),
        ("telegram-bot-token", PatternTier::ApiKeys),
        ("discord-webhook", PatternTier::ApiKeys),
        ("azure-api-key", PatternTier::ApiKeys),
        ("azure-ad-client-secret", PatternTier::ApiKeys),
        ("datadog-api-key", PatternTier::ApiKeys),
        ("sentry-access-token", PatternTier::ApiKeys),
        ("sentryorgtoken", PatternTier::ApiKeys),
        ("pagerduty-api-key", PatternTier::ApiKeys),
        ("new-relic-api-key", PatternTier::ApiKeys),
        ("heroku-api-key", PatternTier::ApiKeys),
        ("npm-token", PatternTier::ApiKeys),
        ("npmtokenv2", PatternTier::ApiKeys),
        ("notion-api-key", PatternTier::ApiKeys),
        ("huggingface-token", PatternTier::ApiKeys),
        ("hubspot-api-key", PatternTier::ApiKeys),
        ("mapbox-token", PatternTier::ApiKeys),
        ("gitlab-token", PatternTier::ApiKeys),
        ("postman-api-key", PatternTier::ApiKeys),
        ("snyk-api-token", PatternTier::ApiKeys),
        ("twitch-oauth-token", PatternTier::ApiKeys),
        ("rubygems", PatternTier::ApiKeys),
        ("linear-api-key", PatternTier::ApiKeys),
        ("linearapi", PatternTier::ApiKeys),
        ("vercel-token", PatternTier::ApiKeys),
        ("travisoauth", PatternTier::ApiKeys),
        ("supabase-api-key", PatternTier::ApiKeys),
        ("atlas ian", PatternTier::ApiKeys),
        ("contentful-personal-access-token", PatternTier::ApiKeys),
        ("circleci-personal-access-token", PatternTier::ApiKeys),
        ("gitee-access-token", PatternTier::ApiKeys),
        ("gandi-api-key", PatternTier::ApiKeys),
        ("apideck", PatternTier::ApiKeys),
        ("okta-api-token", PatternTier::ApiKeys),
        ("k8s-bearer-token", PatternTier::Infrastructure),
        ("k8s-service-account-token", PatternTier::Infrastructure),
        ("kubelet-token", PatternTier::Infrastructure),
        ("docker-registry-token", PatternTier::Infrastructure),
        ("docker-login-token", PatternTier::Infrastructure),
        ("ecr-registry-token", PatternTier::Infrastructure),
        ("ghcr-token", PatternTier::Infrastructure),
        ("vault-token", PatternTier::Infrastructure),
        ("vault-unseal-key", PatternTier::Infrastructure),
        ("consul-token", PatternTier::Infrastructure),
        ("etcd-password", PatternTier::Infrastructure),
        ("minio-access-key", PatternTier::Infrastructure),
        ("databricks-token", PatternTier::Infrastructure),
        ("dynatrace-api-token", PatternTier::Infrastructure),
        ("grafana-api-key", PatternTier::Infrastructure),
        ("grafana", PatternTier::Infrastructure),
        ("prometheus-bearer-token", PatternTier::Infrastructure),
        ("splunk-bearer-token", PatternTier::Infrastructure),
        ("okta", PatternTier::Infrastructure),
        ("1password-svc-token", PatternTier::Infrastructure),
        ("artifactory-api-key", PatternTier::Infrastructure),
        ("artifactory-reference-token", PatternTier::Infrastructure),
        ("artifactoryreferencetoken", PatternTier::Infrastructure),
        ("planetscale-1", PatternTier::Infrastructure),
        ("planetscaledb-1", PatternTier::Infrastructure),
        ("planetscale-password", PatternTier::Infrastructure),
        ("upstash-redis", PatternTier::Infrastructure),
        ("salad-cloud-api-key", PatternTier::Infrastructure),
        ("azure-storage", PatternTier::Infrastructure),
        ("azure-app-config", PatternTier::Infrastructure),
        ("azure-batch", PatternTier::Infrastructure),
        ("azure-cosmosdb", PatternTier::Infrastructure),
        ("razorpay-api-key", PatternTier::Services),
        ("square-api-key", PatternTier::Services),
        ("braintree-api-key", PatternTier::Services),
        ("paystack", PatternTier::Services),
        ("pagarme", PatternTier::Services),
        ("ramp", PatternTier::Services),
        ("flutterwave", PatternTier::Services),
        ("flutterwave-public-key", PatternTier::Services),
        ("coinbase", PatternTier::Services),
        ("checkr-personal-access-token", PatternTier::Services),
        ("digicert-api-key", PatternTier::Services),
        ("duffel-api-token", PatternTier::Services),
        ("easypost-api-token", PatternTier::Services),
        ("expo-access-token", PatternTier::Services),
        ("figma-token", PatternTier::Services),
        ("fleetbase", PatternTier::Services),
        ("getdns", PatternTier::Services),
        ("assertible", PatternTier::Services),
        ("pagertree-api-token", PatternTier::Services),
        ("pypi-upload-token", PatternTier::Services),
        ("tumblr-api-key", PatternTier::Services),
        ("generic-api-key", PatternTier::Services),
        ("jwt-generic", PatternTier::Patterns),
        ("jwt", PatternTier::Patterns),
        ("bearer-token", PatternTier::Patterns),
        ("basic-auth", PatternTier::Patterns),
        ("authorization-header", PatternTier::Patterns),
        ("api-key-header", PatternTier::Patterns),
        ("private-key", PatternTier::Patterns),
        ("privatekey", PatternTier::Patterns)
    ]
}

/// The first entry whose name is `name`.
#[verifier::opaque]
pub open spec fn exact_entry(name: Seq<char>) -> Option<int> {
    if exists|i: int| 0 <= i < tier_entries().len() && #[trigger] tier_entries()[i].0 == name {
        Some(choose|i: int| 0 <= i < tier_entries().len() && #[trigger] tier_entries()[i].0 == name
            && forall|j: int| 0 <= j < i ==> (#[trigger] tier_entries()[j]).0 != name)
    } else {
        None
    }
}

/// The first entry whose lowercased name is the lowercased `name`.
#[verifier::opaque]
pub open spec fn folded_entry(name: Seq<char>) -> Option<int> {
    let l = spec_str_to_lowercase(name);
    if exists|i: int| 0 <= i < tier_entries().len() && spec_str_to_lowercase(#[trigger] tier_entries()[i].0) == l {
        Some(choose|i: int| 0 <= i < tier_entries().len() && spec_str_to_lowercase(#[trigger] tier_entries()[i].0) == l
            && forall|j: int| 0 <= j < i ==> spec_str_to_lowercase((#[trigger] tier_entries()[j]).0) != l)
    } else {
        None
    }
}

/// The tier of a pattern name: that of an entry with exactly this name, else that of an
/// entry with the same name in another case, else the generic tier.
pub open spec fn tier_of(name: Seq<char>) -> PatternTier {
    match exact_entry(name) {
        Some(i) => tier_entries()[i].1,
        None => match folded_entry(name) {
            Some(i) => tier_entries()[i].1,
            None => PatternTier::Patterns,
        },
    }
}

/// The tier of a pattern, by its name (see `tier_of`).
pub fn get_pattern_tier(pattern_name: &str) -> (r: PatternTier)
    ensures
        r == tier_of(pattern_name@),
{
    let table = tier_table();
    let mut i: usize = 0;
    while i < table.len()
        invariant
            i <= table@.len(),
            table@.len() == tier_entries().len(),
            forall|k: int| 0 <= k < table@.len() ==> (#[trigger] table@[k]).0@ == tier_entries()[k].0 && table@[k].1 == tier_entries()[k].1,
            forall|j: int| 0 <= j < i ==> (#[trigger] tier_entries()[j]).0 != pattern_name@,
        decreases table@.len() - i,
    {
        if str_eq(table[i].0, pattern_name) {
            proof { lemma_exact_entry_at(pattern_name@, i as int); }
            return table[i].1;
        }
        i += 1;
    }
    proof { lemma_no_exact_entry(pattern_name@); }
    let lower = str_to_lowercase(pattern_name);
    let mut i: usize = 0;
    while i < table.len()
        invariant
            i <= table@.len(),
            lower@ == spec_str_to_lowercase(pattern_name@),
            exact_entry(pattern_name@) is None,
            table@.len() == tier_entries().len(),
            forall|k: int| 0 <= k < table@.len() ==> (#[trigger] table@[k]).0@ == tier_entries()[k].0 && table@[k].1 == tier_entries()[k].1,
            forall|j: int| 0 <= j < i ==> spec_str_to_lowercase((#[trigger] tier_entries()[j]).0) != lower@,
        decreases table@.len() - i,
    {
        let key = str_to_lowercase(table[i].0);
        if str_eq(key.as_str(), lower.as_str()) {
            proof { lemma_folded_entry_at(pattern_name@, i as int); }
            return table[i].1;
        }
        i += 1;
    }
    proof { lemma_no_folded_entry(pattern_name@); }
    PatternTier::Patterns
}

proof fn lemma_exact_entry_at(name: Seq<char>, i: int)
    requires
        0 <= i < tier_entries().len(),
        tier_entries()[i].0 == name,
        forall|j: int| 0 <= j < i ==> (#[trigger] tier_entries()[j]).0 != name,
    ensures
        exact_entry(name) == Some(i),
{
    reveal(exact_entry);
    let c = choose|c: int| 0 <= c < tier_entries().len() && #[trigger] tier_entries()[c].0 == name
        && forall|j: int| 0 <= j < c ==> (#[trigger] tier_entries()[j]).0 != name;
    assert(c == i) by {
        if c < i { assert(tier_entries()[c].0 != name); }
        if i < c { assert(tier_entries()[i].0 != name); }
    }
}

proof fn lemma_no_exact_entry(name: Seq<char>)
    requires
        forall|j: int| 0 <= j < tier_entries().len() ==> (#[trigger] tier_entries()[j]).0 != name,
    ensures
        exact_entry(name) is None,
{
    reveal(exact_entry);
}

proof fn lemma_folded_entry_at(name: Seq<char>, i: int)
    requires
        0 <= i < tier_entries().len(),
        spec_str_to_lowercase(tier_entries()[i].0) == spec_str_to_lowercase(name),
        forall|j: int| 0 <= j < i ==> spec_str_to_lowercase((#[trigger] tier_entries()[j]).0) != spec_str_to_lowercase(name),
    ensures
        folded_entry(name) == Some(i),
{
    reveal(folded_entry);
    let l = spec_str_to_lowercase(name);
    let c = choose|c: int| 0 <= c < tier_entries().len() && spec_str_to_lowercase(#[trigger] tier_entries()[c].0) == l
        && forall|j: int| 0 <= j < c ==> spec_str_to_lowercase((#[trigger] tier_entries()[j]).0) != l;
    assert(c == i) by {
        if c < i { assert(spec_str_to_lowercase(tier_entries()[c].0) != l); }
        if i < c { assert(spec_str_to_lowercase(tier_entries()[i].0) != l); }
    }
}

proof fn lemma_no_folded_entry(name: Seq<char>)
    requires
        forall|j: int| 0 <= j < tier_entries().len() ==> spec_str_to_lowercase((#[trigger] tier_entries()[j]).0) != spec_str_to_lowercase(name),
    ensures
        folded_entry(name) is None,
{
    reveal(folded_entry);
}

} // verus!
