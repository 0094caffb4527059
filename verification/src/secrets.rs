use vstd::prelude::*;
use std::collections::HashMap;
use crate::text::str_eq;
use crate::unicode::{str_to_uppercase, spec_str_to_uppercase};

verus! {

/// Which secrets are looked for, and the rules that say where each may appear.
#[derive(Debug, Clone)]
pub struct SecretsConfig {
    /// Pattern names, with `*` wildcards, such as `aws*` or `*webhook*`.
    pub patterns: Vec<String>,
    /// The rule of each secret that has one, by secret name.
    pub rules: HashMap<String, SecretRule>,
}

/// Where one secret may appear and what is done with it.
#[derive(Debug, Clone)]
pub struct SecretRule {
    /// Hosts the secret may be sent to; empty for every host.
    pub allowed_hosts: Vec<String>,
    /// Places the secret may appear, such as `header:Authorization`; empty for everywhere.
    pub allowed_in: Vec<String>,
    /// `ALLOW`, `REDACT` or `BLOCK`, in any case.
    pub action: String,
}

/// The rule stored under a key with the characters of `name`, if any.
pub open spec fn rule_for(rules: Map<String, SecretRule>, name: Seq<char>) -> Option<SecretRule> {
    if exists|s: String| rules.contains_key(s) && s@ == name {
        Some(rules[choose|s: String| rules.contains_key(s) && s@ == name])
    } else {
        None
    }
}

/// Looks up a secret's rule with `HashMap::get`.
///
/// Trusted: std documents `get` as giving the value stored under a key equal to `name`, and
/// `None` when there is none; a map holds one key of given characters at most, so every
/// key with these characters holds the rule given.
#[verifier::external_body]
fn rule_lookup<'a>(rules: &'a HashMap<String, SecretRule>, name: &str) -> (r: Option<&'a SecretRule>)
    ensures
        match r {
            Some(v) => (exists|s: String| rules@.contains_key(s) && s@ == name@)
                && forall|s: String| rules@.contains_key(s) && s@ == name@ ==> rules@[s] == *v,
            None => !exists|s: String| rules@.contains_key(s) && s@ == name@,
        },
{
    rules.get(name)
}

/// Whether the value found is the one `rule_for` names.
proof fn lemma_rule_lookup(rules: Map<String, SecretRule>, name: Seq<char>, r: Option<&SecretRule>)
    requires
        match r {
            Some(v) => (exists|s: String| rules.contains_key(s) && s@ == name)
                && forall|s: String| rules.contains_key(s) && s@ == name ==> rules[s] == *v,
            None => !exists|s: String| rules.contains_key(s) && s@ == name,
        },
    ensures
        match r {
            Some(v) => rule_for(rules, name) == Some(*v),
            None => rule_for(rules, name) is None,
        },
{
}

/// Whether `v` holds a string with the characters of `x`.
pub open spec fn lists_text(v: Seq<String>, x: Seq<char>) -> bool {
    exists|i: int| 0 <= i < v.len() && (#[trigger] v[i])@ == x
}

/// Whether `v` holds a string equal to `x`.
fn list_has(v: &Vec<String>, x: &str) -> (r: bool)
    ensures
        r == lists_text(v@, x@),
{
    let mut i: usize = 0;
    while i < v.len()
        invariant
            i <= v@.len(),
            forall|j: int| 0 <= j < i ==> (#[trigger] v@[j])@ != x@,
        decreases v@.len() - i,
    {
        if str_eq(v[i].as_str(), x) {
            return true;
        }
        i += 1;
    }
    false
}

/// Whether a secret with these rules is redacted: always when no rule is configured or the
/// secret has none, and else unless its action, upper-cased, is `ALLOW`.
pub open spec fn redaction_required(rules: Map<String, SecretRule>, name: Seq<char>) -> bool {
    if rules.is_empty() {
        true
    } else {
        match rule_for(rules, name) {
            Some(rule) => spec_str_to_uppercase(rule.action@) != "ALLOW"@,
            None => true,
        }
    }
}

/// Whether a list restriction admits `x`: an empty list admits everything.
pub open spec fn admits(list: Seq<String>, x: Seq<char>) -> bool {
    list.len() == 0 || lists_text(list, x)
}

impl Default for SecretsConfig {
    fn default() -> (c: Self)
        ensures
            c.patterns@.len() == 3,
            c.patterns@[0]@ == "aws*"@,
            c.patterns@[1]@ == "github*"@,
            c.patterns@[2]@ == "stripe"@,
            c.rules@.is_empty(),
    {
        SecretsConfig {
            patterns: vec![String::from_str("aws*"), String::from_str("github*"), String::from_str("stripe")],
            rules: HashMap::new(),
        }
    }
}

impl SecretsConfig {
    /// Whether the secret `secret_name` is redacted (see `redaction_required`); the host is
    /// not consulted.
    pub fn should_redact(&self, secret_name: &str, _host: Option<&str>) -> (r: bool)
        ensures
            r == redaction_required(self.rules@, secret_name@),
    {
        if self.rules.is_empty() {
            return true;
        }
        let found = rule_lookup(&self.rules, secret_name);
        proof { lemma_rule_lookup(self.rules@, secret_name@, found); }
        match found {
            Some(rule) => {
                let upper = str_to_uppercase(rule.action.as_str());
                !str_eq(upper.as_str(), "ALLOW")
            },
            None => true,
        }
    }

    /// Whether the secret may appear at `location`: yes without a rule, or when its rule
    /// lists no places or lists this one.
    pub fn allowed_in_location(&self, secret_name: &str, location: &str) -> (r: bool)
        ensures
            r == match rule_for(self.rules@, secret_name@) {
                Some(rule) => admits(rule.allowed_in@, location@),
                None => true,
            },
    {
        let found = rule_lookup(&self.rules, secret_name);
        proof { lemma_rule_lookup(self.rules@, secret_name@, found); }
        match found {
            Some(rule) => rule.allowed_in.len() == 0 || list_has(&rule.allowed_in, location),
            None => true,
        }
    }

    /// Whether the secret may be sent to `host`: yes without a rule, or when its rule lists
    /// no hosts or lists this one.
    pub fn allowed_on_host(&self, secret_name: &str, host: &str) -> (r: bool)
        ensures
            r == match rule_for(self.rules@, secret_name@) {
                Some(rule) => admits(rule.allowed_hosts@, host@),
                None => true,
            },
    {
        let found = rule_lookup(&self.rules, secret_name);
        proof { lemma_rule_lookup(self.rules@, secret_name@, found); }
        match found {
            Some(rule) => rule.allowed_hosts.len() == 0 || list_has(&rule.allowed_hosts, host),
            None => true,
        }
    }
}

} // verus!
