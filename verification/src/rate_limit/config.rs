//! Multi-tenant rate limit config: its shape and validation.

use crate::text::{decimal, decimal_text, same, trim, trimmed};
use vstd::hash_map::StringHashMap;
use vstd::prelude::*;

verus! {

/// A single tenant's (or the default) token/request-per-minute policy,
/// plus optional per-model rules layered on top. At most one model rule
/// matches per request; rules never stack with each other, only with
/// the tenant-global limits.
#[derive(Debug, Clone, PartialEq)]
pub struct TenantPolicySpec {
    /// Canonical tenant key (e.g. `auth:team-red`). Must be `None` on
    /// [`RateLimitYaml::default_policy`] and `Some` on every entry in
    /// [`RateLimitYaml::tenants`].
    pub tenant_key: Option<String>,
    pub tokens_per_minute: u32,
    pub requests_per_minute: u32,
    pub model_rules: Vec<ModelRuleSpec>,
}

/// A per-model rate-limit rule layered on top of the tenant-global limits.
#[derive(Debug, Clone, PartialEq)]
pub struct ModelRuleSpec {
    /// Stable identifier, unique within the tenant. `[A-Za-z0-9._-]+`.
    pub rule_id: String,
    pub matcher: ModelMatcherSpec,
    pub tokens_per_minute: u32,
    pub requests_per_minute: u32,
}

#[derive(Debug, Clone, PartialEq)]
pub enum ModelMatcherSpec {
    Exact { value: String },
    Prefix { value: String },
}

#[derive(Debug, Clone)]
pub struct RateLimitYaml {
    pub default_policy: TenantPolicySpec,
    pub tenants: Vec<TenantPolicySpec>,
}

#[derive(Debug, Clone, PartialEq, Eq)]
pub enum RateLimitConfigError {
    DefaultPolicyHasTenantKey,
    MissingTenantKey { index: usize },
    DuplicateTenantKey { tenant_key: String },
    PaddedTenantKey { tenant_key: String },
    ZeroTokensPerMinute { label: String },
    ZeroRequestsPerMinute { label: String },
    InvalidRuleId { label: String, rule_id: String },
    DuplicateRuleId { label: String, rule_id: String },
    ZeroRuleTokensPerMinute { label: String, rule_id: String },
    ZeroRuleRequestsPerMinute { label: String, rule_id: String },
    EmptyMatcherValue { label: String, rule_id: String },
    PaddedMatcherValue { label: String, rule_id: String, value: String },
    DuplicateMatcher { label: String, rule_id: String, other_rule_id: String },
}

/// What is wrong with a config: a [`RateLimitConfigError`] with its texts as
/// sequences of characters.
pub enum ConfigProblem {
    DefaultPolicyHasTenantKey,
    MissingTenantKey { index: int },
    DuplicateTenantKey { tenant_key: Seq<char> },
    PaddedTenantKey { tenant_key: Seq<char> },
    ZeroTokensPerMinute { label: Seq<char> },
    ZeroRequestsPerMinute { label: Seq<char> },
    InvalidRuleId { label: Seq<char>, rule_id: Seq<char> },
    DuplicateRuleId { label: Seq<char>, rule_id: Seq<char> },
    ZeroRuleTokensPerMinute { label: Seq<char>, rule_id: Seq<char> },
    ZeroRuleRequestsPerMinute { label: Seq<char>, rule_id: Seq<char> },
    EmptyMatcherValue { label: Seq<char>, rule_id: Seq<char> },
    PaddedMatcherValue { label: Seq<char>, rule_id: Seq<char>, value: Seq<char> },
    DuplicateMatcher { label: Seq<char>, rule_id: Seq<char>, other_rule_id: Seq<char> },
}

impl View for RateLimitConfigError {
    type V = ConfigProblem;

    open spec fn view(&self) -> ConfigProblem {
        match *self {
            RateLimitConfigError::DefaultPolicyHasTenantKey =>
                ConfigProblem::DefaultPolicyHasTenantKey,
            RateLimitConfigError::MissingTenantKey { index } => ConfigProblem::MissingTenantKey {
                index: index as int,
            },
            RateLimitConfigError::DuplicateTenantKey { tenant_key } =>
                ConfigProblem::DuplicateTenantKey { tenant_key: tenant_key@ },
            RateLimitConfigError::PaddedTenantKey { tenant_key } =>
                ConfigProblem::PaddedTenantKey { tenant_key: tenant_key@ },
            RateLimitConfigError::ZeroTokensPerMinute { label } =>
                ConfigProblem::ZeroTokensPerMinute { label: label@ },
            RateLimitConfigError::ZeroRequestsPerMinute { label } =>
                ConfigProblem::ZeroRequestsPerMinute { label: label@ },
            RateLimitConfigError::InvalidRuleId { label, rule_id } =>
                ConfigProblem::InvalidRuleId { label: label@, rule_id: rule_id@ },
            RateLimitConfigError::DuplicateRuleId { label, rule_id } =>
                ConfigProblem::DuplicateRuleId { label: label@, rule_id: rule_id@ },
            RateLimitConfigError::ZeroRuleTokensPerMinute { label, rule_id } =>
                ConfigProblem::ZeroRuleTokensPerMinute { label: label@, rule_id: rule_id@ },
            RateLimitConfigError::ZeroRuleRequestsPerMinute { label, rule_id } =>
                ConfigProblem::ZeroRuleRequestsPerMinute { label: label@, rule_id: rule_id@ },
            RateLimitConfigError::EmptyMatcherValue { label, rule_id } =>
                ConfigProblem::EmptyMatcherValue { label: label@, rule_id: rule_id@ },
            RateLimitConfigError::PaddedMatcherValue { label, rule_id, value } =>
                ConfigProblem::PaddedMatcherValue {
                label: label@,
                rule_id: rule_id@,
                value: value@,
            },
            RateLimitConfigError::DuplicateMatcher { label, rule_id, other_rule_id } =>
                ConfigProblem::DuplicateMatcher {
                label: label@,
                rule_id: rule_id@,
                other_rule_id: other_rule_id@,
            },
        }
    }
}

/// The text `policy '<label>': `.
pub open spec fn policy_text(label: Seq<char>) -> Seq<char> {
    "policy '"@ + label + "': "@
}

/// The text `policy '<label>': rule '<rule_id>'`.
pub open spec fn rule_text(label: Seq<char>, rule_id: Seq<char>) -> Seq<char> {
    policy_text(label) + "rule '"@ + rule_id + "'"@
}

impl ConfigProblem {
    /// What an operator is told of the problem.
    pub open spec fn message(self) -> Seq<char> {
        match self {
            ConfigProblem::DefaultPolicyHasTenantKey =>
                "default_policy must not set tenant_key"@,
            ConfigProblem::MissingTenantKey { index } => "tenants["@ + decimal_text(index as nat)
                + "] is missing tenant_key"@,
            ConfigProblem::DuplicateTenantKey { tenant_key } => "duplicate tenant_key '"@
                + tenant_key + "'"@,
            ConfigProblem::PaddedTenantKey { tenant_key } => "tenant_key '"@ + tenant_key
                + "' must not have surrounding whitespace"@,
            ConfigProblem::ZeroTokensPerMinute { label } => policy_text(label)
                + "tokens_per_minute must be > 0"@,
            ConfigProblem::ZeroRequestsPerMinute { label } => policy_text(label)
                + "requests_per_minute must be > 0"@,
            ConfigProblem::InvalidRuleId { label, rule_id } => policy_text(label) + "rule_id '"@
                + rule_id + "' must match [A-Za-z0-9._-]+"@,
            ConfigProblem::DuplicateRuleId { label, rule_id } => policy_text(label)
                + "duplicate rule_id '"@ + rule_id + "'"@,
            ConfigProblem::ZeroRuleTokensPerMinute { label, rule_id } => rule_text(label, rule_id)
                + " tokens_per_minute must be > 0"@,
            ConfigProblem::ZeroRuleRequestsPerMinute { label, rule_id } => rule_text(
                label,
                rule_id,
            ) + " requests_per_minute must be > 0"@,
            ConfigProblem::EmptyMatcherValue { label, rule_id } => rule_text(label, rule_id)
                + " matcher value must not be empty"@,
            ConfigProblem::PaddedMatcherValue { label, rule_id, value } => rule_text(
                label,
                rule_id,
            ) + " matcher value '"@ + value + "' must not have surrounding whitespace"@,
            ConfigProblem::DuplicateMatcher { label, rule_id, other_rule_id } => rule_text(
                label,
                rule_id,
            ) + " matcher duplicates rule '"@ + other_rule_id + "'"@,
        }
    }
}

fn policy_prefix(label: &str) -> (s: String)
    ensures
        s@ == policy_text(label@),
{
    let mut s = "policy '".to_owned();
    s.append(label);
    s.append("': ");
    s
}

fn rule_prefix(label: &str, rule_id: &str) -> (s: String)
    ensures
        s@ == rule_text(label@, rule_id@),
{
    let mut s = policy_prefix(label);
    s.append("rule '");
    s.append(rule_id);
    s.append("'");
    s
}

impl RateLimitConfigError {
    /// What an operator is told of the problem.
    pub fn message(&self) -> (s: String)
        ensures
            s@ == self@.message(),
    {
        match self {
            RateLimitConfigError::DefaultPolicyHasTenantKey =>
                "default_policy must not set tenant_key".to_owned(),
            RateLimitConfigError::MissingTenantKey { index } => {
                let mut s = "tenants[".to_owned();
                s.append(decimal(*index as u128).as_str());
                s.append("] is missing tenant_key");
                s
            },
            RateLimitConfigError::DuplicateTenantKey { tenant_key } => {
                let mut s = "duplicate tenant_key '".to_owned();
                s.append(tenant_key.as_str());
                s.append("'");
                s
            },
            RateLimitConfigError::PaddedTenantKey { tenant_key } => {
                let mut s = "tenant_key '".to_owned();
                s.append(tenant_key.as_str());
                s.append("' must not have surrounding whitespace");
                s
            },
            RateLimitConfigError::ZeroTokensPerMinute { label } => {
                let mut s = policy_prefix(label.as_str());
                s.append("tokens_per_minute must be > 0");
                s
            },
            RateLimitConfigError::ZeroRequestsPerMinute { label } => {
                let mut s = policy_prefix(label.as_str());
                s.append("requests_per_minute must be > 0");
                s
            },
            RateLimitConfigError::InvalidRuleId { label, rule_id } => {
                let mut s = policy_prefix(label.as_str());
                s.append("rule_id '");
                s.append(rule_id.as_str());
                s.append("' must match [A-Za-z0-9._-]+");
                s
            },
            RateLimitConfigError::DuplicateRuleId { label, rule_id } => {
                let mut s = policy_prefix(label.as_str());
                s.append("duplicate rule_id '");
                s.append(rule_id.as_str());
                s.append("'");
                s
            },
            RateLimitConfigError::ZeroRuleTokensPerMinute { label, rule_id } => {
                let mut s = rule_prefix(label.as_str(), rule_id.as_str());
                s.append(" tokens_per_minute must be > 0");
                s
            },
            RateLimitConfigError::ZeroRuleRequestsPerMinute { label, rule_id } => {
                let mut s = rule_prefix(label.as_str(), rule_id.as_str());
                s.append(" requests_per_minute must be > 0");
                s
            },
            RateLimitConfigError::EmptyMatcherValue { label, rule_id } => {
                let mut s = rule_prefix(label.as_str(), rule_id.as_str());
                s.append(" matcher value must not be empty");
                s
            },
            RateLimitConfigError::PaddedMatcherValue { label, rule_id, value } => {
                let mut s = rule_prefix(label.as_str(), rule_id.as_str());
                s.append(" matcher value '");
                s.append(value.as_str());
                s.append("' must not have surrounding whitespace");
                s
            },
            RateLimitConfigError::DuplicateMatcher { label, rule_id, other_rule_id } => {
                let mut s = rule_prefix(label.as_str(), rule_id.as_str());
                s.append(" matcher duplicates rule '");
                s.append(other_rule_id.as_str());
                s.append("'");
                s
            },
        }
    }
}

/// `c` may stand in a rule id.
pub open spec fn is_rule_id_char(c: char) -> bool {
    ||| 'a' <= c <= 'z'
    ||| 'A' <= c <= 'Z'
    ||| '0' <= c <= '9'
    ||| c == '.'
    ||| c == '_'
    ||| c == '-'
}

/// `s` matches `[A-Za-z0-9._-]+`.
pub open spec fn valid_rule_id(s: Seq<char>) -> bool {
    s.len() > 0 && forall|i: int| 0 <= i < s.len() ==> is_rule_id_char(#[trigger] s[i])
}

impl ModelMatcherSpec {
    pub open spec fn is_exact(&self) -> bool {
        *self is Exact
    }

    pub open spec fn value_text(&self) -> Seq<char> {
        match *self {
            ModelMatcherSpec::Exact { value } => value@,
            ModelMatcherSpec::Prefix { value } => value@,
        }
    }
}

/// Two rules match on the same thing.
pub open spec fn same_matcher(a: ModelRuleSpec, b: ModelRuleSpec) -> bool {
    a.matcher.is_exact() == b.matcher.is_exact() && a.matcher.value_text()
        == b.matcher.value_text()
}

/// The last of the first `n` rules that matches on the same thing as `rule`.
pub open spec fn last_same_matcher(
    rules: Seq<ModelRuleSpec>,
    rule: ModelRuleSpec,
    n: int,
) -> Option<int>
    decreases n,
{
    if n <= 0 {
        None
    } else if same_matcher(rules[n - 1], rule) {
        Some(n - 1)
    } else {
        last_same_matcher(rules, rule, n - 1)
    }
}

/// What is wrong with rule `i`, given that the rules before it are in order.
pub open spec fn rule_problem(
    label: Seq<char>,
    rules: Seq<ModelRuleSpec>,
    i: int,
) -> Option<ConfigProblem> {
    let rule = rules[i];
    let rule_id = rule.rule_id@;
    let value = rule.matcher.value_text();
    if !valid_rule_id(rule_id) {
        Some(ConfigProblem::InvalidRuleId { label, rule_id })
    } else if exists|j: int| 0 <= j < i && (#[trigger] rules[j]).rule_id@ == rule_id {
        Some(ConfigProblem::DuplicateRuleId { label, rule_id })
    } else if rule.tokens_per_minute == 0 {
        Some(ConfigProblem::ZeroRuleTokensPerMinute { label, rule_id })
    } else if rule.requests_per_minute == 0 {
        Some(ConfigProblem::ZeroRuleRequestsPerMinute { label, rule_id })
    } else if trimmed(value).len() == 0 {
        Some(ConfigProblem::EmptyMatcherValue { label, rule_id })
    } else if trimmed(value) != value {
        Some(ConfigProblem::PaddedMatcherValue { label, rule_id, value })
    } else {
        match last_same_matcher(rules, rule, i) {
            Some(j) => Some(
                ConfigProblem::DuplicateMatcher {
                    label,
                    rule_id,
                    other_rule_id: rules[j].rule_id@,
                },
            ),
            None => None,
        }
    }
}

/// What is wrong with the first of the first `n` rules that is not in order.
pub open spec fn rules_problem(
    label: Seq<char>,
    rules: Seq<ModelRuleSpec>,
    n: int,
) -> Option<ConfigProblem>
    decreases n,
{
    if n <= 0 {
        None
    } else {
        match rules_problem(label, rules, n - 1) {
            Some(p) => Some(p),
            None => rule_problem(label, rules, n - 1),
        }
    }
}

/// What is wrong with a policy: its limits are checked first, then its rules
/// in order.
pub open spec fn policy_problem(label: Seq<char>, spec: TenantPolicySpec) -> Option<
    ConfigProblem,
> {
    if spec.tokens_per_minute == 0 {
        Some(ConfigProblem::ZeroTokensPerMinute { label })
    } else if spec.requests_per_minute == 0 {
        Some(ConfigProblem::ZeroRequestsPerMinute { label })
    } else {
        rules_problem(label, spec.model_rules@, spec.model_rules@.len() as int)
    }
}

/// What is wrong with tenant `i`, given that the tenants before it are in
/// order.
pub open spec fn tenant_problem(tenants: Seq<TenantPolicySpec>, i: int) -> Option<
    ConfigProblem,
> {
    match tenants[i].tenant_key {
        None => Some(ConfigProblem::MissingTenantKey { index: i }),
        Some(key) => if trimmed(key@).len() == 0 {
            Some(ConfigProblem::MissingTenantKey { index: i })
        } else if trimmed(key@) != key@ {
            Some(ConfigProblem::PaddedTenantKey { tenant_key: key@ })
        } else if exists|j: int| 0 <= j < i && has_key(#[trigger] tenants[j], key@) {
            Some(ConfigProblem::DuplicateTenantKey { tenant_key: key@ })
        } else {
            policy_problem(key@, tenants[i])
        },
    }
}

/// `spec` is the policy of the tenant `key`.
pub open spec fn has_key(spec: TenantPolicySpec, key: Seq<char>) -> bool {
    spec.tenant_key matches Some(k) && k@ == key
}

/// What is wrong with the first of the first `n` tenants that is not in order.
pub open spec fn tenants_problem(tenants: Seq<TenantPolicySpec>, n: int) -> Option<
    ConfigProblem,
>
    decreases n,
{
    if n <= 0 {
        None
    } else {
        match tenants_problem(tenants, n - 1) {
            Some(p) => Some(p),
            None => tenant_problem(tenants, n - 1),
        }
    }
}

fn is_valid_rule_id(s: &str) -> (r: bool)
    ensures
        r == valid_rule_id(s@),
{
    if s.is_empty() {
        return false;
    }
    let chars: Vec<char> = crate::text::to_chars(s);
    let mut i: usize = 0;
    while i < chars.len()
        invariant
            i <= chars@.len(),
            chars@ == s@,
            forall|j: int| 0 <= j < i ==> is_rule_id_char(#[trigger] s@[j]),
        decreases chars@.len() - i,
    {
        let c: char = chars[i];
        let ok = ('a' <= c && c <= 'z') || ('A' <= c && c <= 'Z') || ('0' <= c && c <= '9') || c
            == '.' || c == '_' || c == '-';
        if !ok {
            assert(!is_rule_id_char(s@[i as int]));
            return false;
        }
        i += 1;
    }
    true
}

/// `table` holds, under each value on which one of the first `n` rules of the
/// kind matches, the id of the last such rule.
spec fn tracks_matchers(
    table: Map<Seq<char>, String>,
    rules: Seq<ModelRuleSpec>,
    exact: bool,
    n: int,
) -> bool {
    forall|rule: ModelRuleSpec|
        rule.matcher.is_exact() == exact ==> match #[trigger] last_same_matcher(rules, rule, n) {
            Some(j) => table.contains_key(rule.matcher.value_text())
                && table[rule.matcher.value_text()]@ == rules[j].rule_id@,
            None => !table.contains_key(rule.matcher.value_text()),
        }
}

fn validate_policy(label: &str, spec: &TenantPolicySpec) -> (r: Result<(), RateLimitConfigError>)
    ensures
        match r {
            Ok(_) => policy_problem(label@, *spec) is None,
            Err(e) => policy_problem(label@, *spec) == Some(e@),
        },
{
    if spec.tokens_per_minute == 0 {
        return Err(RateLimitConfigError::ZeroTokensPerMinute { label: label.to_owned() });
    }
    if spec.requests_per_minute == 0 {
        return Err(RateLimitConfigError::ZeroRequestsPerMinute { label: label.to_owned() });
    }
    let mut seen_rule_ids: StringHashMap<()> = StringHashMap::new();
    let mut seen_exact: StringHashMap<String> = StringHashMap::new();
    let mut seen_prefix: StringHashMap<String> = StringHashMap::new();
    let rules = &spec.model_rules;
    let mut i: usize = 0;
    while i < rules.len()
        invariant
            i <= rules@.len(),
            rules@ == spec.model_rules@,
            spec.tokens_per_minute != 0,
            spec.requests_per_minute != 0,
            rules_problem(label@, rules@, i as int) is None,
            forall|id: Seq<char>| #[trigger]
                seen_rule_ids@.contains_key(id) <==> exists|j: int|
                    0 <= j < i && (#[trigger] rules@[j]).rule_id@ == id,
            tracks_matchers(seen_exact@, rules@, true, i as int),
            tracks_matchers(seen_prefix@, rules@, false, i as int),
        decreases rules@.len() - i,
    {
        let rule = &rules[i];
        proof {
            lemma_rules_problem_stays(label@, rules@, i + 1, rules@.len() as int);
        }
        if !is_valid_rule_id(rule.rule_id.as_str()) {
            return Err(
                RateLimitConfigError::InvalidRuleId {
                    label: label.to_owned(),
                    rule_id: rule.rule_id.clone(),
                },
            );
        }
        if seen_rule_ids.contains_key(rule.rule_id.as_str()) {
            return Err(
                RateLimitConfigError::DuplicateRuleId {
                    label: label.to_owned(),
                    rule_id: rule.rule_id.clone(),
                },
            );
        }
        let ghost ids = seen_rule_ids@;
        seen_rule_ids.insert(rule.rule_id.clone(), ());
        proof {
            assert forall|id: Seq<char>| #[trigger]
                seen_rule_ids@.contains_key(id) <==> exists|j: int|
                    0 <= j < i + 1 && (#[trigger] rules@[j]).rule_id@ == id by {
                if id == rule.rule_id@ {
                    assert(rules@[i as int].rule_id@ == id);
                } else if ids.contains_key(id) {
                    let j = choose|j: int| 0 <= j < i && (#[trigger] rules@[j]).rule_id@ == id;
                    assert(rules@[j].rule_id@ == id);
                }
            }
        }
        if rule.tokens_per_minute == 0 {
            return Err(
                RateLimitConfigError::ZeroRuleTokensPerMinute {
                    label: label.to_owned(),
                    rule_id: rule.rule_id.clone(),
                },
            );
        }
        if rule.requests_per_minute == 0 {
            return Err(
                RateLimitConfigError::ZeroRuleRequestsPerMinute {
                    label: label.to_owned(),
                    rule_id: rule.rule_id.clone(),
                },
            );
        }
        let value: &String = match &rule.matcher {
            ModelMatcherSpec::Exact { value } => value,
            ModelMatcherSpec::Prefix { value } => value,
        };
        let trimmed_value = trim(value.as_str());
        if trimmed_value.as_str().is_empty() {
            return Err(
                RateLimitConfigError::EmptyMatcherValue {
                    label: label.to_owned(),
                    rule_id: rule.rule_id.clone(),
                },
            );
        }
        // A padded value would never match the model id of a request, which
        // is never padded: the rule would silently never apply.
        if !same(trimmed_value.as_str(), value.as_str()) {
            return Err(
                RateLimitConfigError::PaddedMatcherValue {
                    label: label.to_owned(),
                    rule_id: rule.rule_id.clone(),
                    value: value.clone(),
                },
            );
        }
        let ghost exact_before = seen_exact@;
        let ghost prefix_before = seen_prefix@;
        assert(last_same_matcher(rules@, *rule, i as int) == last_same_matcher(
            rules@,
            rules@[i as int],
            i as int,
        ));
        let other: Option<&String> = match &rule.matcher {
            ModelMatcherSpec::Exact { .. } => seen_exact.get(value.as_str()),
            ModelMatcherSpec::Prefix { .. } => seen_prefix.get(value.as_str()),
        };
        if let Some(other_rule_id) = other {
            return Err(
                RateLimitConfigError::DuplicateMatcher {
                    label: label.to_owned(),
                    rule_id: rule.rule_id.clone(),
                    other_rule_id: other_rule_id.clone(),
                },
            );
        }
        match &rule.matcher {
            ModelMatcherSpec::Exact { .. } => {
                seen_exact.insert(value.clone(), rule.rule_id.clone());
            },
            ModelMatcherSpec::Prefix { .. } => {
                seen_prefix.insert(value.clone(), rule.rule_id.clone());
            },
        }
        proof {
            assert forall|other: ModelRuleSpec| other.matcher.is_exact() == true implies match
                #[trigger] last_same_matcher(rules@, other, i + 1) {
                Some(j) => seen_exact@.contains_key(other.matcher.value_text())
                    && seen_exact@[other.matcher.value_text()]@ == rules@[j].rule_id@,
                None => !seen_exact@.contains_key(other.matcher.value_text()),
            } by {
                let before = last_same_matcher(rules@, other, i as int);
                assert(match before {
                    Some(j) => exact_before.contains_key(other.matcher.value_text())
                        && exact_before[other.matcher.value_text()]@ == rules@[j].rule_id@,
                    None => !exact_before.contains_key(other.matcher.value_text()),
                });
            }
            assert forall|other: ModelRuleSpec| other.matcher.is_exact() == false implies match
                #[trigger] last_same_matcher(rules@, other, i + 1) {
                Some(j) => seen_prefix@.contains_key(other.matcher.value_text())
                    && seen_prefix@[other.matcher.value_text()]@ == rules@[j].rule_id@,
                None => !seen_prefix@.contains_key(other.matcher.value_text()),
            } by {
                let before = last_same_matcher(rules@, other, i as int);
                assert(match before {
                    Some(j) => prefix_before.contains_key(other.matcher.value_text())
                        && prefix_before[other.matcher.value_text()]@ == rules@[j].rule_id@,
                    None => !prefix_before.contains_key(other.matcher.value_text()),
                });
            }
        }
        i += 1;
    }
    Ok(())
}

/// A problem that is found stays found.
proof fn lemma_rules_problem_stays(label: Seq<char>, rules: Seq<ModelRuleSpec>, m: int, n: int)
    requires
        0 <= m <= n,
    ensures
        rules_problem(label, rules, m) is Some ==> rules_problem(label, rules, n)
            == rules_problem(label, rules, m),
    decreases n,
{
    if m < n {
        lemma_rules_problem_stays(label, rules, m, n - 1);
    }
}

/// A problem that is found stays found.
proof fn lemma_tenants_problem_stays(tenants: Seq<TenantPolicySpec>, m: int, n: int)
    requires
        0 <= m <= n,
    ensures
        tenants_problem(tenants, m) is Some ==> tenants_problem(tenants, n) == tenants_problem(
            tenants,
            m,
        ),
    decreases n,
{
    if m < n {
        lemma_tenants_problem_stays(tenants, m, n - 1);
    }
}

impl RateLimitYaml {
    /// What is wrong with this config: the first problem in the order default
    /// policy, then tenants.
    pub open spec fn problem(&self) -> Option<ConfigProblem> {
        if self.default_policy.tenant_key is Some {
            Some(ConfigProblem::DefaultPolicyHasTenantKey)
        } else {
            match policy_problem("default"@, self.default_policy) {
                Some(p) => Some(p),
                None => tenants_problem(self.tenants@, self.tenants@.len() as int),
            }
        }
    }

    /// Positive limits, unique tenant keys, unique+valid rule ids per
    /// tenant, no duplicate exact/prefix matcher within a tenant, no empty
    /// matcher value. Rejects at load time rather than at first use.
    pub fn validate(&self) -> (r: Result<(), RateLimitConfigError>)
        ensures
            match r {
                Ok(_) => self.problem() is None,
                Err(e) => self.problem() == Some(e@),
            },
    {
        if self.default_policy.tenant_key.is_some() {
            return Err(RateLimitConfigError::DefaultPolicyHasTenantKey);
        }
        if let Err(e) = validate_policy("default", &self.default_policy) {
            return Err(e);
        }
        let mut seen_tenants: StringHashMap<()> = StringHashMap::new();
        let mut index: usize = 0;
        while index < self.tenants.len()
            invariant
                index <= self.tenants@.len(),
                self.default_policy.tenant_key is None,
                policy_problem("default"@, self.default_policy) is None,
                tenants_problem(self.tenants@, index as int) is None,
                forall|key: Seq<char>| #[trigger]
                    seen_tenants@.contains_key(key) <==> exists|j: int|
                        0 <= j < index && has_key(#[trigger] self.tenants@[j], key),
            decreases self.tenants@.len() - index,
        {
            let spec = &self.tenants[index];
            proof {
                lemma_tenants_problem_stays(self.tenants@, index + 1, self.tenants@.len() as int);
            }
            let tenant_key: &String = match &spec.tenant_key {
                Some(key) => key,
                None => {
                    return Err(RateLimitConfigError::MissingTenantKey { index });
                },
            };
            let trimmed_key = trim(tenant_key.as_str());
            // An empty key could never match a resolved tenant, so the entry
            // would silently never apply to anything.
            if trimmed_key.as_str().is_empty() {
                return Err(RateLimitConfigError::MissingTenantKey { index });
            }
            // Resolved tenant keys are never padded, so a padded key would
            // silently never be found.
            if !same(trimmed_key.as_str(), tenant_key.as_str()) {
                return Err(
                    RateLimitConfigError::PaddedTenantKey { tenant_key: tenant_key.clone() },
                );
            }
            if seen_tenants.contains_key(tenant_key.as_str()) {
                return Err(
                    RateLimitConfigError::DuplicateTenantKey { tenant_key: tenant_key.clone() },
                );
            }
            let ghost seen = seen_tenants@;
            seen_tenants.insert(tenant_key.clone(), ());
            proof {
                assert(has_key(self.tenants@[index as int], tenant_key@));
                assert forall|key: Seq<char>| #[trigger]
                    seen_tenants@.contains_key(key) <==> exists|j: int|
                        0 <= j < index + 1 && has_key(#[trigger] self.tenants@[j], key) by {
                    if key != tenant_key@ && seen.contains_key(key) {
                        let j = choose|j: int|
                            0 <= j < index && has_key(#[trigger] self.tenants@[j], key);
                        assert(has_key(self.tenants@[j], key));
                    }
                }
            }
            if let Err(e) = validate_policy(tenant_key.as_str(), spec) {
                return Err(e);
            }
            index += 1;
        }
        Ok(())
    }
}

/// The rules of one policy are in order: ids valid and unique, limits
/// positive, matcher values neither empty nor padded, no two rules matching on
/// the same thing.
pub open spec fn rules_in_order(rules: Seq<ModelRuleSpec>) -> bool {
    &&& forall|i: int|
        0 <= i < rules.len() ==> {
            let rule = #[trigger] rules[i];
            &&& valid_rule_id(rule.rule_id@)
            &&& rule.tokens_per_minute > 0
            &&& rule.requests_per_minute > 0
            &&& rule.matcher.value_text().len() > 0
            &&& trimmed(rule.matcher.value_text()) == rule.matcher.value_text()
        }
    &&& forall|i: int, j: int|
        0 <= i < j < rules.len() ==> (#[trigger] rules[i]).rule_id@ != (
        #[trigger] rules[j]).rule_id@ && !same_matcher(rules[i], rules[j])
}

/// The limits of a policy are positive and its rules are in order.
pub open spec fn policy_in_order(spec: TenantPolicySpec) -> bool {
    &&& spec.tokens_per_minute > 0
    &&& spec.requests_per_minute > 0
    &&& rules_in_order(spec.model_rules@)
}

/// The default policy is for no tenant, every other policy is for one, under a
/// key of its own that is neither empty nor padded, and each policy is in
/// order.
pub open spec fn config_in_order(yaml: RateLimitYaml) -> bool {
    &&& yaml.default_policy.tenant_key is None
    &&& policy_in_order(yaml.default_policy)
    &&& forall|i: int|
        0 <= i < yaml.tenants@.len() ==> {
            let spec = #[trigger] yaml.tenants@[i];
            &&& spec.tenant_key is Some
            &&& spec.tenant_key->0@.len() > 0
            &&& trimmed(spec.tenant_key->0@) == spec.tenant_key->0@
            &&& policy_in_order(spec)
        }
    &&& forall|i: int, j: int|
        0 <= i < j < yaml.tenants@.len() ==> (#[trigger] yaml.tenants@[i]).tenant_key->0@ != (
        #[trigger] yaml.tenants@[j]).tenant_key->0@
}

/// `last_same_matcher` finds a rule exactly where there is one.
proof fn lemma_last_same_matcher(rules: Seq<ModelRuleSpec>, rule: ModelRuleSpec, n: int)
    requires
        0 <= n <= rules.len(),
    ensures
        match last_same_matcher(rules, rule, n) {
            Some(j) => 0 <= j < n && same_matcher(rules[j], rule),
            None => forall|j: int| 0 <= j < n ==> !same_matcher(#[trigger] rules[j], rule),
        },
    decreases n,
{
    if n > 0 && !same_matcher(rules[n - 1], rule) {
        lemma_last_same_matcher(rules, rule, n - 1);
    }
}

proof fn lemma_rules_in_order(label: Seq<char>, rules: Seq<ModelRuleSpec>, n: int)
    requires
        0 <= n <= rules.len(),
    ensures
        rules_problem(label, rules, n) is None <==> rules_in_order(rules.take(n)),
    decreases n,
{
    if n > 0 {
        lemma_rules_in_order(label, rules, n - 1);
        lemma_last_same_matcher(rules, rules[n - 1], n - 1);
        let before = rules.take(n - 1);
        let now = rules.take(n);
        assert forall|i: int| 0 <= i < n - 1 implies before[i] == now[i] && now[i] == rules[i] by {}
        assert(now[n - 1] == rules[n - 1]);
        if rules_in_order(now) {
            assert(rules_in_order(before)) by {
                assert forall|i: int, j: int| 0 <= i < j < before.len() implies (
                #[trigger] before[i]).rule_id@ != (#[trigger] before[j]).rule_id@
                    && !same_matcher(before[i], before[j]) by {
                    assert(now[i].rule_id@ != now[j].rule_id@);
                }
            }
            assert forall|j: int| 0 <= j < n - 1 implies (#[trigger] rules[j]).rule_id@
                != rules[n - 1].rule_id@ && !same_matcher(rules[j], rules[n - 1]) by {
                assert(now[j].rule_id@ != now[n - 1].rule_id@);
            }
        }
        if rules_problem(label, rules, n) is None {
            assert forall|i: int, j: int| 0 <= i < j < now.len() implies (
            #[trigger] now[i]).rule_id@ != (#[trigger] now[j]).rule_id@ && !same_matcher(
                now[i],
                now[j],
            ) by {
                if j < n - 1 {
                    assert(before[i].rule_id@ != before[j].rule_id@);
                } else {
                    assert(rules[i].rule_id@ != rules[n - 1].rule_id@);
                }
            }
        }
    }
}

proof fn lemma_policy_in_order(label: Seq<char>, spec: TenantPolicySpec)
    ensures
        policy_problem(label, spec) is None <==> policy_in_order(spec),
{
    let rules = spec.model_rules@;
    lemma_rules_in_order(label, rules, rules.len() as int);
    assert(rules.take(rules.len() as int) =~= rules);
}

/// The first `n` tenants are in order.
spec fn tenants_in_order(tenants: Seq<TenantPolicySpec>, n: int) -> bool {
    &&& forall|i: int|
        0 <= i < n ==> {
            let spec = #[trigger] tenants[i];
            &&& spec.tenant_key is Some
            &&& spec.tenant_key->0@.len() > 0
            &&& trimmed(spec.tenant_key->0@) == spec.tenant_key->0@
            &&& policy_in_order(spec)
        }
    &&& forall|i: int, j: int|
        0 <= i < j < n ==> (#[trigger] tenants[i]).tenant_key->0@ != (
        #[trigger] tenants[j]).tenant_key->0@
}

proof fn lemma_tenants_in_order(tenants: Seq<TenantPolicySpec>, n: int)
    requires
        0 <= n <= tenants.len(),
    ensures
        tenants_problem(tenants, n) is None <==> tenants_in_order(tenants, n),
    decreases n,
{
    if n > 0 {
        lemma_tenants_in_order(tenants, n - 1);
        if let Some(key) = tenants[n - 1].tenant_key {
            lemma_policy_in_order(key@, tenants[n - 1]);
            if tenants_in_order(tenants, n) {
                assert forall|j: int| 0 <= j < n - 1 implies !has_key(
                    #[trigger] tenants[j],
                    key@,
                ) by {
                    assert(tenants[j].tenant_key->0@ != tenants[n - 1].tenant_key->0@);
                }
            }
            if tenants_problem(tenants, n) is None {
                assert forall|i: int, j: int| 0 <= i < j < n implies (
                #[trigger] tenants[i]).tenant_key->0@ != (#[trigger] tenants[j]).tenant_key->0@ by {
                    if j == n - 1 {
                        assert(!has_key(tenants[i], key@));
                    }
                }
            }
        }
    }
}

/// Validation accepts exactly the configs that are in order.
pub proof fn accepted_configs_are_in_order(yaml: RateLimitYaml)
    ensures
        yaml.problem() is None <==> config_in_order(yaml),
{
    lemma_policy_in_order("default"@, yaml.default_policy);
    lemma_tenants_in_order(yaml.tenants@, yaml.tenants@.len() as int);
}

/// Rule ids are made of ASCII letters, digits, dots, underscores and dashes, and of at
/// least one of them.
pub proof fn rule_ids_are_plain(s: Seq<char>)
    ensures
        valid_rule_id(s) <==> s.len() > 0 && forall|i: int|
            0 <= i < s.len() ==> ('a' <= #[trigger] s[i] <= 'z' || 'A' <= s[i] <= 'Z' || '0' <= s[i]
                <= '9' || s[i] == '.' || s[i] == '_' || s[i] == '-'),
{
    if valid_rule_id(s) {
        assert forall|i: int| 0 <= i < s.len() implies ('a' <= #[trigger] s[i] <= 'z' || 'A' <= s[i]
            <= 'Z' || '0' <= s[i] <= '9' || s[i] == '.' || s[i] == '_' || s[i] == '-') by {
            assert(is_rule_id_char(s[i]));
        }
    }
}

/// What is said of a rule is true of it: each complaint holds of the rule that it
/// names, and a rule without one has an id, limits and a matcher that are in order
/// and that no rule before it has.
pub proof fn complaints_are_true(label: Seq<char>, rules: Seq<ModelRuleSpec>, i: int)
    requires
        0 <= i < rules.len(),
    ensures
        ({
            let rule = rules[i];
            let value = match rule.matcher {
                ModelMatcherSpec::Exact { value } => value@,
                ModelMatcherSpec::Prefix { value } => value@,
            };
            match rule_problem(label, rules, i) {
                Some(ConfigProblem::InvalidRuleId { label: l, rule_id }) => l == label && rule_id
                    == rule.rule_id@ && !valid_rule_id(rule_id),
                Some(ConfigProblem::DuplicateRuleId { label: l, rule_id }) => l == label && rule_id
                    == rule.rule_id@ && exists|j: int|
                    0 <= j < i && (#[trigger] rules[j]).rule_id@ == rule_id,
                Some(ConfigProblem::ZeroRuleTokensPerMinute { label: l, rule_id }) => l == label
                    && rule_id == rule.rule_id@ && rule.tokens_per_minute == 0,
                Some(ConfigProblem::ZeroRuleRequestsPerMinute { label: l, rule_id }) => l == label
                    && rule_id == rule.rule_id@ && rule.requests_per_minute == 0,
                Some(ConfigProblem::EmptyMatcherValue { label: l, rule_id }) => l == label
                    && rule_id == rule.rule_id@ && trimmed(value).len() == 0,
                Some(ConfigProblem::PaddedMatcherValue { label: l, rule_id, value: v }) => l
                    == label && rule_id == rule.rule_id@ && v == value && trimmed(v) != v,
                Some(ConfigProblem::DuplicateMatcher { label: l, rule_id, other_rule_id }) => l
                    == label && rule_id == rule.rule_id@ && exists|j: int|
                    0 <= j < i && (#[trigger] rules[j]).rule_id@ == other_rule_id && (match (
                        rules[j].matcher,
                        rule.matcher,
                    ) {
                        (
                            ModelMatcherSpec::Exact { value: a },
                            ModelMatcherSpec::Exact { value: b },
                        ) => a@ == b@,
                        (
                            ModelMatcherSpec::Prefix { value: a },
                            ModelMatcherSpec::Prefix { value: b },
                        ) => a@ == b@,
                        _ => false,
                    }),
                Some(_) => false,
                None => {
                    &&& valid_rule_id(rule.rule_id@)
                    &&& rule.tokens_per_minute > 0
                    &&& rule.requests_per_minute > 0
                    &&& value.len() > 0
                    &&& trimmed(value) == value
                    &&& forall|j: int|
                        0 <= j < i ==> (#[trigger] rules[j]).rule_id@ != rule.rule_id@ && (match (
                            rules[j].matcher,
                            rule.matcher,
                        ) {
                            (
                                ModelMatcherSpec::Exact { value: a },
                                ModelMatcherSpec::Exact { value: b },
                            ) => a@ != b@,
                            (
                                ModelMatcherSpec::Prefix { value: a },
                                ModelMatcherSpec::Prefix { value: b },
                            ) => a@ != b@,
                            _ => true,
                        })
                },
            }
        }),
{
    let rule = rules[i];
    lemma_last_same(rules, rule, i);
    if let Some(j) = last_same_matcher(rules, rule, i) {
        assert(rules[j].rule_id@ == rules[j].rule_id@);
    }
}

proof fn lemma_last_same(rules: Seq<ModelRuleSpec>, rule: ModelRuleSpec, n: int)
    requires
        0 <= n <= rules.len(),
    ensures
        match last_same_matcher(rules, rule, n) {
            Some(j) => 0 <= j < n && same_matcher(rules[j], rule),
            None => forall|j: int| 0 <= j < n ==> !same_matcher(#[trigger] rules[j], rule),
        },
    decreases n,
{
    if n > 0 {
        lemma_last_same(rules, rule, n - 1);
    }
}

/// Policies and tenants are judged in order: the limits before the rules, the rules
/// and the tenants each from the first on, and what is said names the place.
pub proof fn the_first_complaint_is_made(
    label: Seq<char>,
    spec: TenantPolicySpec,
    tenants: Seq<TenantPolicySpec>,
    n: int,
)
    ensures
        spec.tokens_per_minute == 0 ==> policy_problem(label, spec) == Some(
            ConfigProblem::ZeroTokensPerMinute { label },
        ),
        spec.tokens_per_minute > 0 && spec.requests_per_minute == 0 ==> policy_problem(label, spec)
            == Some(ConfigProblem::ZeroRequestsPerMinute { label }),
        0 <= n < spec.model_rules@.len() && rules_problem(label, spec.model_rules@, n) is Some
            ==> rules_problem(label, spec.model_rules@, n + 1) == rules_problem(
            label,
            spec.model_rules@,
            n,
        ),
        0 <= n < spec.model_rules@.len() && rules_problem(label, spec.model_rules@, n) is None
            ==> rules_problem(label, spec.model_rules@, n + 1) == rule_problem(
            label,
            spec.model_rules@,
            n,
        ),
        rules_problem(label, spec.model_rules@, 0) is None,
        0 <= n < tenants.len() ==> {
            &&& tenants_problem(tenants, n) is Some ==> tenants_problem(tenants, n + 1)
                == tenants_problem(tenants, n)
            &&& tenants_problem(tenants, n) is None ==> match tenants[n].tenant_key {
                None => tenants_problem(tenants, n + 1) == Some(
                    ConfigProblem::MissingTenantKey { index: n },
                ),
                Some(key) => {
                    let twice = exists|j: int|
                        0 <= j < n && ((#[trigger] tenants[j]).tenant_key matches Some(k) && k@
                            == key@);
                    tenants_problem(tenants, n + 1) == if trimmed(key@).len() == 0 {
                        Some(ConfigProblem::MissingTenantKey { index: n })
                    } else if trimmed(key@) != key@ {
                        Some(ConfigProblem::PaddedTenantKey { tenant_key: key@ })
                    } else if twice {
                        Some(ConfigProblem::DuplicateTenantKey { tenant_key: key@ })
                    } else {
                        policy_problem(key@, tenants[n])
                    }
                },
            }
        },
        tenants_problem(tenants, 0) is None,
{
    if 0 <= n < tenants.len() && tenants_problem(tenants, n) is None {
        if let Some(key) = tenants[n].tenant_key {
            let named = exists|j: int| 0 <= j < n && has_key(#[trigger] tenants[j], key@);
            let twice = exists|j: int|
                0 <= j < n && ((#[trigger] tenants[j]).tenant_key matches Some(k) && k@ == key@);
            if named {
                let j = choose|j: int| 0 <= j < n && has_key(#[trigger] tenants[j], key@);
                assert(tenants[j].tenant_key matches Some(k) && k@ == key@);
            }
            if twice {
                let j = choose|j: int|
                    0 <= j < n && ((#[trigger] tenants[j]).tenant_key matches Some(k) && k@ == key@);
                assert(has_key(tenants[j], key@));
            }
            assert(named == twice);
        }
    }
}

} // verus!
