//! Compiles a validated [`RateLimitYaml`] into an immutable, cheap-to-look-up
//! policy set.

use crate::rate_limit::config::{
    config_in_order, has_key, ModelMatcherSpec, ModelRuleSpec, RateLimitConfigError,
    RateLimitYaml, TenantPolicySpec,
};
use crate::text::{beginnings, begins_with, starts_with};
use vstd::hash_map::StringHashMap;
use vstd::prelude::*;

verus! {

#[derive(Debug, Clone, Copy, PartialEq, Eq, Structural)]
pub struct ScopeLimits {
    pub tokens_per_minute: u32,
    pub requests_per_minute: u32,
}

/// The canonical key of a tenant.
#[derive(Debug, Clone, PartialEq, Eq, Hash)]
pub struct TenantKey {
    pub key: String,
}

impl TenantKey {
    pub fn new(key: &str) -> (r: Self)
        ensures
            r.key@ == key@,
    {
        TenantKey { key: key.to_owned() }
    }
}

/// A model rule, ready for use.
#[derive(Debug, Clone)]
pub struct CompiledModelRule {
    pub rule_id: String,
    pub limits: ScopeLimits,
}

/// A prefix rule plus the prefix it matches on.
pub struct CompiledPrefixRule {
    prefix: String,
    rule: CompiledModelRule,
}

/// The policy of one tenant, ready for use.
pub struct CompiledTenantPolicy {
    limits: ScopeLimits,
    /// Exact matches never need to scan.
    exact_model_rules: StringHashMap<CompiledModelRule>,
    /// Sorted longest-prefix-first once at compile time, so that the first hit
    /// of a scan is the longest.
    prefix_model_rules: Vec<CompiledPrefixRule>,
}

/// `compiled` says what `rule` says.
pub open spec fn compiled_from(compiled: CompiledModelRule, rule: ModelRuleSpec) -> bool {
    &&& compiled.rule_id@ == rule.rule_id@
    &&& compiled.limits == ScopeLimits {
        tokens_per_minute: rule.tokens_per_minute,
        requests_per_minute: rule.requests_per_minute,
    }
}

/// `rule` matches exactly the model `model`.
pub open spec fn matches_exactly(rule: ModelRuleSpec, model: Seq<char>) -> bool {
    rule.matcher matches ModelMatcherSpec::Exact { value } && value@ == model
}

/// `rule` matches models by a prefix that `model` begins with.
pub open spec fn matches_prefix(rule: ModelRuleSpec, model: Seq<char>) -> bool {
    rule.matcher matches ModelMatcherSpec::Prefix { value } && begins_with(model, value@)
}

/// The exact rule that `model` falls under: the last one, if there are more.
pub open spec fn exact_rule(rules: Seq<ModelRuleSpec>, model: Seq<char>) -> Option<int>
    decreases rules.len(),
{
    if rules.len() == 0 {
        None
    } else if matches_exactly(rules.last(), model) {
        Some(rules.len() - 1)
    } else {
        exact_rule(rules.drop_last(), model)
    }
}

/// The prefix rule that `model` falls under: the one with the longest prefix,
/// the first one if there are more.
pub open spec fn prefix_rule(rules: Seq<ModelRuleSpec>, model: Seq<char>) -> Option<int>
    decreases rules.len(),
{
    if rules.len() == 0 {
        None
    } else {
        let before = prefix_rule(rules.drop_last(), model);
        let len = rules.last().matcher.value_text().len();
        if matches_prefix(rules.last(), model) && (before is None
            || rules[before->0].matcher.value_text().len() < len) {
            Some(rules.len() - 1)
        } else {
            before
        }
    }
}

/// The single rule that `model` falls under: exact wins over prefix; among
/// prefixes, the longest wins.
pub open spec fn rule_for(rules: Seq<ModelRuleSpec>, model: Seq<char>) -> Option<int> {
    match exact_rule(rules, model) {
        Some(i) => Some(i),
        None => prefix_rule(rules, model),
    }
}

/// The first of `list` whose prefix `model` begins with.
spec fn first_prefix(list: Seq<CompiledPrefixRule>, model: Seq<char>) -> Option<int>
    decreases list.len(),
{
    if list.len() == 0 {
        None
    } else {
        match first_prefix(list.drop_last(), model) {
            Some(i) => Some(i),
            None => if begins_with(model, list.last().prefix@) {
                Some(list.len() - 1)
            } else {
                None
            },
        }
    }
}

/// No prefix stands behind a shorter one.
spec fn longest_first(list: Seq<CompiledPrefixRule>) -> bool {
    forall|i: int, j: int|
        0 <= i <= j < list.len() ==> (#[trigger] list[i]).prefix@.len() >= (
        #[trigger] list[j]).prefix@.len()
}

proof fn lemma_first_prefix(list: Seq<CompiledPrefixRule>, model: Seq<char>)
    ensures
        match first_prefix(list, model) {
            Some(i) => {
                &&& 0 <= i < list.len()
                &&& begins_with(model, list[i].prefix@)
                &&& forall|j: int| 0 <= j < i ==> !begins_with(model, (#[trigger] list[j]).prefix@)
            },
            None => forall|j: int|
                0 <= j < list.len() ==> !begins_with(model, (#[trigger] list[j]).prefix@),
        },
    decreases list.len(),
{
    if list.len() > 0 {
        let front = list.drop_last();
        lemma_first_prefix(front, model);
        assert forall|j: int| 0 <= j < front.len() implies front[j] == list[j] by {}
        if first_prefix(front, model) is None {
            assert forall|j: int| 0 <= j < front.len() implies !begins_with(
                model,
                (#[trigger] list[j]).prefix@,
            ) by {
                assert(!begins_with(model, front[j].prefix@));
            }
        } else {
            let i = first_prefix(front, model)->0;
            assert forall|j: int| 0 <= j < i implies !begins_with(
                model,
                (#[trigger] list[j]).prefix@,
            ) by {
                assert(!begins_with(model, front[j].prefix@));
            }
        }
    }
}

/// What `first_prefix` gives is fixed by what it means.
proof fn lemma_first_prefix_is(list: Seq<CompiledPrefixRule>, model: Seq<char>, i: int)
    requires
        0 <= i < list.len(),
        begins_with(model, list[i].prefix@),
        forall|j: int| 0 <= j < i ==> !begins_with(model, (#[trigger] list[j]).prefix@),
    ensures
        first_prefix(list, model) == Some(i),
{
    lemma_first_prefix(list, model);
}

impl CompiledTenantPolicy {
    /// The limits that hold for all of the tenant's requests together.
    pub closed spec fn tenant_limits(&self) -> ScopeLimits {
        self.limits
    }

    /// The rule that applies to `model`.
    pub closed spec fn lookup(&self, model: Seq<char>) -> Option<CompiledModelRule> {
        if self.exact_model_rules@.contains_key(model) {
            Some(self.exact_model_rules@[model])
        } else {
            match first_prefix(self.prefix_model_rules@, model) {
                Some(i) => Some(self.prefix_model_rules@[i].rule),
                None => None,
            }
        }
    }

    /// Says of every model what `spec` says.
    pub open spec fn implements(&self, spec: TenantPolicySpec) -> bool {
        &&& self.tenant_limits() == ScopeLimits {
            tokens_per_minute: spec.tokens_per_minute,
            requests_per_minute: spec.requests_per_minute,
        }
        &&& forall|model: Seq<char>|
            match #[trigger] rule_for(spec.model_rules@, model) {
                Some(i) => self.lookup(model) is Some && compiled_from(
                    self.lookup(model)->0,
                    spec.model_rules@[i],
                ),
                None => self.lookup(model) is None,
            }
    }

    /// The limits that hold for all of the tenant's requests together.
    pub fn limits(&self) -> (r: ScopeLimits)
        ensures
            r == self.tenant_limits(),
    {
        self.limits
    }

    /// The single model rule (if any) that matches `model_id`: exact wins
    /// over prefix; among prefixes, the longest wins. Rules never stack.
    pub fn matching_rule(&self, model_id: &str) -> (r: Option<&CompiledModelRule>)
        ensures
            match r {
                Some(rule) => self.lookup(model_id@) == Some(*rule),
                None => self.lookup(model_id@) is None,
            },
    {
        if let Some(exact) = self.exact_model_rules.get(model_id) {
            return Some(exact);
        }
        let mut i: usize = 0;
        while i < self.prefix_model_rules.len()
            invariant
                i <= self.prefix_model_rules@.len(),
                !self.exact_model_rules@.contains_key(model_id@),
                forall|j: int|
                    0 <= j < i ==> !begins_with(
                        model_id@,
                        (#[trigger] self.prefix_model_rules@[j]).prefix@,
                    ),
            decreases self.prefix_model_rules@.len() - i,
        {
            let r = &self.prefix_model_rules[i];
            if starts_with(model_id, r.prefix.as_str()) {
                proof {
                    lemma_first_prefix_is(self.prefix_model_rules@, model_id@, i as int);
                }
                return Some(&r.rule);
            }
            i += 1;
        }
        proof {
            lemma_first_prefix(self.prefix_model_rules@, model_id@);
        }
        None
    }

    /// Compiles one policy.
    pub fn compile(spec: &TenantPolicySpec) -> (r: Self)
        ensures
            r.implements(*spec),
    {
        let mut exact_model_rules: StringHashMap<CompiledModelRule> = StringHashMap::new();
        let mut prefix_model_rules: Vec<CompiledPrefixRule> = Vec::new();
        let rules = &spec.model_rules;
        let mut i: usize = 0;
        proof {
            assert(rules@.take(0) =~= Seq::<ModelRuleSpec>::empty());
        }
        while i < rules.len()
            invariant
                i <= rules@.len(),
                tracks_exact(exact_model_rules@, rules@.take(i as int)),
                longest_first(prefix_model_rules@),
                tracks_prefixes(prefix_model_rules@, rules@.take(i as int)),
            decreases rules@.len() - i,
        {
            let r = &rules[i];
            let rule = CompiledModelRule {
                rule_id: r.rule_id.clone(),
                limits: ScopeLimits {
                    tokens_per_minute: r.tokens_per_minute,
                    requests_per_minute: r.requests_per_minute,
                },
            };
            let ghost before = rules@.take(i as int);
            let ghost after = rules@.take(i + 1);
            proof {
                assert(after.drop_last() =~= before);
                assert(after.last() == *r);
                assert forall|j: int| 0 <= j < before.len() implies after[j] == before[j] by {}
            }
            match &r.matcher {
                ModelMatcherSpec::Exact { value } => {
                    let ghost table = exact_model_rules@;
                    exact_model_rules.insert(value.clone(), rule);
                    proof {
                        lemma_exact_step(table, exact_model_rules@, before, *r, rule);
                        assert(before.push(*r) =~= after);
                        assert forall|model: Seq<char>| prefix_rule(after, model) == prefix_rule(
                            before,
                            model,
                        ) by {}
                        lemma_prefix_same(prefix_model_rules@, before, after);
                    }
                },
                ModelMatcherSpec::Prefix { value } => {
                    let ghost list = prefix_model_rules@;
                    let at: usize = Self::place(&prefix_model_rules, value);
                    let entry = CompiledPrefixRule { prefix: value.clone(), rule };
                    prefix_model_rules.insert(at, entry);
                    proof {
                        assert(before.push(*r) =~= after);
                        lemma_prefix_step(list, before, *r, entry, at as int);
                        assert forall|model: Seq<char>| exact_rule(after, model) == exact_rule(
                            before,
                            model,
                        ) by {}
                        lemma_exact_same(exact_model_rules@, before, after);
                    }
                },
            }
            i += 1;
        }
        let compiled = Self {
            limits: ScopeLimits {
                tokens_per_minute: spec.tokens_per_minute,
                requests_per_minute: spec.requests_per_minute,
            },
            exact_model_rules,
            prefix_model_rules,
        };
        proof {
            assert(rules@.take(rules@.len() as int) =~= rules@);
            assert forall|model: Seq<char>|
                match #[trigger] rule_for(rules@, model) {
                    Some(k) => compiled.lookup(model) is Some && compiled_from(
                        compiled.lookup(model)->0,
                        rules@[k],
                    ),
                    None => compiled.lookup(model) is None,
                } by {
                assert(tracks_exact_at(exact_model_rules@, rules@, model));
                assert(tracks_prefix_at(prefix_model_rules@, rules@, model));
            }
        }
        compiled
    }

    /// Where a new prefix goes: behind every prefix that is not shorter.
    fn place(list: &Vec<CompiledPrefixRule>, value: &String) -> (at: usize)
        requires
            longest_first(list@),
        ensures
            at <= list@.len(),
            forall|j: int| 0 <= j < at ==> (#[trigger] list@[j]).prefix@.len() >= value@.len(),
            forall|j: int|
                at <= j < list@.len() ==> (#[trigger] list@[j]).prefix@.len() < value@.len(),
    {
        let len: usize = value.as_str().unicode_len();
        let mut at: usize = 0;
        while at < list.len() && list[at].prefix.as_str().unicode_len() >= len
            invariant
                at <= list@.len(),
                len == value@.len(),
                forall|j: int| 0 <= j < at ==> (#[trigger] list@[j]).prefix@.len() >= value@.len(),
            decreases list@.len() - at,
        {
            at += 1;
        }
        at
    }
}

spec fn tracks_exact_at(
    table: Map<Seq<char>, CompiledModelRule>,
    rules: Seq<ModelRuleSpec>,
    model: Seq<char>,
) -> bool {
    match exact_rule(rules, model) {
        Some(i) => 0 <= i < rules.len() && table.contains_key(model) && compiled_from(
            table[model],
            rules[i],
        ),
        None => !table.contains_key(model),
    }
}

spec fn tracks_exact(
    table: Map<Seq<char>, CompiledModelRule>,
    rules: Seq<ModelRuleSpec>,
) -> bool {
    forall|model: Seq<char>| #[trigger] tracks_exact_at(table, rules, model)
}

spec fn tracks_prefix_at(
    list: Seq<CompiledPrefixRule>,
    rules: Seq<ModelRuleSpec>,
    model: Seq<char>,
) -> bool {
    match prefix_rule(rules, model) {
        Some(i) => {
            &&& 0 <= i < rules.len()
            &&& first_prefix(list, model) is Some
            &&& list[first_prefix(list, model)->0].prefix@ == rules[i].matcher.value_text()
            &&& compiled_from(list[first_prefix(list, model)->0].rule, rules[i])
        },
        None => first_prefix(list, model) is None,
    }
}

spec fn tracks_prefixes(list: Seq<CompiledPrefixRule>, rules: Seq<ModelRuleSpec>) -> bool {
    forall|model: Seq<char>| #[trigger] tracks_prefix_at(list, rules, model)
}

proof fn lemma_exact_step(
    table: Map<Seq<char>, CompiledModelRule>,
    after: Map<Seq<char>, CompiledModelRule>,
    rules: Seq<ModelRuleSpec>,
    rule: ModelRuleSpec,
    compiled: CompiledModelRule,
)
    requires
        tracks_exact(table, rules),
        rule.matcher is Exact,
        after == table.insert(rule.matcher.value_text(), compiled),
        compiled_from(compiled, rule),
    ensures
        tracks_exact(after, rules.push(rule)),
{
    let more = rules.push(rule);
    assert forall|model: Seq<char>| #[trigger] tracks_exact_at(after, more, model) by {
        assert(more.drop_last() =~= rules);
        assert(tracks_exact_at(table, rules, model));
    }
}

proof fn lemma_exact_same(
    table: Map<Seq<char>, CompiledModelRule>,
    before: Seq<ModelRuleSpec>,
    after: Seq<ModelRuleSpec>,
)
    requires
        tracks_exact(table, before),
        after.len() >= before.len(),
        forall|j: int| 0 <= j < before.len() ==> after[j] == before[j],
        forall|model: Seq<char>| exact_rule(after, model) == exact_rule(before, model),
    ensures
        tracks_exact(table, after),
{
    assert forall|model: Seq<char>| #[trigger] tracks_exact_at(table, after, model) by {
        assert(tracks_exact_at(table, before, model));
    }
}

proof fn lemma_prefix_same(
    list: Seq<CompiledPrefixRule>,
    before: Seq<ModelRuleSpec>,
    after: Seq<ModelRuleSpec>,
)
    requires
        tracks_prefixes(list, before),
        after.len() >= before.len(),
        forall|j: int| 0 <= j < before.len() ==> after[j] == before[j],
        forall|model: Seq<char>| prefix_rule(after, model) == prefix_rule(before, model),
    ensures
        tracks_prefixes(list, after),
{
    assert forall|model: Seq<char>| #[trigger] tracks_prefix_at(list, after, model) by {
        assert(tracks_prefix_at(list, before, model));
    }
}

proof fn lemma_prefix_step(
    list: Seq<CompiledPrefixRule>,
    rules: Seq<ModelRuleSpec>,
    rule: ModelRuleSpec,
    entry: CompiledPrefixRule,
    at: int,
)
    requires
        longest_first(list),
        tracks_prefixes(list, rules),
        rule.matcher is Prefix,
        entry.prefix@ == rule.matcher.value_text(),
        compiled_from(entry.rule, rule),
        0 <= at <= list.len(),
        forall|j: int| 0 <= j < at ==> (#[trigger] list[j]).prefix@.len() >= entry.prefix@.len(),
        forall|j: int| at <= j < list.len() ==> (#[trigger] list[j]).prefix@.len()
            < entry.prefix@.len(),
    ensures
        longest_first(list.insert(at, entry)),
        tracks_prefixes(list.insert(at, entry), rules.push(rule)),
{
    let more = rules.push(rule);
    let longer = list.insert(at, entry);
    assert(longest_first(longer));
    assert forall|model: Seq<char>| #[trigger] tracks_prefix_at(longer, more, model) by {
        assert(more.drop_last() =~= rules);
        assert(tracks_prefix_at(list, rules, model));
        lemma_first_prefix(list, model);
        assert forall|j: int| 0 <= j < at implies longer[j] == list[j] by {}
        assert forall|j: int| at < j < longer.len() implies longer[j] == list[j - 1] by {}
        assert(longer[at] == entry);
        let old_first = first_prefix(list, model);
        let hit = begins_with(model, entry.prefix@);
        match old_first {
            Some(q) => {
                if q < at {
                    lemma_first_prefix_is(longer, model, q);
                } else if hit {
                    assert forall|j: int| 0 <= j < at implies !begins_with(
                        model,
                        (#[trigger] longer[j]).prefix@,
                    ) by {
                        assert(!begins_with(model, list[j].prefix@));
                    }
                    lemma_first_prefix_is(longer, model, at);
                } else {
                    assert forall|j: int| 0 <= j < q + 1 implies !begins_with(
                        model,
                        (#[trigger] longer[j]).prefix@,
                    ) by {
                        if j < at {
                            assert(!begins_with(model, list[j].prefix@));
                        } else if j > at {
                            assert(!begins_with(model, list[j - 1].prefix@));
                        }
                    }
                    lemma_first_prefix_is(longer, model, q + 1);
                }
            },
            None => {
                assert forall|j: int| 0 <= j < longer.len() && j != at implies !begins_with(
                    model,
                    (#[trigger] longer[j]).prefix@,
                ) by {
                    if j < at {
                        assert(!begins_with(model, list[j].prefix@));
                    } else {
                        assert(!begins_with(model, list[j - 1].prefix@));
                    }
                }
                if hit {
                    lemma_first_prefix_is(longer, model, at);
                } else {
                    lemma_first_prefix(longer, model);
                }
            },
        }
    }
}

proof fn lemma_exact_rule(rules: Seq<ModelRuleSpec>, model: Seq<char>)
    ensures
        match exact_rule(rules, model) {
            Some(i) => 0 <= i < rules.len() && matches_exactly(rules[i], model),
            None => forall|i: int|
                0 <= i < rules.len() ==> !matches_exactly(#[trigger] rules[i], model),
        },
    decreases rules.len(),
{
    if rules.len() > 0 {
        let front = rules.drop_last();
        lemma_exact_rule(front, model);
        if !matches_exactly(rules.last(), model) && exact_rule(front, model) is None {
            assert forall|i: int| 0 <= i < rules.len() implies !matches_exactly(
                #[trigger] rules[i],
                model,
            ) by {
                if i < front.len() {
                    assert(front[i] == rules[i]);
                }
            }
        }
    }
}

proof fn lemma_prefix_rule(rules: Seq<ModelRuleSpec>, model: Seq<char>)
    ensures
        match prefix_rule(rules, model) {
            Some(i) => {
                &&& 0 <= i < rules.len()
                &&& matches_prefix(rules[i], model)
                &&& forall|j: int|
                    0 <= j < rules.len() && matches_prefix(#[trigger] rules[j], model)
                        ==> rules[j].matcher.value_text().len()
                        <= rules[i].matcher.value_text().len()
            },
            None => forall|i: int|
                0 <= i < rules.len() ==> !matches_prefix(#[trigger] rules[i], model),
        },
    decreases rules.len(),
{
    if rules.len() > 0 {
        let front = rules.drop_last();
        lemma_prefix_rule(front, model);
        assert forall|j: int|
            0 <= j < rules.len() && matches_prefix(#[trigger] rules[j], model) && j
                < front.len() implies matches_prefix(front[j], model) by {}
    }
}

/// At most one rule applies to a model, and it matches the model; an exact
/// rule wins over every prefix rule, and among prefix rules none that matches
/// is longer than the one that applies. Where no rule applies, none matches.
pub proof fn most_specific_rule_applies(rules: Seq<ModelRuleSpec>, model: Seq<char>)
    ensures
        match rule_for(rules, model) {
            Some(i) => {
                &&& 0 <= i < rules.len()
                &&& matches_exactly(rules[i], model) || matches_prefix(rules[i], model)
                &&& forall|j: int|
                    0 <= j < rules.len() && matches_exactly(#[trigger] rules[j], model)
                        ==> matches_exactly(rules[i], model)
                &&& matches_prefix(rules[i], model) ==> forall|j: int|
                    0 <= j < rules.len() && matches_prefix(#[trigger] rules[j], model)
                        ==> rules[j].matcher.value_text().len()
                        <= rules[i].matcher.value_text().len()
            },
            None => forall|i: int|
                0 <= i < rules.len() ==> !matches_exactly(#[trigger] rules[i], model)
                    && !matches_prefix(rules[i], model),
        },
{
    lemma_exact_rule(rules, model);
    lemma_prefix_rule(rules, model);
}

/// Immutable, compiled rate-limit policy: a default plus per-tenant
/// overrides, looked up by [`Self::policy_for`].
pub struct CompiledPolicySet {
    default: CompiledTenantPolicy,
    tenants: StringHashMap<CompiledTenantPolicy>,
}

impl CompiledPolicySet {
    /// The policy that applies to `tenant`.
    pub closed spec fn policy(&self, tenant: Seq<char>) -> CompiledTenantPolicy {
        if self.tenants@.contains_key(tenant) {
            self.tenants@[tenant]
        } else {
            self.default
        }
    }

    /// Says of every tenant what `yaml` says.
    pub open spec fn implements(&self, yaml: RateLimitYaml) -> bool {
        forall|tenant: Seq<char>|
            {
                &&& forall|i: int|
                    0 <= i < yaml.tenants@.len() && has_key(#[trigger] yaml.tenants@[i], tenant)
                        ==> (#[trigger] self.policy(tenant)).implements(yaml.tenants@[i])
                &&& (forall|i: int|
                    0 <= i < yaml.tenants@.len() ==> !has_key(
                        #[trigger] yaml.tenants@[i],
                        tenant,
                    )) ==> (#[trigger] self.policy(tenant)).implements(yaml.default_policy)
            }
    }

    /// Validates and compiles a config.
    pub fn compile(yaml: &RateLimitYaml) -> (r: Result<Self, RateLimitConfigError>)
        ensures
            match r {
                Ok(set) => yaml.problem() is None && set.implements(*yaml),
                Err(e) => yaml.problem() == Some(e@),
            },
    {
        if let Err(e) = yaml.validate() {
            return Err(e);
        }
        proof {
            crate::rate_limit::config::accepted_configs_are_in_order(*yaml);
        }
        let default = CompiledTenantPolicy::compile(&yaml.default_policy);
        let mut tenants: StringHashMap<CompiledTenantPolicy> = StringHashMap::new();
        let mut i: usize = 0;
        while i < yaml.tenants.len()
            invariant
                i <= yaml.tenants@.len(),
                config_in_order(*yaml),
                forall|j: int, tenant: Seq<char>|
                    0 <= j < i && has_key(#[trigger] yaml.tenants@[j], tenant)
                        ==> #[trigger] tenants@.contains_key(tenant)
                        && tenants@[tenant].implements(yaml.tenants@[j]),
                forall|tenant: Seq<char>| #[trigger]
                    tenants@.contains_key(tenant) ==> exists|j: int|
                        0 <= j < i && has_key(#[trigger] yaml.tenants@[j], tenant),
            decreases yaml.tenants@.len() - i,
        {
            let spec = &yaml.tenants[i];
            let ghost before = tenants@;
            if let Some(key) = &spec.tenant_key {
                let compiled = CompiledTenantPolicy::compile(spec);
                tenants.insert(key.clone(), compiled);
                proof {
                    assert forall|j: int, tenant: Seq<char>|
                        0 <= j < i + 1 && has_key(
                            #[trigger] yaml.tenants@[j],
                            tenant,
                        ) implies #[trigger] tenants@.contains_key(tenant)
                        && tenants@[tenant].implements(yaml.tenants@[j]) by {
                        if j < i {
                            assert(yaml.tenants@[j].tenant_key->0@
                                != yaml.tenants@[i as int].tenant_key->0@);
                            assert(before.contains_key(tenant));
                        }
                    }
                    assert forall|tenant: Seq<char>| #[trigger]
                        tenants@.contains_key(tenant) implies exists|j: int|
                        0 <= j < i + 1 && has_key(#[trigger] yaml.tenants@[j], tenant) by {
                        if tenant == key@ {
                            assert(has_key(yaml.tenants@[i as int], tenant));
                        } else {
                            assert(before.contains_key(tenant));
                            let j = choose|j: int|
                                0 <= j < i && has_key(#[trigger] yaml.tenants@[j], tenant);
                            assert(has_key(yaml.tenants@[j], tenant));
                        }
                    }
                }
            }
            i += 1;
        }
        Ok(Self { default, tenants })
    }

    /// The policy that applies to `tenant`: its own, or the default.
    pub fn policy_for(&self, tenant: &TenantKey) -> (r: &CompiledTenantPolicy)
        ensures
            *r == self.policy(tenant.key@),
    {
        match self.tenants.get(tenant.key.as_str()) {
            Some(policy) => policy,
            None => &self.default,
        }
    }
}

/// A compiled policy says of a model what the most specific of its rules says: the
/// rule of exactly that model, else the rule of its longest prefix. Where none fits,
/// none applies.
pub proof fn policies_follow_their_rules(
    policy: CompiledTenantPolicy,
    spec: TenantPolicySpec,
    model: Seq<char>,
)
    requires
        policy.implements(spec),
    ensures
        policy.tenant_limits().tokens_per_minute == spec.tokens_per_minute,
        policy.tenant_limits().requests_per_minute == spec.requests_per_minute,
        match policy.lookup(model) {
            Some(rule) => exists|i: int|
                {
                    let own = #[trigger] spec.model_rules@[i];
                    &&& 0 <= i < spec.model_rules@.len()
                    &&& rule.rule_id@ == own.rule_id@
                    &&& rule.limits.tokens_per_minute == own.tokens_per_minute
                    &&& rule.limits.requests_per_minute == own.requests_per_minute
                    &&& match own.matcher {
                        ModelMatcherSpec::Exact { value } => value@ == model,
                        ModelMatcherSpec::Prefix { value } => {
                            &&& value@.is_prefix_of(model)
                            &&& forall|j: int|
                                0 <= j < spec.model_rules@.len() ==> (match (
                                #[trigger] spec.model_rules@[j]).matcher {
                                    ModelMatcherSpec::Exact { value: other } => other@ != model,
                                    ModelMatcherSpec::Prefix { value: other } =>
                                        other@.is_prefix_of(model) ==> other@.len()
                                            <= value@.len(),
                                })
                        },
                    }
                },
            None => forall|j: int|
                0 <= j < spec.model_rules@.len() ==> (match (
                #[trigger] spec.model_rules@[j]).matcher {
                    ModelMatcherSpec::Exact { value } => value@ != model,
                    ModelMatcherSpec::Prefix { value } => !value@.is_prefix_of(model),
                }),
        },
{
    let rules = spec.model_rules@;
    most_specific_rule_applies(rules, model);
    assert forall|j: int| 0 <= j < rules.len() implies (match (#[trigger] rules[j]).matcher {
        ModelMatcherSpec::Exact { value } => matches_exactly(rules[j], model) == (value@ == model)
            && !matches_prefix(rules[j], model),
        ModelMatcherSpec::Prefix { value } => matches_prefix(rules[j], model)
            == value@.is_prefix_of(model) && !matches_exactly(rules[j], model),
    }) by {
        beginnings(model, rules[j].matcher.value_text());
    }
    match rule_for(rules, model) {
        Some(i) => {
            assert(compiled_from(policy.lookup(model)->0, rules[i]));
            let own = rules[i];
        },
        None => {},
    }
}

/// A tenant with a policy of its own has that one; any other has the default.
pub proof fn tenants_have_their_policies(
    set: CompiledPolicySet,
    yaml: RateLimitYaml,
    tenant: Seq<char>,
    i: int,
)
    requires
        set.implements(yaml),
    ensures
        0 <= i < yaml.tenants@.len() && (yaml.tenants@[i].tenant_key matches Some(key) && key@
            == tenant) ==> set.policy(tenant).implements(yaml.tenants@[i]),
        (forall|j: int|
            0 <= j < yaml.tenants@.len() ==> !((#[trigger] yaml.tenants@[j]).tenant_key matches
                Some(key) && key@ == tenant)) ==> set.policy(tenant).implements(
            yaml.default_policy,
        ),
{
    if 0 <= i < yaml.tenants@.len() {
        assert(has_key(yaml.tenants@[i], tenant) == (yaml.tenants@[i].tenant_key matches Some(key)
            && key@ == tenant));
    }
    if forall|j: int|
        0 <= j < yaml.tenants@.len() ==> !((#[trigger] yaml.tenants@[j]).tenant_key matches Some(
            key,
        ) && key@ == tenant) {
        assert forall|j: int| 0 <= j < yaml.tenants@.len() implies !has_key(
            #[trigger] yaml.tenants@[j],
            tenant,
        ) by {}
    }
}

} // verus!
