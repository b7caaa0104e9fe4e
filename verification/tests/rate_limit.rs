use smg::rate_limit::backend::{ReserveOutcome, ReserveRequest, UsageSettlement};
use smg::rate_limit::bucket::{ScopeBucket, TOKEN_UNITS};
use smg::rate_limit::config::{
    ModelMatcherSpec, ModelRuleSpec, RateLimitConfigError, RateLimitYaml, TenantPolicySpec,
};
use smg::rate_limit::counter::{Counter, LAP};
use smg::rate_limit::local_backend::LocalRateLimitBackend;
use smg::rate_limit::manager::{config_path, RateLimitManager, Reservation};
use smg::rate_limit::policy::{CompiledPolicySet, ScopeLimits, TenantKey};
use smg::rate_limit::rejection::{rejection_response, RATE_LIMIT_ERROR_CODE};
use smg::rate_limit::reservation::{BackendCall, SharedReservationHandle};

const SECOND: u64 = 1_000_000_000;
const MILLISECOND: u64 = 1_000_000;

fn limits(tpm: u32, rpm: u32) -> ScopeLimits {
    ScopeLimits { tokens_per_minute: tpm, requests_per_minute: rpm }
}

#[test]
fn admits_within_capacity() {
    let mut bucket = ScopeBucket::new(limits(600, 10), 0);
    bucket.refill(0);
    let dry = bucket.dry_run(100, 1);
    assert!(dry.allowed);
    bucket.debit(100, 1);
    assert_eq!(bucket.available_tokens.units().unwrap(), 500 * TOKEN_UNITS);
    assert_eq!(bucket.available_requests.units().unwrap(), 9 * TOKEN_UNITS);
}

#[test]
fn denies_over_capacity_with_retry_after() {
    let mut bucket = ScopeBucket::new(limits(60, 10), 0);
    bucket.refill(0);
    bucket.debit(60, 0);
    let dry = bucket.dry_run(30, 0);
    assert!(!dry.allowed);
    // 60 tokens/min = 1 token/sec; need 30 more => 30s.
    assert_eq!(dry.retry_after_secs, 30);
}

#[test]
fn ask_above_bucket_capacity_is_never_retryable() {
    let mut bucket = ScopeBucket::new(limits(60, 10), 0);
    bucket.refill(0);
    // 100 tokens can never fit in a 60-token bucket -- refill() clamps
    // at capacity, so no wait time would ever make this admissible.
    let dry = bucket.dry_run(100, 0);
    assert!(!dry.allowed);
    assert_eq!(dry.retry_after_secs, u64::MAX);
}

#[test]
fn refill_restores_capacity_over_time() {
    let mut bucket = ScopeBucket::new(limits(600, 10), 0);
    bucket.refill(0);
    bucket.debit(600, 0);
    bucket.refill(200 * MILLISECOND);
    assert!(bucket.available_tokens.units().unwrap() * 2 > TOKEN_UNITS);
    assert!(bucket.available_tokens.units().unwrap() <= 600 * TOKEN_UNITS);
    // 600 tokens/min = 10 tokens/sec; 0.2s give two.
    assert_eq!(bucket.available_tokens.units().unwrap(), 2 * TOKEN_UNITS);
}

#[test]
fn settle_can_push_negative_debt_but_not_above_capacity() {
    let mut bucket = ScopeBucket::new(limits(600, 10), 0);
    bucket.refill(0);
    bucket.debit(100, 1);
    // Actual usage exceeded the reservation by 50 tokens.
    bucket.settle_tokens(50);
    assert_eq!(bucket.available_tokens.units().unwrap(), 450 * TOKEN_UNITS);

    // A refund (negative delta) is capped at capacity.
    bucket.settle_tokens(-1000);
    assert_eq!(bucket.available_tokens.units().unwrap(), 600 * TOKEN_UNITS);
}

#[test]
fn debt_has_no_floor() {
    let mut counter = Counter::new(5);
    counter.spend(LAP);
    assert_eq!(counter.units(), Some(5 - LAP));
    counter.spend(10);
    assert_eq!(counter.units(), None);
    counter.spend(LAP);
    counter.gain(LAP - 1, 100);
    assert_eq!(counter.units(), None);
    counter.gain(7, 100);
    assert_eq!(counter.units(), Some(1 - LAP));
    counter.gain(LAP - 1, 100);
    assert_eq!(counter.units(), Some(0));
    counter.gain(LAP - 1, 100);
    assert_eq!(counter.units(), Some(100));

    let mut bucket = ScopeBucket::new(limits(600, 10), 0);
    for _ in 0..1000 {
        bucket.settle_tokens(i64::MAX);
    }
    let owed = 1000 * i128::from(i64::MAX) * TOKEN_UNITS;
    assert_eq!(bucket.available_tokens.units(), Some(600 * TOKEN_UNITS - owed));
    assert_eq!(bucket.dry_run(1, 1).retry_after_secs, u64::MAX);
}

#[test]
fn lock_touches_last_touched_ns() {
    let mut bucket = ScopeBucket::new(limits(600, 10), 7 * SECOND);
    assert_eq!(bucket.last_touched_ns(), 0);

    bucket.touch(7 * SECOND + 50 * MILLISECOND);
    let touched = bucket.last_touched_ns();
    assert!(touched > 0);

    bucket.touch(7 * SECOND + 100 * MILLISECOND);
    assert!(bucket.last_touched_ns() > touched);
}

#[test]
fn waiting_as_long_as_told_is_enough() {
    let mut bucket = ScopeBucket::new(limits(100, 10), 0);
    bucket.debit(100, 0);
    let dry = bucket.dry_run(33, 1);
    assert!(!dry.allowed);
    // 33 tokens at 100 a minute take 19.8 s.
    assert_eq!(dry.retry_after_secs, 20);
    bucket.refill(dry.retry_after_secs * SECOND);
    assert!(bucket.dry_run(33, 1).allowed);
}

#[test]
fn refills_in_steps_add_up() {
    let mut once = ScopeBucket::new(limits(7, 3), 0);
    once.debit(7, 3);
    let mut twice = ScopeBucket::new(limits(7, 3), 0);
    twice.debit(7, 3);
    once.refill(11 * MILLISECOND);
    twice.refill(4 * MILLISECOND);
    twice.refill(11 * MILLISECOND);
    assert_eq!(once.available_tokens.units().unwrap(), twice.available_tokens.units().unwrap());
    assert_eq!(once.available_requests.units().unwrap(), twice.available_requests.units().unwrap());
}

fn policy(tenant_key: Option<&str>, tpm: u32, rpm: u32) -> TenantPolicySpec {
    TenantPolicySpec {
        tenant_key: tenant_key.map(str::to_string),
        tokens_per_minute: tpm,
        requests_per_minute: rpm,
        model_rules: Vec::new(),
    }
}

fn rule(rule_id: &str, matcher: ModelMatcherSpec, tpm: u32, rpm: u32) -> ModelRuleSpec {
    ModelRuleSpec {
        rule_id: rule_id.to_string(),
        matcher,
        tokens_per_minute: tpm,
        requests_per_minute: rpm,
    }
}

#[test]
fn valid_yaml_passes() {
    let yaml = RateLimitYaml {
        default_policy: policy(None, 1000, 60),
        tenants: vec![policy(Some("auth:team-red"), 5000, 300)],
    };
    assert!(yaml.validate().is_ok());
}

#[test]
fn default_policy_with_tenant_key_rejected() {
    let yaml = RateLimitYaml {
        default_policy: policy(Some("auth:oops"), 1000, 60),
        tenants: vec![],
    };
    assert_eq!(yaml.validate(), Err(RateLimitConfigError::DefaultPolicyHasTenantKey));
}

#[test]
fn tenant_missing_key_rejected() {
    let yaml = RateLimitYaml {
        default_policy: policy(None, 1000, 60),
        tenants: vec![policy(None, 5000, 300)],
    };
    assert_eq!(yaml.validate(), Err(RateLimitConfigError::MissingTenantKey { index: 0 }));
}

#[test]
fn tenant_empty_or_whitespace_key_rejected() {
    for key in ["", "   "] {
        let yaml = RateLimitYaml {
            default_policy: policy(None, 1000, 60),
            tenants: vec![policy(Some(key), 5000, 300)],
        };
        assert_eq!(yaml.validate(), Err(RateLimitConfigError::MissingTenantKey { index: 0 }));
    }
}

#[test]
fn tenant_padded_key_rejected() {
    for tenant_key in [" auth:team-red", "auth:team-red "] {
        let yaml = RateLimitYaml {
            default_policy: policy(None, 1000, 60),
            tenants: vec![policy(Some(tenant_key), 5000, 300)],
        };
        assert_eq!(
            yaml.validate(),
            Err(RateLimitConfigError::PaddedTenantKey { tenant_key: tenant_key.to_string() })
        );
    }
}

#[test]
fn duplicate_tenant_key_rejected() {
    let yaml = RateLimitYaml {
        default_policy: policy(None, 1000, 60),
        tenants: vec![
            policy(Some("auth:team-red"), 5000, 300),
            policy(Some("auth:team-red"), 1000, 60),
        ],
    };
    assert_eq!(
        yaml.validate(),
        Err(RateLimitConfigError::DuplicateTenantKey { tenant_key: "auth:team-red".to_string() })
    );
}

#[test]
fn zero_tokens_per_minute_rejected() {
    let yaml = RateLimitYaml { default_policy: policy(None, 0, 60), tenants: vec![] };
    assert_eq!(
        yaml.validate(),
        Err(RateLimitConfigError::ZeroTokensPerMinute { label: "default".to_string() })
    );
}

#[test]
fn zero_requests_per_minute_rejected() {
    let yaml = RateLimitYaml { default_policy: policy(None, 1000, 0), tenants: vec![] };
    assert_eq!(
        yaml.validate(),
        Err(RateLimitConfigError::ZeroRequestsPerMinute { label: "default".to_string() })
    );
}

#[test]
fn invalid_rule_id_rejected() {
    let mut default_policy = policy(None, 1000, 60);
    default_policy.model_rules.push(rule(
        "bad id!",
        ModelMatcherSpec::Exact { value: "gpt-4".to_string() },
        100,
        10,
    ));
    let yaml = RateLimitYaml { default_policy, tenants: vec![] };
    assert_eq!(
        yaml.validate(),
        Err(RateLimitConfigError::InvalidRuleId {
            label: "default".to_string(),
            rule_id: "bad id!".to_string()
        })
    );
}

#[test]
fn duplicate_rule_id_rejected() {
    let mut default_policy = policy(None, 1000, 60);
    default_policy.model_rules.push(rule(
        "gpt4",
        ModelMatcherSpec::Exact { value: "gpt-4".to_string() },
        100,
        10,
    ));
    default_policy.model_rules.push(rule(
        "gpt4",
        ModelMatcherSpec::Exact { value: "gpt-4-turbo".to_string() },
        100,
        10,
    ));
    let yaml = RateLimitYaml { default_policy, tenants: vec![] };
    assert_eq!(
        yaml.validate(),
        Err(RateLimitConfigError::DuplicateRuleId {
            label: "default".to_string(),
            rule_id: "gpt4".to_string()
        })
    );
}

#[test]
fn zero_rule_limit_rejected() {
    let mut default_policy = policy(None, 1000, 60);
    default_policy.model_rules.push(rule(
        "gpt4",
        ModelMatcherSpec::Exact { value: "gpt-4".to_string() },
        0,
        10,
    ));
    let yaml = RateLimitYaml { default_policy, tenants: vec![] };
    assert_eq!(
        yaml.validate(),
        Err(RateLimitConfigError::ZeroRuleTokensPerMinute {
            label: "default".to_string(),
            rule_id: "gpt4".to_string()
        })
    );
}

#[test]
fn empty_matcher_value_rejected() {
    let mut default_policy = policy(None, 1000, 60);
    default_policy.model_rules.push(rule(
        "catchall",
        ModelMatcherSpec::Prefix { value: String::new() },
        100,
        10,
    ));
    let yaml = RateLimitYaml { default_policy, tenants: vec![] };
    assert_eq!(
        yaml.validate(),
        Err(RateLimitConfigError::EmptyMatcherValue {
            label: "default".to_string(),
            rule_id: "catchall".to_string()
        })
    );
}

#[test]
fn padded_matcher_value_rejected() {
    for value in [" gpt-4", "gpt-4 "] {
        let mut default_policy = policy(None, 1000, 60);
        default_policy.model_rules.push(rule(
            "gpt4",
            ModelMatcherSpec::Exact { value: value.to_string() },
            100,
            10,
        ));
        let yaml = RateLimitYaml { default_policy, tenants: vec![] };
        assert_eq!(
            yaml.validate(),
            Err(RateLimitConfigError::PaddedMatcherValue {
                label: "default".to_string(),
                rule_id: "gpt4".to_string(),
                value: value.to_string(),
            })
        );
    }
}

#[test]
fn duplicate_exact_matcher_rejected() {
    let mut default_policy = policy(None, 1000, 60);
    default_policy.model_rules.push(rule(
        "gpt4-a",
        ModelMatcherSpec::Exact { value: "gpt-4".to_string() },
        100,
        10,
    ));
    default_policy.model_rules.push(rule(
        "gpt4-b",
        ModelMatcherSpec::Exact { value: "gpt-4".to_string() },
        200,
        20,
    ));
    let yaml = RateLimitYaml { default_policy, tenants: vec![] };
    assert_eq!(
        yaml.validate(),
        Err(RateLimitConfigError::DuplicateMatcher {
            label: "default".to_string(),
            rule_id: "gpt4-b".to_string(),
            other_rule_id: "gpt4-a".to_string()
        })
    );
}

#[test]
fn exact_and_prefix_same_value_both_allowed() {
    let mut default_policy = policy(None, 1000, 60);
    default_policy.model_rules.push(rule(
        "exact",
        ModelMatcherSpec::Exact { value: "gpt-4".to_string() },
        100,
        10,
    ));
    default_policy.model_rules.push(rule(
        "prefix",
        ModelMatcherSpec::Prefix { value: "gpt-4".to_string() },
        200,
        20,
    ));
    let yaml = RateLimitYaml { default_policy, tenants: vec![] };
    assert!(yaml.validate().is_ok());
}

#[test]
fn zero_rule_requests_rejected_with_a_message() {
    let mut tenant = policy(Some("auth:a"), 10, 10);
    tenant.model_rules.push(rule(
        "r",
        ModelMatcherSpec::Prefix { value: "p".to_string() },
        1,
        0,
    ));
    let yaml = RateLimitYaml { default_policy: policy(None, 1, 1), tenants: vec![tenant] };
    let error = yaml.validate().unwrap_err();
    assert_eq!(
        error,
        RateLimitConfigError::ZeroRuleRequestsPerMinute {
            label: "auth:a".to_string(),
            rule_id: "r".to_string()
        }
    );
    assert!(error.message().contains("auth:a"));
    assert!(error.message().contains("requests_per_minute"));
}

fn spec_with_rules(rules: Vec<ModelRuleSpec>) -> TenantPolicySpec {
    TenantPolicySpec {
        tenant_key: None,
        tokens_per_minute: 1000,
        requests_per_minute: 60,
        model_rules: rules,
    }
}

#[test]
fn unknown_tenant_falls_back_to_default() {
    let yaml = RateLimitYaml { default_policy: spec_with_rules(vec![]), tenants: vec![] };
    let compiled = CompiledPolicySet::compile(&yaml).unwrap();
    let policy = compiled.policy_for(&TenantKey::new("anonymous"));
    assert_eq!(policy.limits().tokens_per_minute, 1000);
}

#[test]
fn known_tenant_overrides_default() {
    let mut tenant_spec = spec_with_rules(vec![]);
    tenant_spec.tenant_key = Some("auth:team-red".to_string());
    tenant_spec.tokens_per_minute = 5000;
    let yaml =
        RateLimitYaml { default_policy: spec_with_rules(vec![]), tenants: vec![tenant_spec] };
    let compiled = CompiledPolicySet::compile(&yaml).unwrap();
    let policy = compiled.policy_for(&TenantKey::new("auth:team-red"));
    assert_eq!(policy.limits().tokens_per_minute, 5000);
}

#[test]
fn exact_wins_over_prefix() {
    let spec = spec_with_rules(vec![
        rule("prefix", ModelMatcherSpec::Prefix { value: "gpt-".to_string() }, 100, 10),
        rule("exact", ModelMatcherSpec::Exact { value: "gpt-4".to_string() }, 100, 10),
    ]);
    let yaml = RateLimitYaml { default_policy: spec, tenants: vec![] };
    let compiled = CompiledPolicySet::compile(&yaml).unwrap();
    let policy = compiled.policy_for(&TenantKey::new("anonymous"));
    let matched = policy.matching_rule("gpt-4").unwrap();
    assert_eq!(matched.rule_id, "exact");
}

#[test]
fn longest_prefix_wins() {
    let spec = spec_with_rules(vec![
        rule("short", ModelMatcherSpec::Prefix { value: "gpt-".to_string() }, 100, 10),
        rule("long", ModelMatcherSpec::Prefix { value: "gpt-4-".to_string() }, 100, 10),
    ]);
    let yaml = RateLimitYaml { default_policy: spec, tenants: vec![] };
    let compiled = CompiledPolicySet::compile(&yaml).unwrap();
    let policy = compiled.policy_for(&TenantKey::new("anonymous"));
    let matched = policy.matching_rule("gpt-4-turbo").unwrap();
    assert_eq!(matched.rule_id, "long");
}

#[test]
fn no_match_returns_none() {
    let spec = spec_with_rules(vec![rule(
        "gpt4",
        ModelMatcherSpec::Exact { value: "gpt-4".to_string() },
        100,
        10,
    )]);
    let yaml = RateLimitYaml { default_policy: spec, tenants: vec![] };
    let compiled = CompiledPolicySet::compile(&yaml).unwrap();
    let policy = compiled.policy_for(&TenantKey::new("anonymous"));
    assert!(policy.matching_rule("mistral-7b").is_none());
}

fn policy_set(tpm: u32, rpm: u32) -> CompiledPolicySet {
    let yaml = RateLimitYaml { default_policy: policy(None, tpm, rpm), tenants: Vec::new() };
    CompiledPolicySet::compile(&yaml).unwrap()
}

fn request(tenant: &str, tokens: u32) -> ReserveRequest {
    ReserveRequest {
        request_charge_id: uuid::Uuid::now_v7().as_u128(),
        tenant_key: TenantKey::new(tenant),
        model_id: None,
        estimated_input_tokens: tokens,
    }
}

#[test]
fn reserve_admits_within_budget_and_denies_over() {
    let mut backend = LocalRateLimitBackend::new(policy_set(100, 5));
    let first = backend.reserve(&request("auth:team-red", 60), 0);
    assert_eq!(first, ReserveOutcome::Admitted);

    let second = backend.reserve(&request("auth:team-red", 60), 0);
    assert!(matches!(second, ReserveOutcome::Denied { .. }));
}

#[test]
fn different_tenants_have_independent_budgets() {
    let mut backend = LocalRateLimitBackend::new(policy_set(100, 5));
    assert_eq!(backend.reserve(&request("auth:team-red", 90), 0), ReserveOutcome::Admitted);
    assert_eq!(backend.reserve(&request("auth:team-blue", 90), 0), ReserveOutcome::Admitted);
}

#[test]
fn repeated_reserve_with_same_charge_id_does_not_double_charge() {
    let mut backend = LocalRateLimitBackend::new(policy_set(100, 5));
    let req = request("auth:team-red", 60);
    let charge_id = req.request_charge_id;

    // First attempt debits 60 of 100; the retry (same charge_id)
    // must not debit again.
    assert_eq!(backend.reserve(&req, 0), ReserveOutcome::Admitted);
    assert_eq!(backend.reserve(&req, 0), ReserveOutcome::Admitted);

    // Remaining 40 still fits -- would be denied if the retry had
    // double-debited.
    assert_eq!(backend.reserve(&request("auth:team-red", 40), 0), ReserveOutcome::Admitted);

    // Settlement must see the original bookkeeping, not have it lost
    // to the retry overwriting it.
    backend.settle_success(
        charge_id,
        UsageSettlement { actual_input_tokens: 60, completion_tokens: 0 },
        0,
    );
    // 100 - 60 (settled exactly) - 40 (still open) = 0 remaining.
    assert!(matches!(
        backend.reserve(&request("auth:team-red", 1), 0),
        ReserveOutcome::Denied { .. }
    ));
}

#[test]
fn settle_with_more_usage_than_reserved_creates_debt() {
    let mut backend = LocalRateLimitBackend::new(policy_set(100, 5));
    let req = request("auth:team-red", 50);
    let charge_id = req.request_charge_id;
    assert_eq!(backend.reserve(&req, 0), ReserveOutcome::Admitted);

    backend.settle_success(
        charge_id,
        UsageSettlement { actual_input_tokens: 50, completion_tokens: 60 },
        0,
    );

    // 100 capacity - 50 reserved - 60 extra from settlement = -10 (debt).
    let next = backend.reserve(&request("auth:team-red", 1), 0);
    assert!(matches!(next, ReserveOutcome::Denied { .. }));
}

#[test]
fn settle_refills_before_charging_so_idle_time_cannot_erase_the_charge() {
    let mut backend = LocalRateLimitBackend::new(policy_set(6000, 1000));
    let req = request("auth:team-red", 2);
    let charge_id = req.request_charge_id;
    assert_eq!(backend.reserve(&req, 0), ReserveOutcome::Admitted);

    let later = 600 * MILLISECOND;
    backend.settle_success(
        charge_id,
        UsageSettlement { actual_input_tokens: 2, completion_tokens: 500 },
        later,
    );

    // 6000 - 500 charged = 5500 available.
    assert!(matches!(
        backend.reserve(&request("auth:team-red", 5530), later),
        ReserveOutcome::Denied { .. }
    ));
    assert_eq!(backend.reserve(&request("auth:team-red", 5500), later), ReserveOutcome::Admitted);
}

#[test]
fn close_reserved_only_keeps_the_debit() {
    let mut backend = LocalRateLimitBackend::new(policy_set(100, 5));
    let req = request("auth:team-red", 100);
    let charge_id = req.request_charge_id;
    assert_eq!(backend.reserve(&req, 0), ReserveOutcome::Admitted);

    backend.close_reserved_only(charge_id);

    let next = backend.reserve(&request("auth:team-red", 1), 0);
    assert!(matches!(next, ReserveOutcome::Denied { .. }));
}

#[test]
fn abandon_keeps_the_debit() {
    let mut backend = LocalRateLimitBackend::new(policy_set(100, 5));
    let req = request("auth:team-red", 100);
    let charge_id = req.request_charge_id;
    assert_eq!(backend.reserve(&req, 0), ReserveOutcome::Admitted);

    backend.abandon(charge_id);

    let next = backend.reserve(&request("auth:team-red", 1), 0);
    assert!(matches!(next, ReserveOutcome::Denied { .. }));
}

#[test]
fn model_rule_scope_is_independently_limited() {
    let yaml = RateLimitYaml {
        default_policy: TenantPolicySpec {
            tenant_key: None,
            tokens_per_minute: 10_000,
            requests_per_minute: 1_000,
            model_rules: vec![ModelRuleSpec {
                rule_id: "gpt4".to_string(),
                matcher: ModelMatcherSpec::Exact { value: "gpt-4".to_string() },
                tokens_per_minute: 50,
                requests_per_minute: 5,
            }],
        },
        tenants: Vec::new(),
    };
    let mut backend = LocalRateLimitBackend::new(CompiledPolicySet::compile(&yaml).unwrap());
    let ask = |model: &str, tokens: u32| {
        let mut req = request("auth:team-red", tokens);
        req.model_id = Some(model.to_string());
        req
    };

    assert_eq!(backend.reserve(&ask("gpt-4", 40), 0), ReserveOutcome::Admitted);

    // The tenant-global budget (10,000) has plenty left, but the
    // gpt-4 rule budget (50) is nearly exhausted — the rule scope
    // denies even though the request has a small ask.
    assert!(matches!(backend.reserve(&ask("gpt-4", 20), 0), ReserveOutcome::Denied { .. }));

    // A different model on the same tenant isn't affected by the rule
    // scope, only the tenant-global one, which still has budget.
    assert_eq!(backend.reserve(&ask("mistral-7b", 20), 0), ReserveOutcome::Admitted);
}

#[test]
fn a_denial_says_when_to_come_back() {
    let mut backend = LocalRateLimitBackend::new(policy_set(60, 100));
    assert_eq!(backend.reserve(&request("t", 60), 0), ReserveOutcome::Admitted);
    assert_eq!(
        backend.reserve(&request("t", 10), 0),
        ReserveOutcome::Denied { retry_after_secs: 10 }
    );
    assert_eq!(backend.reserve(&request("t", 10), 10 * SECOND), ReserveOutcome::Admitted);
    assert_eq!(
        backend.reserve(&request("t", 61), 10 * SECOND),
        ReserveOutcome::Denied { retry_after_secs: u64::MAX }
    );
}

fn manager_with_limits(tpm: u32, rpm: u32) -> RateLimitManager {
    RateLimitManager::new(LocalRateLimitBackend::new(policy_set(tpm, rpm)))
}

#[test]
fn admitted_reservation_carries_a_handle() {
    let mut manager = manager_with_limits(100, 5);
    match manager.reserve(&request("auth:team-red", 50), 0) {
        Reservation::Admitted(mut handle) => {
            // The handle is independently usable -- settle through it,
            // not through the backend directly.
            let call = handle.settle_success(UsageSettlement::default()).unwrap();
            manager.resolve(call, 0);
            // Nothing was used, so the whole budget is back.
            assert!(matches!(
                manager.reserve(&request("auth:team-red", 100), 0),
                Reservation::Admitted(_)
            ));
        }
        Reservation::Denied { .. } => panic!("expected admission"),
    }
}

#[test]
fn denied_reservation_carries_no_handle() {
    let mut manager = manager_with_limits(100, 5);
    assert!(matches!(
        manager.reserve(&request("auth:team-red", 200), 0),
        Reservation::Denied { .. }
    ));
}

#[test]
fn disabled_returns_ok_none() {
    assert!(matches!(config_path(false, None), Ok(None)));
}

#[test]
fn enabled_without_config_path_fails_startup() {
    assert!(config_path(true, None).is_err());
    assert_eq!(config_path(true, Some("limits.yaml")), Ok(Some("limits.yaml")));
}

fn number(value: &serde_yaml::Value, key: &str) -> u32 {
    value.get(key).and_then(|v| v.as_u64()).unwrap() as u32
}

fn policy_from(value: &serde_yaml::Value) -> TenantPolicySpec {
    TenantPolicySpec {
        tenant_key: value.get("tenant_key").and_then(|v| v.as_str()).map(str::to_string),
        tokens_per_minute: number(value, "tokens_per_minute"),
        requests_per_minute: number(value, "requests_per_minute"),
        model_rules: Vec::new(),
    }
}

fn yaml_from(text: &str) -> RateLimitYaml {
    let value: serde_yaml::Value = serde_yaml::from_str(text).unwrap();
    RateLimitYaml {
        default_policy: policy_from(value.get("default_policy").unwrap()),
        tenants: value
            .get("tenants")
            .and_then(|v| v.as_sequence())
            .map(|list| list.iter().map(policy_from).collect())
            .unwrap_or_default(),
    }
}

#[test]
fn enabled_with_invalid_policy_fails_startup() {
    // default_policy must not set tenant_key -- this is invalid.
    let yaml = yaml_from(
        "default_policy:\n  tenant_key: auth:oops\n  tokens_per_minute: 1000\n  requests_per_minute: 60\n",
    );
    assert!(RateLimitManager::try_build(&yaml, false).is_err());
}

#[test]
fn enabled_with_valid_policy_succeeds() {
    let yaml =
        yaml_from("default_policy:\n  tokens_per_minute: 1000\n  requests_per_minute: 60\n");
    assert!(RateLimitManager::try_build(&yaml, false).is_ok());
}

#[test]
fn header_tenant_key_without_trust_tenant_header_fails_startup() {
    let yaml = yaml_from(
        "default_policy:\n  tokens_per_minute: 1000\n  requests_per_minute: 60\ntenants:\n  - tenant_key: header:team-red\n    tokens_per_minute: 500\n    requests_per_minute: 30\n",
    );
    // trust_tenant_header is false, so this override could never match a
    // real request.
    assert!(RateLimitManager::try_build(&yaml, false).is_err());
}

#[test]
fn header_tenant_key_with_trust_tenant_header_succeeds() {
    let yaml = yaml_from(
        "default_policy:\n  tokens_per_minute: 1000\n  requests_per_minute: 60\ntenants:\n  - tenant_key: header:team-red\n    tokens_per_minute: 500\n    requests_per_minute: 30\n",
    );
    assert!(RateLimitManager::try_build(&yaml, true).is_ok());
}

#[test]
fn sets_status_code_and_retry_after() {
    let response = rejection_response(30);
    assert_eq!(response.status, 429);
    assert_eq!(response.retry_after.as_deref(), Some("30"));
    assert_eq!(response.code, RATE_LIMIT_ERROR_CODE);
}

#[test]
fn zero_retry_after_omits_header() {
    let response = rejection_response(0);
    assert!(response.retry_after.is_none());
}

/// Counts the calls that reach the backend.
fn count(calls: &mut [usize; 3], call: Option<BackendCall>) {
    match call {
        Some(BackendCall::SettleSuccess { .. }) => calls[0] += 1,
        Some(BackendCall::CloseReservedOnly { .. }) => calls[1] += 1,
        Some(BackendCall::Abandon { .. }) => calls[2] += 1,
        None => {}
    }
}

#[test]
fn settle_then_drop_does_not_also_abandon() {
    let mut calls = [0; 3];
    let mut handle = SharedReservationHandle::new(uuid::Uuid::now_v7().as_u128());
    count(&mut calls, handle.settle_success(UsageSettlement::default()));
    assert_eq!(calls[0], 1);

    count(&mut calls, handle.abandon_if_open());
    assert_eq!(calls, [1, 0, 0]);
}

#[test]
fn drop_without_explicit_settle_abandons_exactly_once() {
    let mut calls = [0; 3];
    let mut handle = SharedReservationHandle::new(uuid::Uuid::now_v7().as_u128());
    count(&mut calls, handle.abandon_if_open());
    count(&mut calls, handle.abandon_if_open());
    assert_eq!(calls, [0, 0, 1]);
}

#[test]
fn double_close_is_a_no_op() {
    let mut calls = [0; 3];
    let mut handle = SharedReservationHandle::new(uuid::Uuid::now_v7().as_u128());
    count(&mut calls, handle.close_reserved_only());
    count(&mut calls, handle.close_reserved_only());
    count(&mut calls, handle.settle_success(UsageSettlement::default()));
    assert_eq!(calls, [0, 1, 0]);
}
