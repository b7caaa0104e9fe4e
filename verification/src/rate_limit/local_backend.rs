//! In-memory rate limiting: per-tenant (+ optional per-model-rule)
//! token/request buckets, reserved once per logical request and settled
//! from final usage.

use crate::dash::{
    active_in, active_map_contains, active_map_insert, active_map_new, active_map_remove,
    opt_string_text, scope_map_new, scope_map_or_insert, scopes_in, ActiveMap, ScopeKeyText,
    ScopeMap,
};
use crate::rate_limit::backend::{ReserveOutcome, ReserveRequest, UsageSettlement};
use crate::rate_limit::bucket::{
    elapsed, greater, lesser, units, waiting_suffices, BucketState, ScopeBucket, ScopeDryRun,
};
use crate::rate_limit::policy::{CompiledPolicySet, CompiledTenantPolicy, ScopeLimits};
use vstd::prelude::*;

verus! {

/// Reserves and settles against buckets in memory. Times are nanoseconds on
/// one monotonic clock.
pub struct LocalRateLimitBackend {
    policy: CompiledPolicySet,
    /// Where in `buckets` the bucket of a scope stands.
    index: ScopeMap,
    buckets: Vec<ScopeBucket>,
    active: ActiveMap,
}

/// The scope of all requests of a tenant.
pub open spec fn global_scope(tenant: Seq<char>) -> ScopeKeyText {
    (tenant, None)
}

/// The model rule that applies to a request.
pub open spec fn request_rule(policy: CompiledTenantPolicy, model: Option<String>) -> Option<
    crate::rate_limit::policy::CompiledModelRule,
> {
    match model {
        Some(m) => policy.lookup(m@),
        None => None,
    }
}

/// How much more was used than was reserved.
pub open spec fn settlement_delta(usage: UsageSettlement, reserved: u32) -> i64 {
    (usage.actual_input_tokens + usage.completion_tokens - reserved) as i64
}

/// `list` with a full bucket at its end where `at` is the position behind it.
pub open spec fn with_bucket(
    list: Seq<BucketState>,
    at: int,
    limits: ScopeLimits,
    now: u64,
) -> Seq<BucketState> {
    if at == list.len() {
        list.push(BucketState::full(limits, now))
    } else {
        list
    }
}

/// A bucket made ready for a decision at `now`.
pub open spec fn ready(b: BucketState, now: u64) -> BucketState {
    b.touched(now).refilled(now)
}

impl LocalRateLimitBackend {
    pub closed spec fn policy_set(&self) -> CompiledPolicySet {
        self.policy
    }

    /// The positions of the scopes that have a bucket.
    pub closed spec fn scopes(&self) -> Map<ScopeKeyText, usize> {
        scopes_in(self.index)
    }

    /// The buckets, by position.
    pub closed spec fn bucket_list(&self) -> Seq<BucketState> {
        self.buckets@.map_values(|b: ScopeBucket| b@)
    }

    /// The buckets are in order.
    pub closed spec fn sound(&self) -> bool {
        forall|i: int| 0 <= i < self.buckets@.len() ==> (#[trigger] self.buckets@[i]).wf()
    }

    /// The open reservations: reserved tokens, and the positions of the
    /// buckets that were debited.
    pub closed spec fn reservations(&self) -> Map<u128, (u32, usize, Option<usize>)> {
        active_in(self.active)
    }

    /// The bucket of a scope.
    pub open spec fn bucket(&self, key: ScopeKeyText) -> BucketState {
        self.bucket_list()[self.scopes()[key] as int]
    }

    /// Scopes have buckets of their own, and reservations are against buckets
    /// that exist.
    pub open spec fn wf(&self) -> bool {
        &&& self.sound()
        &&& forall|key: ScopeKeyText| #[trigger]
            self.scopes().dom().contains(key) ==> self.scopes()[key] < self.bucket_list().len()
        &&& forall|a: ScopeKeyText, b: ScopeKeyText|
            #![trigger self.scopes()[a], self.scopes()[b]]
            self.scopes().dom().contains(a) && self.scopes().dom().contains(b) && a != b
                ==> self.scopes()[a] != self.scopes()[b]
        &&& forall|i: int|
            0 <= i < self.bucket_list().len() ==> (#[trigger] self.bucket_list()[i]).wf()
        &&& forall|id: u128| #[trigger]
            self.reservations().dom().contains(id) ==> {
                &&& self.reservations()[id].1 < self.bucket_list().len()
                &&& self.reservations()[id].2 matches Some(r) ==> r < self.bucket_list().len()
                    && r != self.reservations()[id].1
            }
    }

    /// The reservation under `id` is open, and was debited from the bucket at `at`.
    pub open spec fn reserved_at(&self, id: u128, at: int) -> bool {
        &&& self.reservations().dom().contains(id)
        &&& self.reservations()[id].1 == at || (self.reservations()[id].2 matches Some(rule)
            && rule == at)
    }

    pub fn new(policy: CompiledPolicySet) -> (r: Self)
        ensures
            r.wf(),
            r.policy_set() == policy,
            r.scopes() == Map::<ScopeKeyText, usize>::empty(),
            r.bucket_list() == Seq::<BucketState>::empty(),
            r.reservations() == Map::<u128, (u32, usize, Option<usize>)>::empty(),
    {
        let r = LocalRateLimitBackend {
            policy,
            index: scope_map_new(),
            buckets: Vec::new(),
            active: active_map_new(),
        };
        assert(r.scopes() =~= Map::<ScopeKeyText, usize>::empty());
        assert(r.bucket_list() =~= Seq::<BucketState>::empty());
        assert(r.reservations() =~= Map::<u128, (u32, usize, Option<usize>)>::empty());
        r
    }

    /// The position of the bucket of a scope; a full bucket is created where
    /// there is none yet.
    fn bucket_for(
        &mut self,
        tenant: String,
        rule: Option<String>,
        limits: ScopeLimits,
        now: u64,
    ) -> (at: usize)
        requires
            old(self).wf(),
        ensures
            final(self).wf(),
            final(self).policy_set() == old(self).policy_set(),
            final(self).reservations() == old(self).reservations(),
            ({
                let key = (tenant@, opt_string_text(rule));
                &&& at as int == if old(self).scopes().dom().contains(key) {
                    old(self).scopes()[key] as int
                } else {
                    old(self).bucket_list().len() as int
                }
                &&& final(self).scopes() == old(self).scopes().insert(key, at)
                &&& final(self).bucket_list() == with_bucket(
                    old(self).bucket_list(),
                    at as int,
                    limits,
                    now,
                )
                &&& at < final(self).bucket_list().len()
            }),
    {
        let ghost key = (tenant@, opt_string_text(rule));
        let ghost before = *self;
        let next: usize = self.buckets.len();
        let at: usize = scope_map_or_insert(&mut self.index, tenant, rule, next);
        if at == next {
            self.buckets.push(ScopeBucket::new(limits, now));
        }
        proof {
            assert(self.bucket_list() =~= with_bucket(
                before.bucket_list(),
                at as int,
                limits,
                now,
            ));
            assert forall|i: int| 0 <= i < self.bucket_list().len() implies (
            #[trigger] self.bucket_list()[i]).wf() by {
                if i < before.bucket_list().len() {
                    assert(self.bucket_list()[i] == before.bucket_list()[i]);
                }
            }
            assert forall|k: ScopeKeyText| #[trigger]
                self.scopes().dom().contains(k) implies self.scopes()[k]
                < self.bucket_list().len() by {
                if k != key || at != next {
                    assert(before.scopes().dom().contains(k));
                }
            }
            assert forall|a: ScopeKeyText, b: ScopeKeyText|
                #![trigger self.scopes()[a], self.scopes()[b]]
                self.scopes().dom().contains(a) && self.scopes().dom().contains(b) && a
                    != b implies self.scopes()[a] != self.scopes()[b] by {
                if a != key {
                    assert(before.scopes().dom().contains(a));
                    assert(before.scopes()[a] == self.scopes()[a]);
                }
                if b != key {
                    assert(before.scopes().dom().contains(b));
                    assert(before.scopes()[b] == self.scopes()[b]);
                }
            }
        }
        at
    }

    /// Touches and refills the bucket at `at`.
    fn make_ready(&mut self, at: usize, now: u64)
        requires
            old(self).wf(),
            at < old(self).bucket_list().len(),
        ensures
            final(self).wf(),
            final(self).policy_set() == old(self).policy_set(),
            final(self).scopes() == old(self).scopes(),
            final(self).reservations() == old(self).reservations(),
            final(self).bucket_list() == old(self).bucket_list().update(
                at as int,
                ready(old(self).bucket_list()[at as int], now),
            ),
    {
        let ghost before = *self;
        self.buckets[at].touch(now);
        self.buckets[at].refill(now);
        proof {
            assert(self.buckets@ =~= before.buckets@.update(
                at as int,
                self.buckets@[at as int],
            ));
            self.lemma_changed(before, at as int);
        }
    }

    /// Only the bucket at `at` is another one.
    proof fn lemma_changed(self, before: Self, at: int)
        requires
            before.wf(),
            0 <= at < before.buckets@.len(),
            self.policy == before.policy,
            self.index == before.index,
            self.active == before.active,
            self.buckets@.len() == before.buckets@.len(),
            self.buckets@ == before.buckets@.update(at, self.buckets@[at]),
            self.buckets@[at].wf(),
        ensures
            self.wf(),
            self.policy_set() == before.policy_set(),
            self.scopes() == before.scopes(),
            self.reservations() == before.reservations(),
            self.bucket_list() == before.bucket_list().update(at, self.buckets@[at]@),
    {
        assert(self.bucket_list() =~= before.bucket_list().update(at, self.buckets@[at]@));
        assert forall|i: int| 0 <= i < self.buckets@.len() implies (
        #[trigger] self.buckets@[i]).wf() by {
            if i != at {
                assert(self.buckets@[i] == before.buckets@[i]);
            }
        }
        assert forall|i: int| 0 <= i < self.bucket_list().len() implies (
        #[trigger] self.bucket_list()[i]).wf() by {
            if i != at {
                assert(self.bucket_list()[i] == before.bucket_list()[i]);
            } else {
                assert(self.bucket_list()[i] == self.buckets@[at]@);
            }
        }
        assert(self.scopes() == before.scopes());
        assert(self.reservations() == before.reservations());
        assert(self.bucket_list().len() == before.bucket_list().len());
    }

    /// Takes `tokens` and one request from the bucket at `at`.
    fn debit_at(&mut self, at: usize, tokens: u32)
        requires
            old(self).wf(),
            at < old(self).bucket_list().len(),
        ensures
            final(self).wf(),
            final(self).policy_set() == old(self).policy_set(),
            final(self).scopes() == old(self).scopes(),
            final(self).reservations() == old(self).reservations(),
            final(self).bucket_list() == old(self).bucket_list().update(
                at as int,
                old(self).bucket_list()[at as int].debited(tokens, 1),
            ),
    {
        let ghost before = *self;
        self.buckets[at].debit(tokens, 1);
        proof {
            assert(self.buckets@ =~= before.buckets@.update(
                at as int,
                self.buckets@[at as int],
            ));
            self.lemma_changed(before, at as int);
        }
    }

    /// The buckets after room was made for those of a request and they were
    /// made ready at `now`: the tenant's at `g` and, where a rule applies, the
    /// rule's at `r`.
    pub open spec fn prepared(
        &self,
        g: int,
        global: ScopeLimits,
        r: Option<int>,
        rule: ScopeLimits,
        now: u64,
    ) -> Seq<BucketState> {
        let one = with_bucket(self.bucket_list(), g, global, now);
        match r {
            None => one.update(g, ready(one[g], now)),
            Some(r) => {
                let two = with_bucket(one, r, rule, now);
                two.update(g, ready(two[g], now)).update(r, ready(two[r], now))
            },
        }
    }

    /// The position of a scope's bucket, now or once it is created.
    pub open spec fn position(&self, key: ScopeKeyText, next: int) -> int {
        if self.scopes().dom().contains(key) {
            self.scopes()[key] as int
        } else {
            next
        }
    }

    /// What a reservation does: `after` and `outcome` follow from `before`.
    pub open spec fn reserved(
        before: Self,
        request: ReserveRequest,
        now: u64,
        after: Self,
        outcome: ReserveOutcome,
    ) -> bool {
        &&& after.wf()
        &&& after.policy_set() == before.policy_set()
        &&& (before.reservations().dom().contains(request.request_charge_id) ==> {
                &&& outcome == ReserveOutcome::Admitted
                &&& after == before
            })
        &&& (!before.reservations().dom().contains(request.request_charge_id) ==> ({
                let tenant = request.tenant_key.key@;
                let tokens = request.estimated_input_tokens;
                let policy = before.policy_set().policy(tenant);
                let count = before.bucket_list().len() as int;
                let g = before.position(global_scope(tenant), count);
                match request_rule(policy, request.model_id) {
                    None => {
                        let list = before.prepared(
                            g,
                            policy.tenant_limits(),
                            None,
                            policy.tenant_limits(),
                            now,
                        );
                        let verdict = list[g].verdict(tokens, 1);
                        &&& after.scopes() == before.scopes().insert(
                            global_scope(tenant),
                            g as usize,
                        )
                        &&& verdict.allowed ==> {
                            &&& outcome == ReserveOutcome::Admitted
                            &&& after.bucket_list() == list.update(
                                g,
                                list[g].debited(tokens, 1),
                            )
                            &&& after.reservations() == before.reservations().insert(
                                request.request_charge_id,
                                (tokens, g as usize, None),
                            )
                        }
                        &&& !verdict.allowed ==> {
                            &&& outcome == ReserveOutcome::Denied {
                                retry_after_secs: verdict.retry_after_secs,
                            }
                            &&& after.bucket_list() == list
                            &&& after.reservations() == before.reservations()
                        }
                    },
                    Some(rule) => {
                        let rule_scope: ScopeKeyText = (tenant, Some(rule.rule_id@));
                        let at = before.position(rule_scope, if g == count {
                            count + 1
                        } else {
                            count
                        });
                        let list = before.prepared(
                            g,
                            policy.tenant_limits(),
                            Some(at),
                            rule.limits,
                            now,
                        );
                        let v1 = list[g].verdict(tokens, 1);
                        let v2 = list[at].verdict(tokens, 1);
                        &&& after.scopes() == before.scopes().insert(
                            global_scope(tenant),
                            g as usize,
                        ).insert(rule_scope, at as usize)
                        &&& v1.allowed && v2.allowed ==> {
                            &&& outcome == ReserveOutcome::Admitted
                            &&& after.bucket_list() == list.update(
                                g,
                                list[g].debited(tokens, 1),
                            ).update(at, list[at].debited(tokens, 1))
                            &&& after.reservations() == before.reservations().insert(
                                request.request_charge_id,
                                (tokens, g as usize, Some(at as usize)),
                            )
                        }
                        &&& !(v1.allowed && v2.allowed) ==> {
                            &&& outcome == ReserveOutcome::Denied {
                                retry_after_secs: greater(
                                    v1.retry_after_secs as int,
                                    v2.retry_after_secs as int,
                                ) as u64,
                            }
                            &&& after.bucket_list() == list
                            &&& after.reservations() == before.reservations()
                        }
                    },
                }
            }))
    }

    /// Admit a request against every scope it falls under, or deny it.
    ///
    /// Idempotent per `request_charge_id`: a retry reuses the same id and is
    /// not debited twice. A denied request is debited nowhere, and is told the
    /// longest of the waits of the scopes that denied it.
    pub fn reserve(&mut self, request: &ReserveRequest, now: u64) -> (r: ReserveOutcome)
        requires
            old(self).wf(),
        ensures
            Self::reserved(*old(self), *request, now, *final(self), r),
    {
        if active_map_contains(&self.active, request.request_charge_id) {
            return ReserveOutcome::Admitted;
        }
        let ghost start = *self;
        let tokens: u32 = request.estimated_input_tokens;
        let policy = self.policy.policy_for(&request.tenant_key);
        let limits: ScopeLimits = policy.limits();
        let rule: Option<(String, ScopeLimits)> = match &request.model_id {
            Some(model_id) => match policy.matching_rule(model_id.as_str()) {
                Some(rule) => Some((rule.rule_id.clone(), rule.limits)),
                None => None,
            },
            None => None,
        };
        let g: usize = self.bucket_for(request.tenant_key.key.clone(), None, limits, now);
        let ghost one = *self;
        match rule {
            None => {
                self.make_ready(g, now);
                let verdict: ScopeDryRun = self.dry_run_at(g, tokens);
                if !verdict.allowed {
                    return ReserveOutcome::Denied { retry_after_secs: verdict.retry_after_secs };
                }
                self.debit_at(g, tokens);
                let ghost mid = *self;
                active_map_insert(
                    &mut self.active,
                    request.request_charge_id,
                    (tokens, g, None),
                );
                proof {
                    assert forall|id: u128| #[trigger]
                        self.reservations().dom().contains(id) implies {
                        &&& self.reservations()[id].1 < self.bucket_list().len()
                        &&& self.reservations()[id].2 matches Some(r) ==> r
                            < self.bucket_list().len() && r != self.reservations()[id].1
                    } by {
                        if id != request.request_charge_id {
                            assert(mid.reservations().dom().contains(id));
                        }
                    }
                }
            },
            Some((rule_id, rule_limits)) => {
                let at: usize = self.bucket_for(
                    request.tenant_key.key.clone(),
                    Some(rule_id),
                    rule_limits,
                    now,
                );
                let ghost two = *self;
                proof {
                    let ga = global_scope(request.tenant_key.key@);
                    let ra = (request.tenant_key.key@, Some(rule_id@));
                    assert(two.scopes()[ga] == g);
                    assert(two.scopes()[ra] == at);
                    assert(g != at);
                }
                self.make_ready(g, now);
                self.make_ready(at, now);
                let v1: ScopeDryRun = self.dry_run_at(g, tokens);
                let v2: ScopeDryRun = self.dry_run_at(at, tokens);
                if !v1.allowed || !v2.allowed {
                    let retry: u64 = if v1.retry_after_secs >= v2.retry_after_secs {
                        v1.retry_after_secs
                    } else {
                        v2.retry_after_secs
                    };
                    return ReserveOutcome::Denied { retry_after_secs: retry };
                }
                self.debit_at(g, tokens);
                self.debit_at(at, tokens);
                let ghost mid = *self;
                active_map_insert(
                    &mut self.active,
                    request.request_charge_id,
                    (tokens, g, Some(at)),
                );
                proof {
                    assert forall|id: u128| #[trigger]
                        self.reservations().dom().contains(id) implies {
                        &&& self.reservations()[id].1 < self.bucket_list().len()
                        &&& self.reservations()[id].2 matches Some(r) ==> r
                            < self.bucket_list().len() && r != self.reservations()[id].1
                    } by {
                        if id != request.request_charge_id {
                            assert(mid.reservations().dom().contains(id));
                        }
                    }
                }
            },
        }
        ReserveOutcome::Admitted
    }

    fn dry_run_at(&self, at: usize, tokens: u32) -> (v: ScopeDryRun)
        requires
            self.wf(),
            at < self.bucket_list().len(),
        ensures
            v == self.bucket_list()[at as int].verdict(tokens, 1),
    {
        self.buckets[at].dry_run(tokens, 1)
    }

    /// Refills the bucket at `at` and trues it up by `delta` tokens.
    fn settle_at(&mut self, at: usize, delta: i64, now: u64)
        requires
            old(self).wf(),
            at < old(self).bucket_list().len(),
        ensures
            final(self).wf(),
            final(self).policy_set() == old(self).policy_set(),
            final(self).scopes() == old(self).scopes(),
            final(self).reservations() == old(self).reservations(),
            final(self).bucket_list() == old(self).bucket_list().update(
                at as int,
                ready(old(self).bucket_list()[at as int], now).settled(delta),
            ),
    {
        let ghost before = *self;
        self.buckets[at].touch(now);
        // Refill first, or a later deferred refill can overshoot capacity and
        // clamp, silently erasing this delta.
        self.buckets[at].refill(now);
        self.buckets[at].settle_tokens(delta);
        proof {
            assert(self.buckets@ =~= before.buckets@.update(
                at as int,
                self.buckets@[at as int],
            ));
            self.lemma_changed(before, at as int);
        }
    }

    /// Takes a reservation out of the open ones.
    fn release(&mut self, request_charge_id: u128) -> (r: Option<(u32, usize, Option<usize>)>)
        requires
            old(self).wf(),
        ensures
            final(self).wf(),
            final(self).policy_set() == old(self).policy_set(),
            final(self).scopes() == old(self).scopes(),
            final(self).bucket_list() == old(self).bucket_list(),
            final(self).reservations() == old(self).reservations().remove(request_charge_id),
            r == if old(self).reservations().dom().contains(request_charge_id) {
                Some(old(self).reservations()[request_charge_id])
            } else {
                None
            },
    {
        let ghost before = *self;
        let removed = active_map_remove(&mut self.active, request_charge_id);
        proof {
            assert(self.scopes() == before.scopes());
            assert(self.bucket_list() == before.bucket_list());
            assert forall|id: u128| #[trigger] self.reservations().dom().contains(id) implies {
                &&& self.reservations()[id].1 < self.bucket_list().len()
                &&& self.reservations()[id].2 matches Some(r) ==> r < self.bucket_list().len() && r
                    != self.reservations()[id].1
            } by {
                assert(before.reservations().dom().contains(id));
            }
        }
        match removed {
            Some((_, reservation)) => Some(reservation),
            None => None,
        }
    }

    /// What a settlement does: `after` follows from `before`.
    pub open spec fn settled(
        before: Self,
        request_charge_id: u128,
        usage: UsageSettlement,
        now: u64,
        after: Self,
    ) -> bool {
        &&& after.wf()
        &&& after.policy_set() == before.policy_set()
        &&& after.scopes() == before.scopes()
        &&& after.reservations() == before.reservations().remove(request_charge_id)
        &&& after.bucket_list() == if before.reservations().dom().contains(request_charge_id) {
            let (reserved, g, rule) = before.reservations()[request_charge_id];
            let delta = settlement_delta(usage, reserved);
            let list = before.bucket_list();
            let one = list.update(g as int, ready(list[g as int], now).settled(delta));
            match rule {
                None => one,
                Some(at) => one.update(at as int, ready(list[at as int], now).settled(delta)),
            }
        } else {
            before.bucket_list()
        }
    }

    /// What closing or abandoning does: `after` follows from `before`.
    pub open spec fn released(before: Self, request_charge_id: u128, after: Self) -> bool {
        &&& after.wf()
        &&& after.policy_set() == before.policy_set()
        &&& after.scopes() == before.scopes()
        &&& after.bucket_list() == before.bucket_list()
        &&& after.reservations() == before.reservations().remove(request_charge_id)
    }

    /// Settle from final, authoritative usage. A no-op if the reservation was
    /// already settled, closed or abandoned.
    pub fn settle_success(&mut self, request_charge_id: u128, usage: UsageSettlement, now: u64)
        requires
            old(self).wf(),
        ensures
            Self::settled(*old(self), request_charge_id, usage, now, *final(self)),
    {
        let ghost before = *self;
        if let Some((reserved, g, rule)) = self.release(request_charge_id) {
            assert(before.reservations().dom().contains(request_charge_id));
            let delta: i64 = usage.actual_input_tokens as i64 + usage.completion_tokens as i64
                - reserved as i64;
            self.settle_at(g, delta, now);
            if let Some(at) = rule {
                self.settle_at(at, delta, now);
            }
        }
    }

    /// Close without settlement: keeps the reserved-input debit rather than
    /// refunding it. A no-op if the reservation is not open.
    pub fn close_reserved_only(&mut self, request_charge_id: u128)
        requires
            old(self).wf(),
        ensures
            Self::released(*old(self), request_charge_id, *final(self)),
    {
        let _ = self.release(request_charge_id);
    }

    /// Abandon on drop/cancel/disconnect before an explicit close: keeps the
    /// debit, as [`Self::close_reserved_only`] does.
    pub fn abandon(&mut self, request_charge_id: u128)
        requires
            old(self).wf(),
        ensures
            Self::released(*old(self), request_charge_id, *final(self)),
    {
        let _ = self.release(request_charge_id);
    }
}

/// Different tenants never share a bucket: what one reserves leaves the
/// buckets of every other as they were.
pub proof fn tenants_are_independent(
    before: LocalRateLimitBackend,
    request: ReserveRequest,
    now: u64,
    after: LocalRateLimitBackend,
    outcome: ReserveOutcome,
    key: ScopeKeyText,
)
    requires
        before.wf(),
        LocalRateLimitBackend::reserved(before, request, now, after, outcome),
        before.scopes().dom().contains(key),
        key.0 != request.tenant_key.key@,
    ensures
        after.scopes().dom().contains(key),
        after.bucket(key) == before.bucket(key),
{
    let g = global_scope(request.tenant_key.key@);
    let p = before.scopes()[key];
    assert(p < before.bucket_list().len());
    if before.scopes().dom().contains(g) {
        assert(before.scopes()[g] != p);
    }
    let policy = before.policy_set().policy(request.tenant_key.key@);
    if let Some(rule) = request_rule(policy, request.model_id) {
        let r: ScopeKeyText = (request.tenant_key.key@, Some(rule.rule_id@));
        if before.scopes().dom().contains(r) {
            assert(before.scopes()[r] != p);
        }
    }
}

/// A denied request is charged nowhere: every bucket that was there has at
/// least what it had.
pub proof fn denial_charges_nothing(
    before: LocalRateLimitBackend,
    request: ReserveRequest,
    now: u64,
    after: LocalRateLimitBackend,
    retry_after_secs: u64,
    at: int,
)
    requires
        before.wf(),
        LocalRateLimitBackend::reserved(
            before,
            request,
            now,
            after,
            ReserveOutcome::Denied { retry_after_secs },
        ),
        0 <= at < before.bucket_list().len(),
    ensures
        after.reservations() == before.reservations(),
        after.bucket_list()[at].available_tokens >= before.bucket_list()[at].available_tokens,
        after.bucket_list()[at].available_requests >= before.bucket_list()[at].available_requests,
{
    let b = before.bucket_list()[at];
    assert(b.wf());
    let ns = elapsed(b.last_refill_ns, now);
    assert(0 <= ns * b.limits.tokens_per_minute <= u64::MAX * u32::MAX) by (nonlinear_arith)
        requires
            0 <= ns <= u64::MAX,
            0 <= b.limits.tokens_per_minute <= u32::MAX,
    ;
    assert(0 <= ns * b.limits.requests_per_minute <= u64::MAX * u32::MAX) by (nonlinear_arith)
        requires
            0 <= ns <= u64::MAX,
            0 <= b.limits.requests_per_minute <= u32::MAX,
    ;
}

/// Reserving again under the same charge id changes nothing and admits.
pub proof fn repeated_reserve_charges_once(
    first: LocalRateLimitBackend,
    request: ReserveRequest,
    t1: u64,
    second: LocalRateLimitBackend,
    retry: ReserveRequest,
    t2: u64,
    third: LocalRateLimitBackend,
    outcome: ReserveOutcome,
)
    requires
        LocalRateLimitBackend::reserved(first, request, t1, second, ReserveOutcome::Admitted),
        retry.request_charge_id == request.request_charge_id,
        LocalRateLimitBackend::reserved(second, retry, t2, third, outcome),
    ensures
        outcome == ReserveOutcome::Admitted,
        third == second,
{
}

/// A reservation is settled at most once: settling, closing or abandoning it
/// again changes nothing.
pub proof fn settlement_happens_once(
    before: LocalRateLimitBackend,
    id: u128,
    usage: UsageSettlement,
    now: u64,
    between: LocalRateLimitBackend,
    again: UsageSettlement,
    later: u64,
    after: LocalRateLimitBackend,
)
    requires
        LocalRateLimitBackend::settled(before, id, usage, now, between)
            || LocalRateLimitBackend::released(before, id, between),
        LocalRateLimitBackend::settled(between, id, again, later, after)
            || LocalRateLimitBackend::released(between, id, after),
    ensures
        after.bucket_list() == between.bucket_list(),
        after.reservations() == between.reservations(),
{
    assert(between.reservations().remove(id) =~= between.reservations());
}

/// A settlement is exact, whatever the debt: each bucket of an open reservation
/// is refilled and charged what was used beyond the reserved tokens, or given
/// back what was not used, up to its capacity. Requests are only refilled, other
/// buckets stay, and the reservation is no longer open. Where it was not open,
/// nothing changes.
pub proof fn settlement_is_exact(
    before: LocalRateLimitBackend,
    id: u128,
    usage: UsageSettlement,
    now: u64,
    after: LocalRateLimitBackend,
    at: int,
)
    requires
        before.wf(),
        LocalRateLimitBackend::settled(before, id, usage, now, after),
        0 <= at < before.bucket_list().len(),
    ensures
        !after.reservations().dom().contains(id),
        after.bucket_list().len() == before.bucket_list().len(),
        before.reserved_at(id, at) ==> {
            let b = before.bucket_list()[at];
            let ns = elapsed(b.last_refill_ns, now);
            let refilled = lesser(
                b.available_tokens + ns * b.limits.tokens_per_minute,
                units(b.limits.tokens_per_minute as int),
            );
            let beyond = usage.actual_input_tokens + usage.completion_tokens
                - before.reservations()[id].0;
            &&& after.bucket_list()[at].available_tokens == lesser(
                refilled - units(beyond),
                units(b.limits.tokens_per_minute as int),
            )
            &&& after.bucket_list()[at].available_requests == lesser(
                b.available_requests + ns * b.limits.requests_per_minute,
                units(b.limits.requests_per_minute as int),
            )
        },
        !before.reserved_at(id, at) ==> after.bucket_list()[at] == before.bucket_list()[at],
        !before.reservations().dom().contains(id) ==> after.bucket_list() == before.bucket_list()
            && after.reservations() == before.reservations(),
{
    if !before.reservations().dom().contains(id) {
        assert(after.reservations() =~= before.reservations());
    }
}

/// After settlement a bucket has been charged for what was used, whatever was
/// reserved and however deep in debt it is: no more and no less.
pub proof fn settlement_charges_actual_usage(
    b: BucketState,
    reserved: u32,
    usage: UsageSettlement,
)
    requires
        b.wf(),
    ensures
        b.debited(reserved, 1).settled(settlement_delta(usage, reserved)).available_tokens
            == b.available_tokens - units(usage.actual_input_tokens + usage.completion_tokens),
{
}

/// A refund never leaves a bucket above its capacity, and a settlement never
/// touches its request counter.
pub proof fn settlement_keeps_capacity(b: BucketState, delta: i64)
    requires
        b.wf(),
    ensures
        b.settled(delta).wf(),
        b.settled(delta).available_requests == b.available_requests,
{
}

/// Idle time between a settlement and the next decision cannot erase what the
/// settlement charged: a later refill starts from the settled counter.
pub proof fn idle_time_keeps_the_charge(b: BucketState, delta: i64, now: u64, later: u64)
    requires
        b.wf(),
        b.last_refill_ns <= now <= later,
        delta >= 0,
    ensures
        ready(b, now).settled(delta).refilled(later).available_tokens
            <= ready(b, now).available_tokens - units(delta as int) + (later - now)
            * b.limits.tokens_per_minute,
{
}

/// What a bucket holds at `now`, in units, once it was refilled: a new one its whole
/// limit.
pub open spec fn held_tokens(list: Seq<BucketState>, at: int, limits: ScopeLimits, now: u64) -> int {
    let cap = limits.tokens_per_minute * 60_000_000_000;
    if at < list.len() {
        let b = list[at];
        let full = b.limits.tokens_per_minute * 60_000_000_000;
        let ns = if now > b.last_refill_ns {
            now - b.last_refill_ns
        } else {
            0
        };
        let grown = b.available_tokens + ns * b.limits.tokens_per_minute;
        if grown <= full {
            grown
        } else {
            full
        }
    } else {
        cap
    }
}

/// How many requests a bucket holds at `now`, in units, once it was refilled: a new
/// one its whole limit.
pub open spec fn held_requests(
    list: Seq<BucketState>,
    at: int,
    limits: ScopeLimits,
    now: u64,
) -> int {
    let cap = limits.requests_per_minute * 60_000_000_000;
    if at < list.len() {
        let b = list[at];
        let full = b.limits.requests_per_minute * 60_000_000_000;
        let ns = if now > b.last_refill_ns {
            now - b.last_refill_ns
        } else {
            0
        };
        let grown = b.available_requests + ns * b.limits.requests_per_minute;
        if grown <= full {
            grown
        } else {
            full
        }
    } else {
        cap
    }
}

/// The bucket at `at` holds what it held, without `tokens` tokens and one request; and
/// it did hold them.
pub open spec fn is_debited(
    before: Seq<BucketState>,
    after: Seq<BucketState>,
    at: int,
    limits: ScopeLimits,
    tokens: u32,
    now: u64,
) -> bool {
    &&& 0 <= at < after.len()
    &&& after[at].available_tokens == held_tokens(before, at, limits, now) - tokens
        * 60_000_000_000
    &&& after[at].available_requests == held_requests(before, at, limits, now) - 60_000_000_000
    &&& after[at].available_tokens >= 0
    &&& after[at].available_requests >= 0
    &&& at >= before.len() ==> after[at].limits == limits
}

/// Who is admitted pays everywhere: the reservation names the tenant's bucket and,
/// where a model rule applies, the rule's, each of them held the estimated tokens and
/// a request, and each now holds exactly that much less. No other bucket is touched.
pub proof fn admission_is_paid_in_every_scope(
    before: LocalRateLimitBackend,
    request: ReserveRequest,
    now: u64,
    after: LocalRateLimitBackend,
    other: int,
)
    requires
        before.wf(),
        LocalRateLimitBackend::reserved(before, request, now, after, ReserveOutcome::Admitted),
        !before.reservations().dom().contains(request.request_charge_id),
        before.bucket_list().len() + 2 <= usize::MAX,
    ensures
        after.reservations().dom().contains(request.request_charge_id),
        ({
            let tenant = request.tenant_key.key@;
            let policy = before.policy_set().policy(tenant);
            let (tokens, g, rule_at) = after.reservations()[request.request_charge_id];
            let rule = match request.model_id {
                Some(model) => policy.lookup(model@),
                None => None,
            };
            let b0 = before.bucket_list();
            let b1 = after.bucket_list();
            &&& tokens == request.estimated_input_tokens
            &&& after.scopes().dom().contains((tenant, None))
            &&& after.scopes()[(tenant, None)] == g
            &&& is_debited(b0, b1, g as int, policy.tenant_limits(), tokens, now)
            &&& match rule {
                None => rule_at is None,
                Some(rule) => {
                    let key = (tenant, Some(rule.rule_id@));
                    &&& rule_at is Some
                    &&& after.scopes().dom().contains(key)
                    &&& after.scopes()[key] == rule_at->0
                    &&& rule_at->0 != g
                    &&& is_debited(b0, b1, rule_at->0 as int, rule.limits, tokens, now)
                },
            }
            &&& 0 <= other < b0.len() && other != g && (rule_at is None || other
                != rule_at->0) ==> b1[other] == b0[other]
        }),
{
    let tenant = request.tenant_key.key@;
    let policy = before.policy_set().policy(tenant);
    let count = before.bucket_list().len() as int;
    let g = before.position(global_scope(tenant), count);
    let ga = global_scope(tenant);
    if before.scopes().dom().contains(ga) {
        assert(before.scopes()[ga] < count);
    }
    if let Some(rule) = request_rule(policy, request.model_id) {
        let ra: ScopeKeyText = (tenant, Some(rule.rule_id@));
        assert(ra != ga);
        if before.scopes().dom().contains(ra) {
            assert(before.scopes()[ra] < count);
            if before.scopes().dom().contains(ga) {
                assert(before.scopes()[ra] != before.scopes()[ga]);
            }
        }
    }
}

/// Who is denied could not have been admitted: the tenant's bucket or the rule's lacks
/// tokens or a request. Waiting as long as the denial says is enough for both.
pub proof fn denial_has_a_reason(
    before: LocalRateLimitBackend,
    request: ReserveRequest,
    now: u64,
    after: LocalRateLimitBackend,
    retry_after_secs: u64,
    later: u64,
)
    requires
        before.wf(),
        LocalRateLimitBackend::reserved(
            before,
            request,
            now,
            after,
            ReserveOutcome::Denied { retry_after_secs },
        ),
        before.bucket_list().len() + 2 <= usize::MAX,
    ensures
        !after.reservations().dom().contains(request.request_charge_id),
        ({
            let tenant = request.tenant_key.key@;
            let policy = before.policy_set().policy(tenant);
            let rule = match request.model_id {
                Some(model) => policy.lookup(model@),
                None => None,
            };
            let tokens = request.estimated_input_tokens;
            let own = after.bucket((tenant, None));
            let lacks = |b: BucketState|
                b.available_tokens < tokens * 60_000_000_000 || b.available_requests
                    < 60_000_000_000;
            let waited = retry_after_secs < u64::MAX && later >= now + retry_after_secs
                * 1_000_000_000;
            &&& after.scopes().dom().contains((tenant, None))
            &&& match rule {
                None => lacks(own) && (waited ==> own.refilled(later).admits(tokens, 1)),
                Some(rule) => {
                    let key = (tenant, Some(rule.rule_id@));
                    &&& after.scopes().dom().contains(key)
                    &&& lacks(own) || lacks(after.bucket(key))
                    &&& waited ==> own.refilled(later).admits(tokens, 1) && after.bucket(
                        key,
                    ).refilled(later).admits(tokens, 1)
                },
            }
        }),
{
    let tenant = request.tenant_key.key@;
    let policy = before.policy_set().policy(tenant);
    let count = before.bucket_list().len() as int;
    let ga = global_scope(tenant);
    let tokens = request.estimated_input_tokens;
    if before.scopes().dom().contains(ga) {
        assert(before.scopes()[ga] < count);
    }
    let own = after.bucket(ga);
    let waited = retry_after_secs < u64::MAX && later >= now + retry_after_secs * 1_000_000_000;
    assert(after.scopes().dom().contains(ga));
    assert(own.wf()) by {
        assert(after.scopes()[ga] < after.bucket_list().len());
    }
    if let Some(rule) = request_rule(policy, request.model_id) {
        let ra: ScopeKeyText = (tenant, Some(rule.rule_id@));
        assert(ra != ga);
        if before.scopes().dom().contains(ra) {
            assert(before.scopes()[ra] < count);
            if before.scopes().dom().contains(ga) {
                assert(before.scopes()[ra] != before.scopes()[ga]);
            }
        }
        let other = after.bucket(ra);
        assert(other.wf()) by {
            assert(after.scopes()[ra] < after.bucket_list().len());
        }
        assert(own.last_refill_ns == now && other.last_refill_ns == now);
        if waited {
            waiting_suffices(own, tokens, 1, now, later);
            waiting_suffices(other, tokens, 1, now, later);
        }
    } else {
        assert(own.last_refill_ns == now);
        if waited {
            waiting_suffices(own, tokens, 1, now, later);
        }
    }
}

/// The tokens that were admitted for a tenant among the first `n` requests.
pub open spec fn admitted_tokens(
    requests: Seq<ReserveRequest>,
    outcomes: Seq<ReserveOutcome>,
    tenant: Seq<char>,
    n: int,
) -> int
    decreases n,
{
    if n <= 0 {
        0
    } else {
        admitted_tokens(requests, outcomes, tenant, n - 1) + if outcomes[n - 1]
            == ReserveOutcome::Admitted && requests[n - 1].tenant_key.key@ == tenant {
            requests[n - 1].estimated_input_tokens as int
        } else {
            0
        }
    }
}

/// At one moment, a tenant is never admitted more tokens than its limit, whatever
/// models they are for and whatever other tenants ask meanwhile.
pub proof fn tenants_stay_in_their_budget(
    states: Seq<LocalRateLimitBackend>,
    requests: Seq<ReserveRequest>,
    outcomes: Seq<ReserveOutcome>,
    now: u64,
    tenant: Seq<char>,
    limit: u32,
    n: int,
)
    requires
        0 <= n <= requests.len(),
        states.len() == requests.len() + 1,
        outcomes.len() == requests.len(),
        states[0].wf(),
        states[0].policy_set().policy(tenant).tenant_limits().tokens_per_minute == limit,
        states[0].scopes().dom().contains((tenant, None)) ==> states[0].bucket(
            (tenant, None),
        ).limits.tokens_per_minute == limit,
        forall|k: int|
            #![trigger requests[k]]
            0 <= k < requests.len() ==> {
                &&& LocalRateLimitBackend::reserved(
                    states[k],
                    requests[k],
                    now,
                    states[k + 1],
                    outcomes[k],
                )
                &&& !states[k].reservations().dom().contains(requests[k].request_charge_id)
                &&& states[k].bucket_list().len() + 2 <= usize::MAX
            },
    ensures
        admitted_tokens(requests, outcomes, tenant, n) <= limit,
        states[n].wf(),
        states[n].policy_set() == states[0].policy_set(),
        !states[n].scopes().dom().contains((tenant, None)) ==> admitted_tokens(
            requests,
            outcomes,
            tenant,
            n,
        ) == 0,
        states[n].scopes().dom().contains((tenant, None)) ==> {
            let b = states[n].bucket((tenant, None));
            &&& b.limits.tokens_per_minute == limit
            &&& b.last_refill_ns == now ==> b.available_tokens + admitted_tokens(
                requests,
                outcomes,
                tenant,
                n,
            ) * 60_000_000_000 <= limit * 60_000_000_000
            &&& b.last_refill_ns != now ==> admitted_tokens(requests, outcomes, tenant, n) == 0
        },
    decreases n,
{
    let key: ScopeKeyText = (tenant, None);
    if n == 0 {
        if states[0].scopes().dom().contains(key) {
            assert(states[0].scopes()[key] < states[0].bucket_list().len());
            assert(states[0].bucket(key).wf());
        }
    } else {
        tenants_stay_in_their_budget(states, requests, outcomes, now, tenant, limit, n - 1);
        let before = states[n - 1];
        let after = states[n];
        let request = requests[n - 1];
        let sum = admitted_tokens(requests, outcomes, tenant, n - 1);
        assert(LocalRateLimitBackend::reserved(
            before,
            requests[n - 1],
            now,
            states[n - 1 + 1],
            outcomes[n - 1],
        ));
        let count = before.bucket_list().len() as int;
        if request.tenant_key.key@ == tenant {
            let ga = global_scope(tenant);
            assert(ga == key);
            if before.scopes().dom().contains(ga) {
                assert(before.scopes()[ga] < count);
                assert(before.bucket(ga).wf());
            }
            let policy = before.policy_set().policy(tenant);
            if let Some(rule) = request_rule(policy, request.model_id) {
                let ra: ScopeKeyText = (tenant, Some(rule.rule_id@));
                assert(ra != ga);
                if before.scopes().dom().contains(ra) {
                    assert(before.scopes()[ra] < count);
                    if before.scopes().dom().contains(ga) {
                        assert(before.scopes()[ra] != before.scopes()[ga]);
                    }
                }
            }
            let b0 = before.bucket(ga);
            if before.scopes().dom().contains(ga) && b0.last_refill_ns == now {
                assert(elapsed(b0.last_refill_ns, now) * b0.limits.tokens_per_minute == 0)
                    by (nonlinear_arith)
                    requires
                        elapsed(b0.last_refill_ns, now) == 0,
                ;
            }
            assert(after.scopes().dom().contains(ga));
            assert(after.scopes()[ga] < after.bucket_list().len());
            let b1 = after.bucket(ga);
            assert(b1.wf());
            assert(b1.last_refill_ns == now);
            assert(b1.limits.tokens_per_minute == limit);
        } else {
            if before.scopes().dom().contains(key) {
                tenants_are_independent(before, request, now, after, outcomes[n - 1], key);
            } else {
                assert(!after.scopes().dom().contains(key));
            }
        }
    }
}

/// What is reserved is given back or charged once it is known what was used: after a
/// settlement each bucket of the reservation has been charged for the actual usage,
/// apart from refills.
pub proof fn reserving_and_settling_charges_usage(
    start: LocalRateLimitBackend,
    request: ReserveRequest,
    now: u64,
    reserved: LocalRateLimitBackend,
    usage: UsageSettlement,
    settled: LocalRateLimitBackend,
)
    requires
        start.wf(),
        !start.reservations().dom().contains(request.request_charge_id),
        LocalRateLimitBackend::reserved(start, request, now, reserved, ReserveOutcome::Admitted),
        LocalRateLimitBackend::settled(reserved, request.request_charge_id, usage, now, settled),
        start.bucket_list().len() + 2 <= usize::MAX,
    ensures
        ({
            let tenant = request.tenant_key.key@;
            let (_, g, rule_at) = reserved.reservations()[request.request_charge_id];
            let policy = start.policy_set().policy(tenant);
            let used = usage.actual_input_tokens + usage.completion_tokens;
            &&& settled.bucket_list()[g as int].available_tokens == held_tokens(
                start.bucket_list(),
                g as int,
                policy.tenant_limits(),
                now,
            ) - used * 60_000_000_000
            &&& match request.model_id {
                Some(model) => policy.lookup(model@) matches Some(rule) ==> rule_at is Some
                    && settled.bucket_list()[rule_at->0 as int].available_tokens == held_tokens(
                    start.bucket_list(),
                    rule_at->0 as int,
                    rule.limits,
                    now,
                ) - used * 60_000_000_000,
                None => rule_at is None,
            }
            &&& !settled.reservations().dom().contains(request.request_charge_id)
        }),
{
    admission_is_paid_in_every_scope(start, request, now, reserved, 0);
    let (tokens, g, rule_at) = reserved.reservations()[request.request_charge_id];
    assert(reserved.bucket_list()[g as int].wf());
    settlement_is_exact(reserved, request.request_charge_id, usage, now, settled, g as int);
    let b = reserved.bucket_list()[g as int];
    assert(b.last_refill_ns == now);
    assert(elapsed(b.last_refill_ns, now) * b.limits.tokens_per_minute == 0) by (nonlinear_arith)
        requires
            elapsed(b.last_refill_ns, now) == 0,
    ;
    if let Some(at) = rule_at {
        assert(reserved.bucket_list()[at as int].wf());
        settlement_is_exact(reserved, request.request_charge_id, usage, now, settled, at as int);
        let c = reserved.bucket_list()[at as int];
        assert(c.last_refill_ns == now);
        assert(elapsed(c.last_refill_ns, now) * c.limits.tokens_per_minute == 0)
            by (nonlinear_arith)
            requires
                elapsed(c.last_refill_ns, now) == 0,
        ;
    }
}

/// Closing or abandoning a request keeps what it was charged: no bucket changes, and
/// only its own reservation is gone.
pub proof fn closing_keeps_the_charge(
    closed: &mut LocalRateLimitBackend,
    abandoned: &mut LocalRateLimitBackend,
    id: u128,
    other: u128,
    scope: ScopeKeyText,
)
    requires
        call_ensures(LocalRateLimitBackend::close_reserved_only, (closed, id), ()),
        call_ensures(LocalRateLimitBackend::abandon, (abandoned, id), ()),
        other != id,
    ensures
        final(closed).bucket_list() == old(closed).bucket_list(),
        final(closed).bucket(scope) == old(closed).bucket(scope),
        !final(closed).reservations().dom().contains(id),
        final(closed).reservations().dom().contains(other) == old(
            closed,
        ).reservations().dom().contains(other),
        old(closed).reservations().dom().contains(other) ==> final(closed).reservations()[other]
            == old(closed).reservations()[other],
        final(closed).scopes() == old(closed).scopes(),
        final(closed).policy_set() == old(closed).policy_set(),
        final(abandoned).bucket_list() == old(abandoned).bucket_list(),
        final(abandoned).bucket(scope) == old(abandoned).bucket(scope),
        !final(abandoned).reservations().dom().contains(id),
        final(abandoned).scopes() == old(abandoned).scopes(),
        final(abandoned).policy_set() == old(abandoned).policy_set(),
{
}

/// A settlement touches the buckets that the reservation named and no other, and
/// leaves everything else as it was but the reservation itself.
pub proof fn settling_touches_what_was_charged(
    backend: &mut LocalRateLimitBackend,
    id: u128,
    usage: UsageSettlement,
    now: u64,
    at: int,
    other: u128,
)
    requires
        old(backend).wf(),
        call_ensures(LocalRateLimitBackend::settle_success, (backend, id, usage, now), ()),
        other != id,
    ensures
        final(backend).bucket_list().len() == old(backend).bucket_list().len(),
        0 <= at < old(backend).bucket_list().len() && (!old(backend).reservations().dom().contains(
            id,
        ) || (old(backend).reservations()[id].1 != at && old(backend).reservations()[id].2 != Some(
            at as usize,
        ))) ==> final(backend).bucket_list()[at] == old(backend).bucket_list()[at],
        final(backend).scopes() == old(backend).scopes(),
        final(backend).policy_set() == old(backend).policy_set(),
        !final(backend).reservations().dom().contains(id),
        final(backend).reservations().dom().contains(other) == old(
            backend,
        ).reservations().dom().contains(other),
        old(backend).reservations().dom().contains(other) ==> final(backend).reservations()[other]
            == old(backend).reservations()[other],
{
}

} // verus!
