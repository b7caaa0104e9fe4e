//! [`RateLimitManager`]: the facade that request handling calls into.

use crate::rate_limit::backend::{ReserveOutcome, ReserveRequest};
use crate::rate_limit::config::{RateLimitYaml, TenantPolicySpec};
use crate::rate_limit::local_backend::LocalRateLimitBackend;
use crate::rate_limit::policy::CompiledPolicySet;
use crate::rate_limit::reservation::{BackendCall, ReservationState, SharedReservationHandle};
use crate::text::{begins_with, starts_with};
use vstd::prelude::*;

verus! {

/// Outcome of [`RateLimitManager::reserve`]: bundles admission with the
/// handle, since every admitted caller needs one immediately.
pub enum Reservation {
    Admitted(SharedReservationHandle),
    Denied { retry_after_secs: u64 },
}

/// Call [`Self::reserve`] once per logical request, before any internal
/// retry loop, and resolve the returned handle exactly once at the end.
pub struct RateLimitManager {
    pub backend: LocalRateLimitBackend,
}

/// `spec` is for a tenant that a request header names.
pub open spec fn is_header_tenant(spec: TenantPolicySpec) -> bool {
    spec.tenant_key matches Some(key) && begins_with(key@, "header:"@)
}

/// The first tenant that a request header names.
pub open spec fn first_header_tenant(tenants: Seq<TenantPolicySpec>, from: int) -> Option<int>
    decreases tenants.len() - from,
{
    if from < 0 || from >= tenants.len() {
        None
    } else if is_header_tenant(tenants[from]) {
        Some(from)
    } else {
        first_header_tenant(tenants, from + 1)
    }
}

/// Why startup fails for a tenant that no request can be.
pub open spec fn unreachable_tenant_text(tenant_key: Seq<char>) -> Seq<char> {
    "tenant_rate_limit_config has tenant_key '"@ + tenant_key
        + "' but tenant_resolution.trust_tenant_header is not set -- this override can never match a real request"@
}

/// The path of the policy file: none where rate limiting is disabled, an
/// error where it is enabled without one.
pub fn config_path(enabled: bool, path: Option<&str>) -> (r: Result<Option<&str>, String>)
    ensures
        match r {
            Ok(None) => !enabled,
            Ok(Some(p)) => enabled && path is Some && p@ == path->0@,
            Err(e) => enabled && path is None && e@
                == "tenant_rate_limit_enabled is set but tenant_rate_limit_config is not"@,
        },
{
    if !enabled {
        return Ok(None);
    }
    match path {
        Some(p) => Ok(Some(p)),
        None => Err(
            "tenant_rate_limit_enabled is set but tenant_rate_limit_config is not".to_owned(),
        ),
    }
}

impl RateLimitManager {
    pub fn new(backend: LocalRateLimitBackend) -> (r: Self)
        ensures
            r.backend == backend,
    {
        RateLimitManager { backend }
    }

    /// Builds the manager from a policy file's contents. Tenants that a
    /// header names are unreachable unless that header is trusted, so such a
    /// tenant fails startup then, as any invalid policy does.
    pub fn try_build(yaml: &RateLimitYaml, trust_tenant_header: bool) -> (r: Result<Self, String>)
        ensures
            match r {
                Ok(m) => {
                    &&& trust_tenant_header || first_header_tenant(yaml.tenants@, 0) is None
                    &&& yaml.problem() is None
                    &&& m.backend.wf()
                    &&& m.backend.policy_set().implements(*yaml)
                    &&& m.backend.scopes().dom() =~= Set::empty()
                    &&& m.backend.reservations().dom() =~= Set::empty()
                },
                Err(e) => if !trust_tenant_header && first_header_tenant(
                    yaml.tenants@,
                    0,
                ) is Some {
                    let i = first_header_tenant(yaml.tenants@, 0)->0;
                    e@ == unreachable_tenant_text(yaml.tenants@[i].tenant_key->0@)
                } else {
                    yaml.problem() is Some && e@ == yaml.problem()->0.message()
                },
            },
    {
        if !trust_tenant_header {
            let mut i: usize = 0;
            while i < yaml.tenants.len()
                invariant
                    !trust_tenant_header,
                    i <= yaml.tenants@.len(),
                    first_header_tenant(yaml.tenants@, 0) == first_header_tenant(
                        yaml.tenants@,
                        i as int,
                    ),
                decreases yaml.tenants@.len() - i,
            {
                if let Some(key) = &yaml.tenants[i].tenant_key {
                    if starts_with(key.as_str(), "header:") {
                        let mut e = "tenant_rate_limit_config has tenant_key '".to_owned();
                        e.append(key.as_str());
                        e.append(
                            "' but tenant_resolution.trust_tenant_header is not set -- this override can never match a real request",
                        );
                        return Err(e);
                    }
                }
                i += 1;
            }
        }
        match CompiledPolicySet::compile(yaml) {
            Ok(compiled) => Ok(Self::new(LocalRateLimitBackend::new(compiled))),
            Err(e) => Err(e.message()),
        }
    }

    /// Reserves at the backend; an admitted request gets a handle.
    pub fn reserve(&mut self, request: &ReserveRequest, now: u64) -> (r: Reservation)
        requires
            old(self).backend.wf(),
        ensures
            match r {
                Reservation::Admitted(handle) => {
                    &&& handle.state() == ReservationState::Open
                    &&& handle.charge_id() == request.request_charge_id
                    &&& LocalRateLimitBackend::reserved(
                        old(self).backend,
                        *request,
                        now,
                        final(self).backend,
                        ReserveOutcome::Admitted,
                    )
                },
                Reservation::Denied { retry_after_secs } => LocalRateLimitBackend::reserved(
                    old(self).backend,
                    *request,
                    now,
                    final(self).backend,
                    ReserveOutcome::Denied { retry_after_secs },
                ),
            },
    {
        let outcome: ReserveOutcome = self.backend.reserve(request, now);
        match outcome {
            ReserveOutcome::Admitted => Reservation::Admitted(
                SharedReservationHandle::new(request.request_charge_id),
            ),
            ReserveOutcome::Denied { retry_after_secs } => Reservation::Denied {
                retry_after_secs,
            },
        }
    }

    /// Makes the call that a handle said the backend is owed.
    pub fn resolve(&mut self, call: BackendCall, now: u64)
        requires
            old(self).backend.wf(),
        ensures
            match call {
                BackendCall::SettleSuccess { request_charge_id, usage } =>
                    LocalRateLimitBackend::settled(
                    old(self).backend,
                    request_charge_id,
                    usage,
                    now,
                    final(self).backend,
                ),
                BackendCall::CloseReservedOnly { request_charge_id } =>
                    LocalRateLimitBackend::released(
                    old(self).backend,
                    request_charge_id,
                    final(self).backend,
                ),
                BackendCall::Abandon { request_charge_id } => LocalRateLimitBackend::released(
                    old(self).backend,
                    request_charge_id,
                    final(self).backend,
                ),
            },
    {
        match call {
            BackendCall::SettleSuccess { request_charge_id, usage } => {
                self.backend.settle_success(request_charge_id, usage, now)
            },
            BackendCall::CloseReservedOnly { request_charge_id } => {
                self.backend.close_reserved_only(request_charge_id)
            },
            BackendCall::Abandon { request_charge_id } => self.backend.abandon(request_charge_id),
        }
    }
}

/// Startup fails over the first tenant that only a request header can name, and over
/// none where there is no such tenant.
pub proof fn the_first_header_tenant_is_found(tenants: Seq<TenantPolicySpec>, from: int)
    requires
        0 <= from,
    ensures
        match first_header_tenant(tenants, from) {
            Some(i) => {
                &&& from <= i < tenants.len()
                &&& tenants[i].tenant_key matches Some(key) && key@.len() >= 7 && key@.take(7)
                    == "header:"@
                &&& forall|j: int|
                    from <= j < i ==> ((#[trigger] tenants[j]).tenant_key matches Some(key) ==> !(
                    key@.len() >= 7 && key@.take(7) == "header:"@))
            },
            None => forall|j: int|
                from <= j < tenants.len() ==> ((#[trigger] tenants[j]).tenant_key matches Some(key)
                    ==> !(key@.len() >= 7 && key@.take(7) == "header:"@)),
        },
    decreases tenants.len() - from,
{
    reveal_strlit("header:");
    assert("header:"@.len() == 7);
    if from < tenants.len() {
        if let Some(key) = tenants[from].tenant_key {
            assert(key@.len() >= 7 ==> key@.take(7) =~= key@.subrange(0, 7));
        }
        if !is_header_tenant(tenants[from]) {
            the_first_header_tenant_is_found(tenants, from + 1);
        }
    }
}

/// A policy file is read exactly where limiting is enabled, and has to be named then.
pub proof fn limits_need_a_file(enabled: bool, path: Option<&str>, r: Result<Option<&str>, String>)
    requires
        call_ensures(config_path, (enabled, path), r),
    ensures
        !enabled ==> (r matches Ok(p) && p is None),
        enabled ==> (path matches Some(p) ==> (r matches Ok(Some(q)) && q@ == p@)),
        enabled && path is None ==> r is Err,
{
}

} // verus!
