//! What a rate limit backend is asked and what it answers.

use crate::rate_limit::policy::TenantKey;
use vstd::prelude::*;

verus! {

/// What a reservation attempt asks for. `model_id` is optional; when
/// absent, model-rule scoping is skipped.
#[derive(Debug, Clone)]
pub struct ReserveRequest {
    pub request_charge_id: u128,
    pub tenant_key: TenantKey,
    pub model_id: Option<String>,
    pub estimated_input_tokens: u32,
}

/// Outcome of a `reserve` call.
#[derive(Debug, Clone, Copy, PartialEq, Eq, Structural)]
pub enum ReserveOutcome {
    Admitted,
    Denied { retry_after_secs: u64 },
}

/// Authoritative usage after a successful call, used to true up the
/// reservation via `(actual_input_tokens + completion_tokens) -
/// estimated_input_tokens`.
#[derive(Debug, Clone, Copy, PartialEq, Eq, Structural)]
pub struct UsageSettlement {
    pub actual_input_tokens: u32,
    pub completion_tokens: u32,
}

impl Default for UsageSettlement {
    fn default() -> (r: Self)
        ensures
            r.actual_input_tokens == 0,
            r.completion_tokens == 0,
    {
        UsageSettlement { actual_input_tokens: 0, completion_tokens: 0 }
    }
}

} // verus!
