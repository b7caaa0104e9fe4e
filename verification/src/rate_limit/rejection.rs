//! The answer to a request that the tenant's rate limit denies.

use crate::text::{decimal, decimal_round_trip, decimal_text, unsigned_value};
use vstd::prelude::*;

verus! {

pub const RATE_LIMIT_ERROR_CODE: &'static str = "tenant_rate_limit_exceeded";

pub const TOO_MANY_REQUESTS: u16 = 429;

/// A denial: its status, error code and message, and the value of its
/// `Retry-After` header, if it has one.
pub struct Rejection {
    pub status: u16,
    pub code: String,
    pub message: String,
    pub retry_after: Option<String>,
}

/// `retry_after_secs` of `0` omits the `Retry-After` header (nothing to
/// wait for is a caller bug, not a real rejection state).
pub fn rejection_response(retry_after_secs: u64) -> (r: Rejection)
    ensures
        r.status == 429,
        r.code@ == "tenant_rate_limit_exceeded"@,
        r.message@ == "Tenant rate limit exceeded for this request"@,
        match r.retry_after {
            Some(v) => retry_after_secs > 0 && v@ == decimal_text(retry_after_secs as nat),
            None => retry_after_secs == 0,
        },
{
    Rejection {
        status: TOO_MANY_REQUESTS,
        code: RATE_LIMIT_ERROR_CODE.to_owned(),
        message: "Tenant rate limit exceeded for this request".to_owned(),
        retry_after: if retry_after_secs > 0 {
            Some(decimal(retry_after_secs as u128))
        } else {
            None
        },
    }
}

/// A client that is refused is told to come back after the time it has to wait, and
/// nothing where there is none.
pub proof fn refusals_say_when_to_come_back(secs: u64, r: Rejection)
    requires
        call_ensures(rejection_response, (secs,), r),
    ensures
        r.status == 429,
        secs == 0 ==> r.retry_after is None,
        secs > 0 ==> (r.retry_after matches Some(v) && unsigned_value(v@, u64::MAX as nat) == Some(
            secs as nat,
        )),
{
    decimal_round_trip(secs as nat, u64::MAX as nat);
}

} // verus!
