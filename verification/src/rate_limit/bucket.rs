//! Per-scope token/request bucket: continuous refill of two independent
//! counters, with a reserve/settle API that allows temporary debt, because a
//! completion can use more tokens than were reserved for it.
//!
//! Counters are kept in fixed point, so that a refill over any number of
//! nanoseconds is exact: one token is [`TOKEN_UNITS`] units, and a limit of `n`
//! per minute refills `n` units per nanosecond.

use crate::rate_limit::counter::{Counter, LAP};
use crate::rate_limit::policy::ScopeLimits;
use vstd::prelude::*;

verus! {

/// Units in one token or request: the nanoseconds of a minute.
pub const TOKEN_UNITS: i128 = 60_000_000_000;

/// Nanoseconds in a second.
pub const NANOS_PER_SEC: i128 = 1_000_000_000;

#[derive(Debug, Clone, Copy, PartialEq, Eq, Structural)]
pub struct ScopeDryRun {
    pub allowed: bool,
    /// Seconds until enough capacity would be available. `0` when
    /// `allowed`.
    pub retry_after_secs: u64,
}

/// A scope's counters, in units, and the times it was last looked at.
#[derive(Debug)]
pub struct ScopeBucket {
    pub limits: ScopeLimits,
    pub available_tokens: Counter,
    pub available_requests: Counter,
    pub last_refill_ns: u64,
    pub created_at_ns: u64,
    /// Nanoseconds since `created_at_ns` as of the last [`Self::touch`].
    pub last_touched_ns: u64,
}

/// What a [`ScopeBucket`] says.
pub struct BucketState {
    pub limits: ScopeLimits,
    pub available_tokens: int,
    pub available_requests: int,
    pub last_refill_ns: u64,
    pub created_at_ns: u64,
    pub last_touched_ns: u64,
}

impl View for ScopeBucket {
    type V = BucketState;

    open spec fn view(&self) -> BucketState {
        BucketState {
            limits: self.limits,
            available_tokens: self.available_tokens@,
            available_requests: self.available_requests@,
            last_refill_ns: self.last_refill_ns,
            created_at_ns: self.created_at_ns,
            last_touched_ns: self.last_touched_ns,
        }
    }
}

/// `n` whole tokens or requests, in units.
pub open spec fn units(n: int) -> int {
    n * TOKEN_UNITS
}

/// The lesser of two numbers.
pub open spec fn lesser(a: int, b: int) -> int {
    if a <= b {
        a
    } else {
        b
    }
}

/// The greater of two numbers.
pub open spec fn greater(a: int, b: int) -> int {
    if a >= b {
        a
    } else {
        b
    }
}

/// Nanoseconds from `before` to `now`, none if `now` is not later.
pub open spec fn elapsed(before: u64, now: u64) -> int {
    greater(0, now - before)
}

/// `available` after `ns` nanoseconds of refill at `per_minute`.
pub open spec fn refilled_units(available: int, per_minute: u32, ns: int) -> int {
    lesser(available + ns * per_minute, units(per_minute as int))
}

/// The least number of whole seconds, at least one, that `deficit` units take
/// to refill at `per_minute`.
pub open spec fn refill_secs(deficit: int, per_minute: u32) -> int {
    greater(1, (deficit + per_minute * NANOS_PER_SEC - 1) / (per_minute * NANOS_PER_SEC))
}

/// Seconds until `needed` of a counter is there.
pub open spec fn wait(available: int, needed: int, per_minute: u32) -> u64 {
    if available >= units(needed) {
        0
    } else if per_minute == 0 {
        u64::MAX
    } else {
        lesser(u64::MAX as int, refill_secs(units(needed) - available, per_minute)) as u64
    }
}

impl BucketState {
    /// Counters are not above their capacity; they may be in debt.
    pub open spec fn wf(&self) -> bool {
        &&& self.available_tokens <= units(self.limits.tokens_per_minute as int)
        &&& self.available_requests <= units(self.limits.requests_per_minute as int)
    }

    /// A full bucket, created at `now`.
    pub open spec fn full(limits: ScopeLimits, now: u64) -> Self {
        BucketState {
            limits,
            available_tokens: units(limits.tokens_per_minute as int),
            available_requests: units(limits.requests_per_minute as int),
            last_refill_ns: now,
            created_at_ns: now,
            last_touched_ns: 0,
        }
    }

    /// The bucket after a refill at `now`.
    pub open spec fn refilled(self, now: u64) -> Self {
        let ns = elapsed(self.last_refill_ns, now);
        BucketState {
            available_tokens: refilled_units(
                self.available_tokens,
                self.limits.tokens_per_minute,
                ns,
            ),
            available_requests: refilled_units(
                self.available_requests,
                self.limits.requests_per_minute,
                ns,
            ),
            last_refill_ns: now,
            ..self
        }
    }

    /// The bucket after it was looked at, at `now`.
    pub open spec fn touched(self, now: u64) -> Self {
        BucketState { last_touched_ns: elapsed(self.created_at_ns, now) as u64, ..self }
    }

    /// The bucket has `tokens` and `requests`.
    pub open spec fn admits(self, tokens: u32, requests: u32) -> bool {
        self.available_tokens >= units(tokens as int) && self.available_requests >= units(
            requests as int,
        )
    }

    /// Whether `tokens` and `requests` would be admitted, and if not, when.
    pub open spec fn verdict(self, tokens: u32, requests: u32) -> ScopeDryRun {
        if self.admits(tokens, requests) {
            ScopeDryRun { allowed: true, retry_after_secs: 0 }
        } else if tokens > self.limits.tokens_per_minute || requests
            > self.limits.requests_per_minute {
            ScopeDryRun { allowed: false, retry_after_secs: u64::MAX }
        } else {
            ScopeDryRun {
                allowed: false,
                retry_after_secs: greater(
                    wait(
                        self.available_tokens,
                        tokens as int,
                        self.limits.tokens_per_minute,
                    ) as int,
                    wait(
                        self.available_requests,
                        requests as int,
                        self.limits.requests_per_minute,
                    ) as int,
                ) as u64,
            }
        }
    }

    /// The bucket without `tokens` and `requests`.
    pub open spec fn debited(self, tokens: u32, requests: u32) -> Self {
        BucketState {
            available_tokens: self.available_tokens - units(tokens as int),
            available_requests: self.available_requests - units(requests as int),
            ..self
        }
    }

    /// The bucket with `delta` tokens more spent than were reserved.
    pub open spec fn settled(self, delta: i64) -> Self {
        BucketState {
            available_tokens: lesser(
                self.available_tokens - units(delta as int),
                units(self.limits.tokens_per_minute as int),
            ),
            ..self
        }
    }
}

impl ScopeBucket {
    /// Counters are not above their capacity; they may be in debt.
    pub open spec fn wf(&self) -> bool {
        &&& self.available_tokens.wf()
        &&& self.available_requests.wf()
        &&& self@.wf()
    }

    pub fn new(limits: ScopeLimits, now: u64) -> (r: Self)
        ensures
            r@ == BucketState::full(limits, now),
            r.wf(),
    {
        ScopeBucket {
            limits,
            available_tokens: Counter::new(limits.tokens_per_minute as i128 * TOKEN_UNITS),
            available_requests: Counter::new(limits.requests_per_minute as i128 * TOKEN_UNITS),
            last_refill_ns: now,
            created_at_ns: now,
            last_touched_ns: 0,
        }
    }

    /// Note that the bucket was looked at.
    pub fn touch(&mut self, now: u64)
        requires
            old(self).wf(),
        ensures
            final(self)@ == old(self)@.touched(now),
            final(self).wf(),
    {
        self.last_touched_ns = now.saturating_sub(self.created_at_ns);
    }

    /// Nanoseconds since its creation as of the last [`Self::touch`].
    pub fn last_touched_ns(&self) -> (r: u64)
        ensures
            r == self@.last_touched_ns,
    {
        self.last_touched_ns
    }

    /// Refill both counters based on elapsed time since the last refill.
    /// Must be called before `dry_run`/`debit`.
    pub fn refill(&mut self, now: u64)
        requires
            old(self).wf(),
        ensures
            final(self)@ == old(self)@.refilled(now),
            final(self).wf(),
    {
        let ns: u64 = now.saturating_sub(self.last_refill_ns);
        let tokens: u32 = self.limits.tokens_per_minute;
        let requests: u32 = self.limits.requests_per_minute;
        proof {
            lemma_refill_fits(ns, tokens);
            lemma_refill_fits(ns, requests);
        }
        self.available_tokens.gain(ns as i128 * tokens as i128, tokens as i128 * TOKEN_UNITS);
        self.available_requests.gain(ns as i128 * requests as i128, requests as i128 * TOKEN_UNITS);
        self.last_refill_ns = now;
    }

    /// Non-mutating: would `tokens`/`requests` be admitted right now?
    pub fn dry_run(&self, tokens: u32, requests: u32) -> (r: ScopeDryRun)
        requires
            self.wf(),
        ensures
            r == self@.verdict(tokens, requests),
    {
        let token_wait: u64 = Self::wait_secs(
            &self.available_tokens,
            tokens,
            self.limits.tokens_per_minute,
        );
        let request_wait: u64 = Self::wait_secs(
            &self.available_requests,
            requests,
            self.limits.requests_per_minute,
        );
        if token_wait == 0 && request_wait == 0 {
            return ScopeDryRun { allowed: true, retry_after_secs: 0 };
        }
        if tokens > self.limits.tokens_per_minute || requests > self.limits.requests_per_minute {
            // refill() clamps at capacity, so an ask above it can never
            // become admissible no matter how long the caller waits.
            return ScopeDryRun { allowed: false, retry_after_secs: u64::MAX };
        }
        ScopeDryRun {
            allowed: false,
            retry_after_secs: if token_wait >= request_wait {
                token_wait
            } else {
                request_wait
            },
        }
    }

    fn wait_secs(available: &Counter, needed: u32, per_minute: u32) -> (secs: u64)
        requires
            available.wf(),
        ensures
            secs == wait(available@, needed as int, per_minute),
            secs == 0 <==> available@ >= units(needed as int),
    {
        let wanted: i128 = needed as i128 * TOKEN_UNITS;
        let per_sec: i128 = per_minute as i128 * NANOS_PER_SEC;
        let level: i128 = match available.units() {
            Some(level) => level,
            None => {
                proof {
                    if per_minute > 0 {
                        lemma_long_wait(wanted - available@, per_sec as int);
                    }
                }
                return u64::MAX;
            },
        };
        if level >= wanted {
            return 0;
        }
        if per_minute == 0 {
            return u64::MAX;
        }
        let deficit: i128 = wanted - level;
        let secs: i128 = (deficit + per_sec - 1) / per_sec;
        proof {
            let a = deficit + per_sec - 1;
            assert(a / per_sec as int <= a && 0 <= a / per_sec as int) by (nonlinear_arith)
                requires
                    a >= 0,
                    per_sec >= 1,
            ;
        }
        if secs >= u64::MAX as i128 {
            u64::MAX
        } else if secs < 1 {
            1
        } else {
            secs as u64
        }
    }

    /// Caller must have already confirmed admission via `dry_run`.
    pub fn debit(&mut self, tokens: u32, requests: u32)
        requires
            old(self).wf(),
        ensures
            final(self)@ == old(self)@.debited(tokens, requests),
            final(self).wf(),
    {
        self.available_tokens.spend(tokens as i128 * TOKEN_UNITS);
        self.available_requests.spend(requests as i128 * TOKEN_UNITS);
    }

    /// Signed delta to the token counter only; requests aren't trued up.
    /// Can push tokens negative (debt) but never above capacity.
    pub fn settle_tokens(&mut self, delta: i64)
        requires
            old(self).wf(),
        ensures
            final(self)@ == old(self)@.settled(delta),
            final(self).wf(),
    {
        if delta >= 0 {
            self.available_tokens.spend(delta as i128 * TOKEN_UNITS);
        } else {
            let capacity: i128 = self.limits.tokens_per_minute as i128 * TOKEN_UNITS;
            self.available_tokens.gain(-(delta as i128) * TOKEN_UNITS, capacity);
        }
    }
}

/// A refill is less than a lap.
proof fn lemma_refill_fits(ns: u64, per_minute: u32)
    ensures
        0 <= ns * per_minute < LAP,
{
    assert(0 <= ns * per_minute <= u64::MAX * u32::MAX) by (nonlinear_arith)
        requires
            0 <= ns <= u64::MAX,
            0 <= per_minute <= u32::MAX,
    ;
}

/// A lap of debt takes longer than can be said.
proof fn lemma_long_wait(deficit: int, per_sec: int)
    requires
        deficit >= LAP,
        0 < per_sec <= u32::MAX * NANOS_PER_SEC,
    ensures
        (deficit + per_sec - 1) / per_sec >= u64::MAX,
{
    let a = deficit + per_sec - 1;
    assert(u64::MAX * per_sec <= a) by (nonlinear_arith)
        requires
            a >= LAP,
            0 < per_sec <= u32::MAX * NANOS_PER_SEC,
            NANOS_PER_SEC == 1_000_000_000,
            LAP == 0x4000_0000_0000_0000_0000_0000_0000_0000,
    ;
    assert(a / per_sec >= u64::MAX) by (nonlinear_arith)
        requires
            u64::MAX * per_sec <= a,
            per_sec > 0,
    ;
}

/// Waiting as long as a denial says is enough: where the wait is not endless,
/// a bucket refilled that much later admits what was denied.
pub proof fn waiting_suffices(b: BucketState, tokens: u32, requests: u32, now: u64, later: u64)
    requires
        b.wf(),
        b.last_refill_ns == now,
        b.verdict(tokens, requests).retry_after_secs < u64::MAX,
        later >= now + b.verdict(tokens, requests).retry_after_secs * NANOS_PER_SEC,
    ensures
        b.refilled(later).admits(tokens, requests),
{
    let secs = b.verdict(tokens, requests).retry_after_secs as int;
    let ns = later - now;
    if b.admits(tokens, requests) {
        lemma_refill_suffices(
            b.available_tokens,
            tokens as int,
            b.limits.tokens_per_minute,
            0,
            ns,
        );
        lemma_refill_suffices(
            b.available_requests,
            requests as int,
            b.limits.requests_per_minute,
            0,
            ns,
        );
    } else {
        lemma_refill_suffices(
            b.available_tokens,
            tokens as int,
            b.limits.tokens_per_minute,
            secs,
            ns,
        );
        lemma_refill_suffices(
            b.available_requests,
            requests as int,
            b.limits.requests_per_minute,
            secs,
            ns,
        );
    }
    lemma_refill_range(b.available_tokens, b.limits.tokens_per_minute, ns);
    lemma_refill_range(b.available_requests, b.limits.requests_per_minute, ns);
}

proof fn lemma_refill_range(available: int, per_minute: u32, ns: int)
    requires
        available <= units(per_minute as int),
        0 <= ns <= u64::MAX,
    ensures
        refilled_units(available, per_minute, ns) <= units(per_minute as int),
{
    assert(0 <= ns * per_minute) by (nonlinear_arith)
        requires
            0 <= ns,
            0 <= per_minute,
    ;
}

/// A refill over the seconds of a wait brings what was waited for.
proof fn lemma_refill_suffices(available: int, needed: int, per_minute: u32, secs: int, ns: int)
    requires
        available <= units(per_minute as int),
        0 <= needed,
        needed <= per_minute || available >= units(needed),
        wait(available, needed, per_minute) <= secs < u64::MAX,
        ns >= secs * NANOS_PER_SEC,
    ensures
        refilled_units(available, per_minute, ns) >= units(needed),
{
    assert(0 <= ns * per_minute) by (nonlinear_arith)
        requires
            0 <= ns,
            0 <= per_minute,
    ;
    if available < units(needed) {
        let deficit = units(needed) - available;
        let per_sec = per_minute * NANOS_PER_SEC;
        let q = (deficit + per_sec - 1) / per_sec;
        assert(q * per_sec >= deficit) by {
            vstd::arithmetic::div_mod::lemma_fundamental_div_mod(deficit + per_sec - 1, per_sec);
            assert(per_sec * q == q * per_sec) by (nonlinear_arith);
        }
        assert(secs >= q);
        assert(ns * per_minute >= q * per_sec) by (nonlinear_arith)
            requires
                ns >= secs * NANOS_PER_SEC,
                secs >= q,
                per_sec == per_minute * NANOS_PER_SEC,
                per_minute >= 0,
                NANOS_PER_SEC == 1_000_000_000,
        ;
        assert(units(needed) <= units(per_minute as int)) by (nonlinear_arith)
            requires
                needed <= per_minute,
                units(needed) == needed * TOKEN_UNITS,
                units(per_minute as int) == per_minute * TOKEN_UNITS,
                TOKEN_UNITS == 60_000_000_000,
        ;
    }
}

/// What is denied with an endless wait can never be admitted: it asks for more
/// than the bucket holds when full, or for a counter that never refills.
pub proof fn over_capacity_is_never_admitted(
    b: BucketState,
    tokens: u32,
    requests: u32,
    later: u64,
)
    requires
        b.wf(),
        tokens > b.limits.tokens_per_minute || requests > b.limits.requests_per_minute,
    ensures
        b.verdict(tokens, requests) == (ScopeDryRun { allowed: false, retry_after_secs: u64::MAX }),
        !b.refilled(later).admits(tokens, requests),
{
    let ns = elapsed(b.last_refill_ns, later);
    lemma_refill_range(b.available_tokens, b.limits.tokens_per_minute, ns);
    lemma_refill_range(b.available_requests, b.limits.requests_per_minute, ns);
}

/// Refilling in two steps is refilling once: only the total time counts.
pub proof fn refills_add_up(b: BucketState, t1: u64, t2: u64)
    requires
        b.wf(),
        b.last_refill_ns <= t1 <= t2,
    ensures
        b.refilled(t1).refilled(t2) == b.refilled(t2),
{
    let n1 = t1 - b.last_refill_ns;
    let n2 = t2 - t1;
    lemma_refill_split(b.available_tokens, b.limits.tokens_per_minute, n1, n2);
    lemma_refill_split(b.available_requests, b.limits.requests_per_minute, n1, n2);
    lemma_refill_range(b.available_tokens, b.limits.tokens_per_minute, n1);
    lemma_refill_range(b.available_requests, b.limits.requests_per_minute, n1);
}

proof fn lemma_refill_split(available: int, per_minute: u32, n1: int, n2: int)
    requires
        available <= units(per_minute as int),
        0 <= n1,
        0 <= n2,
    ensures
        refilled_units(refilled_units(available, per_minute, n1), per_minute, n2)
            == refilled_units(available, per_minute, n1 + n2),
{
    assert((n1 + n2) * per_minute == n1 * per_minute + n2 * per_minute) by (nonlinear_arith);
    assert(0 <= n2 * per_minute) by (nonlinear_arith)
        requires
            0 <= n2,
            0 <= per_minute,
    ;
}

/// A refill is proportional to time: as long as a counter does not fill up, it gains
/// in any time the share of its limit that the time is of a minute. It never holds
/// more than its limit, and a minute fills it from empty.
pub proof fn refills_are_proportional(b: BucketState, now: u64)
    requires
        b.wf(),
    ensures
        ({
            let a = b.refilled(now);
            let ns = if now > b.last_refill_ns {
                now - b.last_refill_ns
            } else {
                0
            };
            let tokens = b.limits.tokens_per_minute as int;
            let requests = b.limits.requests_per_minute as int;
            &&& a.limits == b.limits && a.last_refill_ns == now
            &&& a.available_tokens <= tokens * 60_000_000_000
            &&& a.available_requests <= requests * 60_000_000_000
            &&& b.available_tokens <= a.available_tokens
            &&& b.available_requests <= a.available_requests
            &&& a.available_tokens < tokens * 60_000_000_000 ==> a.available_tokens
                - b.available_tokens == ns * tokens
            &&& a.available_requests < requests * 60_000_000_000 ==> a.available_requests
                - b.available_requests == ns * requests
            &&& ns >= 60_000_000_000 && b.available_tokens >= 0 ==> a.available_tokens == tokens
                * 60_000_000_000
            &&& ns >= 60_000_000_000 && b.available_requests >= 0 ==> a.available_requests
                == requests * 60_000_000_000
        }),
{
    let ns = elapsed(b.last_refill_ns, now);
    let tokens = b.limits.tokens_per_minute as int;
    let requests = b.limits.requests_per_minute as int;
    assert(0 <= ns * tokens && 0 <= ns * requests) by (nonlinear_arith)
        requires
            0 <= ns,
            0 <= tokens,
            0 <= requests,
    ;
    if ns >= 60_000_000_000 {
        assert(ns * tokens >= 60_000_000_000 * tokens && ns * requests >= 60_000_000_000
            * requests) by (nonlinear_arith)
            requires
                ns >= 60_000_000_000,
                0 <= tokens,
                0 <= requests,
        ;
    }
}

/// A denial asks for no longer a wait than is needed: a second earlier, what was
/// denied would still be missing.
pub proof fn waiting_is_needed(b: BucketState, tokens: u32, requests: u32, now: u64, later: u64)
    requires
        b.wf(),
        b.last_refill_ns == now,
        1 < b.verdict(tokens, requests).retry_after_secs < u64::MAX,
        now <= later <= now + (b.verdict(tokens, requests).retry_after_secs - 1)
            * 1_000_000_000,
    ensures
        b.refilled(later).available_tokens < tokens * 60_000_000_000 || b.refilled(
            later,
        ).available_requests < requests * 60_000_000_000,
{
    let secs = b.verdict(tokens, requests).retry_after_secs as int;
    let ns = later - now;
    let t = wait(b.available_tokens, tokens as int, b.limits.tokens_per_minute) as int;
    if t == secs {
        lemma_wait_needed(b.available_tokens, tokens as int, b.limits.tokens_per_minute, ns);
    } else {
        lemma_wait_needed(b.available_requests, requests as int, b.limits.requests_per_minute, ns);
    }
}

proof fn lemma_wait_needed(available: int, needed: int, per_minute: u32, ns: int)
    requires
        1 < wait(available, needed, per_minute) < u64::MAX,
        0 <= ns <= (wait(available, needed, per_minute) - 1) * NANOS_PER_SEC,
    ensures
        refilled_units(available, per_minute, ns) < units(needed),
{
    let w = wait(available, needed, per_minute) as int;
    let deficit = units(needed) - available;
    let per_sec = per_minute * NANOS_PER_SEC;
    let a = deficit + per_sec - 1;
    assert(w == a / per_sec);
    assert((w - 1) * per_sec < deficit) by {
        vstd::arithmetic::div_mod::lemma_fundamental_div_mod(a, per_sec);
        assert(per_sec * w == w * per_sec) by (nonlinear_arith);
        assert((w - 1) * per_sec == w * per_sec - per_sec) by (nonlinear_arith);
    }
    assert(ns * per_minute <= (w - 1) * per_sec) by (nonlinear_arith)
        requires
            0 <= ns <= (w - 1) * NANOS_PER_SEC,
            per_sec == per_minute * NANOS_PER_SEC,
            per_minute >= 0,
    ;
}

/// A bucket admits exactly what it has: whole tokens and requests.
pub proof fn admission_needs_both(b: BucketState, tokens: u32, requests: u32)
    ensures
        b.verdict(tokens, requests).allowed <==> b.available_tokens >= tokens * 60_000_000_000
            && b.available_requests >= requests * 60_000_000_000,
        b.verdict(tokens, requests).allowed ==> b.verdict(tokens, requests).retry_after_secs == 0,
        !b.verdict(tokens, requests).allowed ==> b.verdict(tokens, requests).retry_after_secs >= 1,
{
}

/// A fresh bucket is full, and what is taken from it is what is missing.
pub proof fn debits_are_exact(limits: ScopeLimits, now: u64, tokens: u32, requests: u32)
    ensures
        ({
            let b = BucketState::full(limits, now);
            let d = b.debited(tokens, requests);
            &&& b.limits == limits && b.last_refill_ns == now
            &&& b.available_tokens == limits.tokens_per_minute * 60_000_000_000
            &&& b.available_requests == limits.requests_per_minute * 60_000_000_000
            &&& d.available_tokens == b.available_tokens - tokens * 60_000_000_000
            &&& d.available_requests == b.available_requests - requests * 60_000_000_000
        }),
{
}

} // verus!
