//! Reservation lifecycle: a handle is resolved once, and says which call the
//! backend is owed for it.

use crate::rate_limit::backend::UsageSettlement;
use vstd::prelude::*;

verus! {

#[derive(Debug, Clone, Copy, PartialEq, Eq, Structural)]
pub enum ReservationState {
    Open,
    Settled,
    Closed,
    Abandoned,
}

/// A call that resolves a reservation at its backend.
#[derive(Debug, Clone, Copy, PartialEq, Eq, Structural)]
pub enum BackendCall {
    SettleSuccess { request_charge_id: u128, usage: UsageSettlement },
    CloseReservedOnly { request_charge_id: u128 },
    Abandon { request_charge_id: u128 },
}

/// Handle to an in-flight reservation. Only the first of
/// [`Self::settle_success`], [`Self::close_reserved_only`], or
/// [`Self::abandon_if_open`] takes effect; later calls are no-ops, which
/// makes an abandon on drop safe even after an explicit settle or close.
pub struct SharedReservationHandle {
    state: ReservationState,
    request_charge_id: u128,
}

impl SharedReservationHandle {
    pub closed spec fn state(&self) -> ReservationState {
        self.state
    }

    pub closed spec fn charge_id(&self) -> u128 {
        self.request_charge_id
    }

    pub fn new(request_charge_id: u128) -> (r: Self)
        ensures
            r.state() == ReservationState::Open,
            r.charge_id() == request_charge_id,
    {
        SharedReservationHandle { state: ReservationState::Open, request_charge_id }
    }

    /// Leaves the open state for `target`, if the handle is still open.
    fn try_transition(&mut self, target: ReservationState) -> (r: bool)
        ensures
            r == (old(self).state() == ReservationState::Open),
            final(self).state() == if r {
                target
            } else {
                old(self).state()
            },
            final(self).charge_id() == old(self).charge_id(),
    {
        match self.state {
            ReservationState::Open => {
                self.state = target;
                true
            },
            _ => false,
        }
    }

    /// Settle from final, authoritative usage.
    pub fn settle_success(&mut self, usage: UsageSettlement) -> (r: Option<BackendCall>)
        ensures
            final(self).charge_id() == old(self).charge_id(),
            old(self).state() == ReservationState::Open ==> {
                &&& final(self).state() == ReservationState::Settled
                &&& r == Some(
                    BackendCall::SettleSuccess {
                        request_charge_id: old(self).charge_id(),
                        usage,
                    },
                )
            },
            old(self).state() != ReservationState::Open ==> r is None && *final(self) == *old(
                self,
            ),
    {
        if self.try_transition(ReservationState::Settled) {
            Some(
                BackendCall::SettleSuccess { request_charge_id: self.request_charge_id, usage },
            )
        } else {
            None
        }
    }

    /// Close without settlement (success with no usage, or terminal failure
    /// after admission): keeps the reserved-input debit.
    pub fn close_reserved_only(&mut self) -> (r: Option<BackendCall>)
        ensures
            final(self).charge_id() == old(self).charge_id(),
            old(self).state() == ReservationState::Open ==> {
                &&& final(self).state() == ReservationState::Closed
                &&& r == Some(
                    BackendCall::CloseReservedOnly { request_charge_id: old(self).charge_id() },
                )
            },
            old(self).state() != ReservationState::Open ==> r is None && *final(self) == *old(
                self,
            ),
    {
        if self.try_transition(ReservationState::Closed) {
            Some(BackendCall::CloseReservedOnly { request_charge_id: self.request_charge_id })
        } else {
            None
        }
    }

    /// Abandon on drop/cancel/disconnect before an explicit close: keeps
    /// the debit rather than refunding it.
    pub fn abandon_if_open(&mut self) -> (r: Option<BackendCall>)
        ensures
            final(self).charge_id() == old(self).charge_id(),
            old(self).state() == ReservationState::Open ==> {
                &&& final(self).state() == ReservationState::Abandoned
                &&& r == Some(BackendCall::Abandon { request_charge_id: old(self).charge_id() })
            },
            old(self).state() != ReservationState::Open ==> r is None && *final(self) == *old(
                self,
            ),
    {
        if self.try_transition(ReservationState::Abandoned) {
            Some(BackendCall::Abandon { request_charge_id: self.request_charge_id })
        } else {
            None
        }
    }
}

/// A reservation is resolved once: whichever way it is resolved first, the backend is
/// told under the reservation's own id, and of no later attempt.
pub proof fn reservations_are_resolved_once(
    first: &mut SharedReservationHandle,
    second: &mut SharedReservationHandle,
    usage: UsageSettlement,
    told: Option<BackendCall>,
    again: Option<BackendCall>,
)
    requires
        *final(first) == *old(second),
        call_ensures(SharedReservationHandle::settle_success, (first, usage), told)
            || call_ensures(SharedReservationHandle::close_reserved_only, (first,), told)
            || call_ensures(SharedReservationHandle::abandon_if_open, (first,), told),
        call_ensures(SharedReservationHandle::settle_success, (second, usage), again)
            || call_ensures(SharedReservationHandle::close_reserved_only, (second,), again)
            || call_ensures(SharedReservationHandle::abandon_if_open, (second,), again),
    ensures
        again is None,
        final(second).charge_id() == old(first).charge_id(),
        told is Some <==> old(first).state() is Open,
        told matches Some(BackendCall::SettleSuccess { request_charge_id, usage: u })
            ==> request_charge_id == old(first).charge_id() && u == usage && final(first).state()
            is Settled,
        told matches Some(BackendCall::CloseReservedOnly { request_charge_id })
            ==> request_charge_id == old(first).charge_id() && final(first).state() is Closed,
        told matches Some(BackendCall::Abandon { request_charge_id }) ==> request_charge_id == old(
            first,
        ).charge_id() && final(first).state() is Abandoned,
{
}

/// Each way of resolving an open reservation is told as what it is.
pub proof fn resolutions_are_told_apart(
    a: &mut SharedReservationHandle,
    b: &mut SharedReservationHandle,
    c: &mut SharedReservationHandle,
    usage: UsageSettlement,
    settled: Option<BackendCall>,
    closed: Option<BackendCall>,
    abandoned: Option<BackendCall>,
)
    requires
        old(a).state() is Open,
        old(b).state() is Open,
        old(c).state() is Open,
        call_ensures(SharedReservationHandle::settle_success, (a, usage), settled),
        call_ensures(SharedReservationHandle::close_reserved_only, (b,), closed),
        call_ensures(SharedReservationHandle::abandon_if_open, (c,), abandoned),
    ensures
        settled matches Some(call) && call is SettleSuccess,
        closed matches Some(call) && call is CloseReservedOnly,
        abandoned matches Some(call) && call is Abandon,
{
}

} // verus!
