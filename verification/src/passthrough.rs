//! Passthrough routing policy for single-backend serving.

use vstd::prelude::*;

verus! {

/// Passthrough selection policy for single-backend deployments.
///
/// Forwards every request to the single healthy worker, selecting the first
/// healthy index. It is intended for one-worker gateways where load balancing
/// carries no benefit.
#[derive(Debug)]
pub struct PassthroughPolicy {
    /// Latches once a multi-worker pool was seen, so that it is warned about
    /// at most once instead of on every request.
    warned_multi_worker: bool,
}

impl Default for PassthroughPolicy {
    fn default() -> (r: Self)
        ensures
            !r.has_warned(),
    {
        PassthroughPolicy { warned_multi_worker: false }
    }
}

/// `i` is the first position at which `healthy` holds.
pub open spec fn first_healthy(healthy: Seq<bool>, i: int) -> bool {
    &&& 0 <= i < healthy.len()
    &&& healthy[i]
    &&& forall|j: int| 0 <= j < i ==> !#[trigger] healthy[j]
}

impl PassthroughPolicy {
    pub closed spec fn has_warned(&self) -> bool {
        self.warned_multi_worker
    }

    pub fn new() -> (r: Self)
        ensures
            !r.has_warned(),
    {
        Self::default()
    }

    /// Whether a multi-worker pool was seen.
    pub fn warned(&self) -> (r: bool)
        ensures
            r == self.has_warned(),
    {
        self.warned_multi_worker
    }

    /// The first healthy worker; `healthy` says of each worker whether it is.
    pub fn select_worker(&mut self, healthy: &Vec<bool>) -> (r: Option<usize>)
        ensures
            final(self).has_warned() == (old(self).has_warned() || healthy@.len() > 1),
            match r {
                Some(i) => first_healthy(healthy@, i as int),
                None => forall|i: int| 0 <= i < healthy@.len() ==> !#[trigger] healthy@[i],
            },
    {
        if healthy.len() > 1 {
            self.warned_multi_worker = true;
        }
        let mut i: usize = 0;
        while i < healthy.len()
            invariant
                i <= healthy@.len(),
                self.has_warned() == (old(self).has_warned() || healthy@.len() > 1),
                forall|j: int| 0 <= j < i ==> !#[trigger] healthy@[j],
            decreases healthy@.len() - i,
        {
            if healthy[i] {
                return Some(i);
            }
            i += 1;
        }
        None
    }

    pub fn name(&self) -> (r: &'static str)
        ensures
            r@ == "passthrough"@,
    {
        "passthrough"
    }
}

} // verus!
