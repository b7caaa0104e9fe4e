//! An exact counter that can go into debt without bound.

use vstd::prelude::*;

verus! {

/// Units of debt in one lap.
pub const LAP: i128 = 0x4000_0000_0000_0000_0000_0000_0000_0000;

/// A whole number: what is left over from the laps of debt, and the laps.
#[derive(Debug)]
pub struct Counter {
    level: i128,
    laps: Vec<()>,
}

impl View for Counter {
    type V = int;

    closed spec fn view(&self) -> int {
        self.level - self.laps@.len() * LAP
    }
}

impl Counter {
    /// The number is written in one way only: with laps of debt, there is
    /// nothing left over that could pay for them.
    pub closed spec fn wf(&self) -> bool {
        &&& -LAP < self.level <= LAP
        &&& self.laps@.len() > 0 ==> self.level <= 0
    }

    /// What is less than a lap in debt has no laps.
    proof fn lemma_laps(self)
        requires
            self.wf(),
        ensures
            self@ <= LAP,
            self.laps@.len() == 0 ==> self@ == self.level,
            self.laps@.len() > 0 ==> self@ <= -LAP,
    {
        let n = self.laps@.len() as int;
        if n > 0 {
            assert(n * LAP >= LAP) by (nonlinear_arith)
                requires
                    n >= 1,
                    LAP == 0x4000_0000_0000_0000_0000_0000_0000_0000,
            ;
        } else {
            assert(n * LAP == 0);
        }
    }

    pub fn new(units: i128) -> (r: Self)
        requires
            0 <= units <= LAP,
        ensures
            r.wf(),
            r@ == units,
    {
        let r = Counter { level: units, laps: Vec::new() };
        proof {
            r.lemma_laps();
        }
        r
    }

    /// The number, unless it is a lap or more of debt.
    pub fn units(&self) -> (r: Option<i128>)
        requires
            self.wf(),
        ensures
            r is Some <==> self@ > -LAP,
            r matches Some(v) ==> v == self@,
    {
        proof {
            self.lemma_laps();
        }
        if self.laps.len() == 0 {
            Some(self.level)
        } else {
            None
        }
    }

    /// Counts up by `gain`, but not above `cap`.
    pub fn gain(&mut self, gain: i128, cap: i128)
        requires
            old(self).wf(),
            0 <= gain <= LAP - 1,
            0 <= cap <= LAP,
        ensures
            final(self).wf(),
            final(self)@ == if old(self)@ + gain <= cap {
                old(self)@ + gain
            } else {
                cap as int
            },
    {
        let ghost before = *self;
        proof {
            before.lemma_laps();
        }
        if self.laps.len() == 0 {
            self.level = if self.level <= cap - gain {
                self.level + gain
            } else {
                cap
            };
        } else {
            self.level = self.level + gain;
            if self.level > 0 {
                let _ = self.laps.pop();
                self.level = self.level - LAP;
                proof {
                    let n = before.laps@.len() as int;
                    assert((n - 1) * LAP == n * LAP - LAP) by (nonlinear_arith);
                }
            }
        }
        proof {
            self.lemma_laps();
        }
    }

    /// Counts down by `spent`.
    pub fn spend(&mut self, spent: i128)
        requires
            old(self).wf(),
            0 <= spent <= LAP,
        ensures
            final(self).wf(),
            final(self)@ == old(self)@ - spent,
    {
        let ghost before = *self;
        self.level = self.level - spent;
        if self.level <= -LAP {
            self.laps.push(());
            self.level = self.level + LAP;
            proof {
                let n = before.laps@.len() as int;
                assert((n + 1) * LAP == n * LAP + LAP) by (nonlinear_arith);
            }
        }
    }
}

} // verus!
