//! Event-loop canary and runtime sampler. Times are nanoseconds.

use crate::text::{decimal, decimal_text};
use vstd::prelude::*;

verus! {

/// Canary sleep interval. Wake drift is measured against this.
pub const CANARY_INTERVAL_NS: u64 = 10_000_000;

/// Canary drift above this counts as an event-loop stall.
pub const STALL_THRESHOLD_NS: u64 = 5_000_000;

/// How often the runtime is sampled.
pub const SAMPLE_INTERVAL_NS: u64 = 1_000_000_000;

/// One canary tick: how late the event loop woke up, and whether that is a
/// stall.
pub struct CanaryTick {
    pub drift_ns: u64,
    pub stalled: bool,
}

/// What a sleep of the canary interval that took `elapsed_ns` shows.
pub fn canary_tick(elapsed_ns: u64) -> (r: CanaryTick)
    ensures
        r.drift_ns == if elapsed_ns > CANARY_INTERVAL_NS {
            elapsed_ns - CANARY_INTERVAL_NS
        } else {
            0
        },
        r.stalled == (r.drift_ns > STALL_THRESHOLD_NS),
{
    let drift_ns: u64 = elapsed_ns.saturating_sub(CANARY_INTERVAL_NS);
    CanaryTick { drift_ns, stalled: drift_ns > STALL_THRESHOLD_NS }
}

/// Whether the runtime is sampled at `now_ns`, where that is due at `due_ns`; and
/// if so, when it is due again.
pub fn next_sample(now_ns: u64, due_ns: u64) -> (r: Option<u64>)
    ensures
        r is Some <==> now_ns >= due_ns,
        r matches Some(next) ==> next as int == if now_ns + SAMPLE_INTERVAL_NS <= u64::MAX {
            now_ns + SAMPLE_INTERVAL_NS
        } else {
            u64::MAX as int
        },
{
    if now_ns >= due_ns {
        Some(now_ns.saturating_add(SAMPLE_INTERVAL_NS))
    } else {
        None
    }
}

/// The totals that the runtime reports of one worker.
#[derive(Debug, Clone, Copy, PartialEq, Eq, Structural)]
pub struct WorkerTotals {
    pub busy_ns: u64,
    pub parks: u64,
}

/// What is published of one worker: the share of the interval it was busy, as
/// a fraction, and how often it parked since the last sample.
#[derive(Debug, Clone, Copy, PartialEq, Eq, Structural)]
pub struct WorkerReport {
    pub busy_ns: u64,
    pub of_ns: u64,
    pub parks: u64,
}

/// Previous samples of the monotonic totals.
pub struct RuntimeSampler {
    last_sample_ns: u64,
    prev: Vec<WorkerTotals>,
    /// `"0"`, `"1"`, ...: the worker labels, built once.
    worker_labels: Vec<String>,
}

/// How much `now` is above `before`, none if it is not.
pub open spec fn gained(now: u64, before: u64) -> int {
    if now > before {
        now - before
    } else {
        0
    }
}

/// What is published of a worker over `elapsed` nanoseconds. The busy time is
/// clamped to the interval: the first sample covers all the time before it.
pub open spec fn report(now: WorkerTotals, before: WorkerTotals, elapsed: int) -> WorkerReport {
    WorkerReport {
        busy_ns: if gained(now.busy_ns, before.busy_ns) < elapsed {
            gained(now.busy_ns, before.busy_ns) as u64
        } else {
            elapsed as u64
        },
        of_ns: elapsed as u64,
        parks: gained(now.parks, before.parks) as u64,
    }
}

impl RuntimeSampler {
    pub closed spec fn last(&self) -> u64 {
        self.last_sample_ns
    }

    /// The totals as of the last sample.
    pub closed spec fn totals(&self) -> Seq<WorkerTotals> {
        self.prev@
    }

    /// The labels built so far.
    pub closed spec fn labels(&self) -> Seq<String> {
        self.worker_labels@
    }

    /// The totals of worker `i` as of the last sample; none before the first.
    pub open spec fn total(&self, i: int) -> WorkerTotals {
        if i < self.totals().len() {
            self.totals()[i]
        } else {
            WorkerTotals { busy_ns: 0, parks: 0 }
        }
    }

    /// Each worker's label is its number.
    pub open spec fn wf(&self) -> bool {
        forall|i: int|
            0 <= i < self.labels().len() ==> (#[trigger] self.labels()[i])@ == decimal_text(
                i as nat,
            )
    }

    pub fn new(now_ns: u64) -> (r: Self)
        ensures
            r.wf(),
            r.last() == now_ns,
            r.totals() == Seq::<WorkerTotals>::empty(),
            r.labels() == Seq::<String>::empty(),
    {
        RuntimeSampler { last_sample_ns: now_ns, prev: Vec::new(), worker_labels: Vec::new() }
    }

    /// Makes room for `num_workers` workers.
    pub fn ensure_workers(&mut self, num_workers: usize)
        requires
            old(self).wf(),
        ensures
            final(self).wf(),
            final(self).last() == old(self).last(),
            final(self).totals().len() == if old(self).totals().len() < num_workers {
                num_workers as nat
            } else {
                old(self).totals().len()
            },
            forall|i: int|
                0 <= i < final(self).totals().len() ==> #[trigger] final(self).totals()[i] == old(
                    self,
                ).total(i),
            final(self).labels().len() == if old(self).labels().len() < num_workers {
                num_workers as nat
            } else {
                old(self).labels().len()
            },
    {
        while self.prev.len() < num_workers
            invariant
                self.wf(),
                self.last() == old(self).last(),
                self.labels() == old(self).labels(),
                self.totals().len() >= old(self).totals().len(),
                self.totals().len() == old(self).totals().len() || self.totals().len()
                    <= num_workers,
                forall|i: int|
                    0 <= i < self.totals().len() ==> #[trigger] self.totals()[i] == old(
                        self,
                    ).total(i),
            decreases num_workers - self.totals().len(),
        {
            self.prev.push(WorkerTotals { busy_ns: 0, parks: 0 });
        }
        while self.worker_labels.len() < num_workers
            invariant
                self.wf(),
                self.last() == old(self).last(),
                self.totals().len() == if old(self).totals().len() < num_workers {
                    num_workers as nat
                } else {
                    old(self).totals().len()
                },
                forall|i: int|
                    0 <= i < self.totals().len() ==> #[trigger] self.totals()[i] == old(
                        self,
                    ).total(i),
                self.labels().len() >= old(self).labels().len(),
                self.labels().len() == old(self).labels().len() || self.labels().len()
                    <= num_workers,
            decreases num_workers - self.labels().len(),
        {
            let label = decimal(self.worker_labels.len() as u128);
            self.worker_labels.push(label);
        }
    }

    /// The label of worker `i`.
    pub fn label(&self, i: usize) -> (r: Option<&String>)
        requires
            self.wf(),
        ensures
            match r {
                Some(s) => i < self.labels().len() && s@ == decimal_text(i as nat),
                None => i >= self.labels().len(),
            },
    {
        if i < self.worker_labels.len() {
            assert(self.labels()[i as int]@ == decimal_text(i as nat));
            Some(&self.worker_labels[i])
        } else {
            None
        }
    }

    /// Takes the totals of all workers at `now_ns` and reports what changed
    /// since the last sample.
    pub fn sample(&mut self, workers: &Vec<WorkerTotals>, now_ns: u64) -> (r: Vec<WorkerReport>)
        requires
            old(self).wf(),
        ensures
            final(self).wf(),
            final(self).last() == now_ns,
            r@.len() == workers@.len(),
            forall|i: int|
                0 <= i < r@.len() ==> #[trigger] r@[i] == report(
                    workers@[i],
                    old(self).total(i),
                    gained(now_ns, old(self).last()),
                ),
            forall|i: int|
                0 <= i < workers@.len() ==> final(self).total(i) == #[trigger] workers@[i],
            forall|i: int|
                workers@.len() <= i ==> final(self).total(i) == #[trigger] old(self).total(i),
            final(self).labels().len() >= workers@.len(),
    {
        let elapsed: u64 = now_ns.saturating_sub(self.last_sample_ns);
        self.last_sample_ns = now_ns;
        assert(self.labels() == old(self).labels() && self.totals() == old(self).totals());
        let ghost before = *self;
        self.ensure_workers(workers.len());
        let mut out: Vec<WorkerReport> = Vec::new();
        let mut i: usize = 0;
        while i < workers.len()
            invariant
                i <= workers@.len(),
                self.wf(),
                self.last() == now_ns,
                elapsed == gained(now_ns, old(self).last()),
                self.totals().len() >= workers@.len(),
                self.labels().len() >= workers@.len(),
                out@.len() == i,
                forall|j: int|
                    0 <= j < i ==> #[trigger] out@[j] == report(
                        workers@[j],
                        old(self).total(j),
                        elapsed as int,
                    ),
                forall|j: int| 0 <= j < i ==> self.total(j) == #[trigger] workers@[j],
                forall|j: int| i <= j ==> self.total(j) == #[trigger] old(self).total(j),
            decreases workers@.len() - i,
        {
            let now: WorkerTotals = workers[i];
            let prev: WorkerTotals = self.prev[i];
            assert(self.total(i as int) == old(self).total(i as int));
            let busy: u64 = now.busy_ns.saturating_sub(prev.busy_ns);
            let parks: u64 = now.parks.saturating_sub(prev.parks);
            out.push(
                WorkerReport {
                    busy_ns: if busy < elapsed {
                        busy
                    } else {
                        elapsed
                    },
                    of_ns: elapsed,
                    parks,
                },
            );
            let ghost mid = *self;
            self.prev.set(i, now);
            assert forall|j: int| i + 1 <= j implies self.total(j) == #[trigger] old(self).total(
                j,
            ) by {
                assert(mid.total(j) == old(self).total(j));
            }
            assert forall|j: int| 0 <= j < i + 1 implies self.total(j)
                == #[trigger] workers@[j] by {
                if j < i {
                    assert(mid.total(j) == workers@[j]);
                }
            }
            i += 1;
        }
        out
    }
}

/// A worker's busy share is a fraction of the interval.
pub proof fn busy_share_is_bounded(now: WorkerTotals, before: WorkerTotals, elapsed: u64)
    ensures
        report(now, before, elapsed as int).busy_ns <= report(now, before, elapsed as int).of_ns,
{
}

/// What is published of a worker is what it gained since the last sample: how often
/// it parked, and how long it was busy, but not more than the time that passed.
pub proof fn reports_are_gains(now: WorkerTotals, before: WorkerTotals, elapsed: u64)
    requires
        now.busy_ns >= before.busy_ns,
        now.parks >= before.parks,
    ensures
        ({
            let r = report(now, before, elapsed as int);
            &&& r.of_ns == elapsed
            &&& r.parks == now.parks - before.parks
            &&& now.busy_ns - before.busy_ns <= elapsed ==> r.busy_ns == now.busy_ns
                - before.busy_ns
            &&& now.busy_ns - before.busy_ns >= elapsed ==> r.busy_ns == elapsed
        }),
{
}

/// What a sleep took too long is its drift, and only a drift of more than five
/// milliseconds is a stall.
pub proof fn drift_is_the_excess(elapsed_ns: u64, r: CanaryTick)
    requires
        call_ensures(canary_tick, (elapsed_ns,), r),
    ensures
        elapsed_ns >= 10_000_000 ==> r.drift_ns + 10_000_000 == elapsed_ns,
        elapsed_ns < 10_000_000 ==> r.drift_ns == 0,
        r.stalled <==> elapsed_ns > 15_000_000,
{
}

/// A sample is taken when it is due, and the next is due a second later.
pub proof fn samples_are_a_second_apart(now_ns: u64, due_ns: u64, r: Option<u64>)
    requires
        call_ensures(next_sample, (now_ns, due_ns), r),
        now_ns + 1_000_000_000 <= u64::MAX,
    ensures
        now_ns < due_ns ==> r is None,
        now_ns >= due_ns ==> r == Some((now_ns + 1_000_000_000) as u64),
{
}

/// What a worker reached before it was first sampled is nothing; from then on it is
/// what the last sample of it says.
pub proof fn unseen_workers_start_at_nought(sampler: RuntimeSampler, i: int)
    requires
        0 <= i,
    ensures
        i >= sampler.totals().len() ==> sampler.total(i).busy_ns == 0 && sampler.total(i).parks == 0,
        i < sampler.totals().len() ==> sampler.total(i) == sampler.totals()[i],
{
}

} // verus!
