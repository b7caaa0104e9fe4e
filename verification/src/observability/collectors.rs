//! What the background collectors publish, and when.

use vstd::prelude::*;

verus! {

/// What a client can subscribe to.
#[derive(Debug, Clone, Copy, PartialEq, Eq, Structural)]
pub enum Topic {
    Workers,
    Loads,
    Cluster,
    Mesh,
    RateLimits,
    Models,
    Metrics,
}

/// Configuration for collector intervals, in seconds.
#[derive(Debug, Clone, Copy, PartialEq, Eq, Structural)]
pub struct CollectorConfig {
    /// Interval for the loads collector.
    pub loads_interval: u64,
    /// Interval for the rate-limits collector.
    pub rate_limits_interval: u64,
    /// Interval for the metrics collector.
    pub metrics_interval: u64,
    /// Checkpoint interval for the worker collector. Catches health changes
    /// that bypass the broadcast.
    pub worker_checkpoint_interval: u64,
}

impl Default for CollectorConfig {
    fn default() -> (r: Self)
        ensures
            r.loads_interval == 3,
            r.rate_limits_interval == 5,
            r.metrics_interval == 3,
            r.worker_checkpoint_interval == 3,
    {
        CollectorConfig {
            loads_interval: 3,
            rate_limits_interval: 5,
            metrics_interval: 3,
            worker_checkpoint_interval: 3,
        }
    }
}

/// What happened to a worker.
#[derive(Debug, Clone, Copy, PartialEq, Eq, Structural)]
pub enum WorkerEvent {
    Registered,
    Removed,
    Replaced,
    StatusChanged,
}

impl WorkerEvent {
    /// The event adds, removes or replaces a worker.
    pub open spec fn changes_membership(self) -> bool {
        self is Registered || self is Removed || self is Replaced
    }
}

/// What a receiver of worker events gets: the next event, or notice that it
/// was too slow and missed some.
#[derive(Debug, Clone, Copy, PartialEq, Eq, Structural)]
pub enum Received {
    Event(WorkerEvent),
    Lagged,
}

impl Received {
    /// The model list may have changed.
    pub open spec fn concerns_models(self) -> bool {
        match self {
            Received::Event(e) => e.changes_membership(),
            Received::Lagged => true,
        }
    }
}

/// Membership changes (add/remove/replace) affect the model list; status
/// changes do not.
pub fn is_membership_change(event: &WorkerEvent) -> (r: bool)
    ensures
        r == event.changes_membership(),
{
    match event {
        WorkerEvent::Registered | WorkerEvent::Removed | WorkerEvent::Replaced => true,
        WorkerEvent::StatusChanged => false,
    }
}

/// Whether `first` or anything queued behind it changed membership, so that a
/// burst collapses into a single rebuild. A lag forces a model rebuild.
pub fn drain_pending(first: &WorkerEvent, queued: &Vec<Received>) -> (r: bool)
    ensures
        r == (first.changes_membership() || exists|i: int|
            0 <= i < queued@.len() && (#[trigger] queued@[i]).concerns_models()),
{
    let mut models_changed = is_membership_change(first);
    let mut i: usize = 0;
    while i < queued.len()
        invariant
            i <= queued@.len(),
            models_changed == (first.changes_membership() || exists|j: int|
                0 <= j < i && (#[trigger] queued@[j]).concerns_models()),
        decreases queued@.len() - i,
    {
        let concerns = match &queued[i] {
            Received::Event(event) => is_membership_change(event),
            Received::Lagged => true,
        };
        assert(concerns == queued@[i as int].concerns_models());
        if concerns {
            models_changed = true;
        }
        i += 1;
    }
    models_changed
}

/// Why the worker collector woke up.
pub enum Wake {
    /// An event, with what was queued behind it.
    Burst(WorkerEvent, Vec<Received>),
    Lagged,
    Closed,
    Checkpoint,
}

/// What the worker collector does then.
#[derive(Debug, Clone, Copy, PartialEq, Eq, Structural)]
pub enum CollectorStep {
    Publish { models: bool },
    Stop,
}

/// What the worker collector does when it wakes up: it publishes the workers,
/// and the models too where they may have changed, until the broadcast closes.
pub fn worker_collector_step(wake: &Wake) -> (r: CollectorStep)
    ensures
        match *wake {
            Wake::Burst(first, queued) => r == CollectorStep::Publish {
                models: first.changes_membership() || exists|i: int|
                    0 <= i < queued@.len() && (#[trigger] queued@[i]).concerns_models(),
            },
            Wake::Lagged => r == CollectorStep::Publish { models: true },
            Wake::Closed => r == CollectorStep::Stop,
            Wake::Checkpoint => r == CollectorStep::Publish { models: true },
        },
{
    match wake {
        Wake::Burst(first, queued) => CollectorStep::Publish {
            models: drain_pending(first, queued),
        },
        Wake::Lagged => CollectorStep::Publish { models: true },
        Wake::Closed => CollectorStep::Stop,
        Wake::Checkpoint => CollectorStep::Publish { models: true },
    }
}

/// Whether a topic is collected and published: only while someone is
/// subscribed, so that no snapshot is built that nobody reads.
pub fn publish_if_subscribed(receivers: usize) -> (r: bool)
    ensures
        r == (receivers > 0),
{
    receivers > 0
}

/// How many of `healthy` hold.
pub open spec fn healthy_count(healthy: Seq<bool>) -> nat
    decreases healthy.len(),
{
    if healthy.len() == 0 {
        0
    } else {
        healthy_count(healthy.drop_last()) + if healthy.last() {
            1nat
        } else {
            0nat
        }
    }
}

/// The counts of a worker snapshot.
#[derive(Debug, Clone, Copy, PartialEq, Eq, Structural)]
pub struct WorkerCounts {
    pub total: usize,
    pub healthy: usize,
    pub unhealthy: usize,
}

/// Counts workers by health.
pub fn collect_workers(healthy: &Vec<bool>) -> (r: WorkerCounts)
    ensures
        r.total == healthy@.len(),
        r.healthy == healthy_count(healthy@),
        r.healthy + r.unhealthy == r.total,
{
    let mut count: usize = 0;
    let mut i: usize = 0;
    assert(healthy@.take(0) =~= Seq::<bool>::empty());
    while i < healthy.len()
        invariant
            i <= healthy@.len(),
            count <= i,
            count == healthy_count(healthy@.take(i as int)),
        decreases healthy@.len() - i,
    {
        assert(healthy@.take(i + 1).drop_last() =~= healthy@.take(i as int));
        if healthy[i] {
            count += 1;
        }
        i += 1;
    }
    assert(healthy@.take(healthy@.len() as int) =~= healthy@);
    WorkerCounts { total: healthy.len(), healthy: count, unhealthy: healthy.len() - count }
}

/// The sum of `loads`.
pub open spec fn load_sum(loads: Seq<usize>) -> nat
    decreases loads.len(),
{
    if loads.len() == 0 {
        0
    } else {
        load_sum(loads.drop_last()) + loads.last() as nat
    }
}

proof fn lemma_load_sum_grows(loads: Seq<usize>, n: int)
    requires
        0 <= n <= loads.len(),
    ensures
        load_sum(loads.take(n)) <= load_sum(loads),
    decreases loads.len() - n,
{
    if n < loads.len() {
        lemma_load_sum_grows(loads, n + 1);
        assert(loads.take(n + 1).drop_last() =~= loads.take(n));
    } else {
        assert(loads.take(n) =~= loads);
    }
}

/// The total load of all workers.
pub fn collect_loads(loads: &Vec<usize>) -> (total: usize)
    requires
        load_sum(loads@) <= usize::MAX,
    ensures
        total == load_sum(loads@),
{
    let mut total: usize = 0;
    let mut i: usize = 0;
    assert(loads@.take(0) =~= Seq::<usize>::empty());
    while i < loads.len()
        invariant
            i <= loads@.len(),
            load_sum(loads@) <= usize::MAX,
            total == load_sum(loads@.take(i as int)),
        decreases loads@.len() - i,
    {
        proof {
            lemma_load_sum_grows(loads@, i + 1);
            assert(loads@.take(i + 1).drop_last() =~= loads@.take(i as int));
        }
        total += loads[i];
        i += 1;
    }
    assert(loads@.take(loads@.len() as int) =~= loads@);
    total
}

/// Workers are counted once each: the healthy are those that are.
pub proof fn healthy_workers_are_counted(healthy: Seq<bool>)
    ensures
        healthy_count(healthy) == healthy.filter(|h: bool| h).len(),
    decreases healthy.len(),
{
    reveal(Seq::filter);
    if healthy.len() > 0 {
        healthy_workers_are_counted(healthy.drop_last());
    }
}

/// Loads add up, in whatever parts they are summed.
pub proof fn loads_add_up(a: Seq<usize>, b: Seq<usize>, x: usize)
    ensures
        load_sum(seq![x]) == x,
        load_sum(a + b) == load_sum(a) + load_sum(b),
    decreases b.len(),
{
    let one = seq![x];
    assert(one.drop_last() =~= Seq::<usize>::empty());
    assert(load_sum(Seq::<usize>::empty()) == 0);
    assert(one.last() == x);
    if b.len() > 0 {
        loads_add_up(a, b.drop_last(), x);
        assert((a + b).drop_last() =~= a + b.drop_last());
        assert((a + b).last() == b.last());
    } else {
        assert(a + b =~= a);
    }
}

/// A change of health alone leaves the model list as it is; anything else that is
/// received may change it.
pub proof fn only_health_leaves_models_alone(e: WorkerEvent)
    ensures
        e.changes_membership() <==> e != WorkerEvent::StatusChanged,
        Received::Event(e).concerns_models() <==> e != WorkerEvent::StatusChanged,
        Received::Lagged.concerns_models(),
{
}

} // verus!
