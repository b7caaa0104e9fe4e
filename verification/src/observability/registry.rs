//! The latest snapshot of each topic, and the channels it is read through.

use crate::observability::collectors::{publish_if_subscribed, Topic};
use vstd::prelude::*;

verus! {

/// The sending half of a `tokio` watch channel.
#[verifier::external_type_specification]
#[verifier::external_body]
#[verifier::reject_recursive_types(T)]
pub struct ExSender<T>(tokio::sync::watch::Sender<T>);

/// The receiving half of a `tokio` watch channel.
#[verifier::external_type_specification]
#[verifier::external_body]
#[verifier::reject_recursive_types(T)]
pub struct ExReceiver<T>(tokio::sync::watch::Receiver<T>);

/// Sends snapshots: none until the first is published.
pub type SnapshotSender = tokio::sync::watch::Sender<Option<String>>;

/// Receives snapshots.
pub type SnapshotReceiver = tokio::sync::watch::Receiver<Option<String>>;

/// The snapshot that a channel holds.
pub uninterp spec fn snapshot_in(s: SnapshotSender) -> Option<Seq<char>>;

/// The channel that a sender sends to.
pub uninterp spec fn sends_to(s: SnapshotSender) -> int;

/// The channel that a receiver receives from.
pub uninterp spec fn receives_from(r: SnapshotReceiver) -> int;

/// `watch::Sender::new`: a channel that holds the given value.
#[verifier::external_body]
fn watch_new(initial: Option<String>) -> (s: SnapshotSender)
    ensures
        snapshot_in(s) == match initial {
            Some(text) => Some(text@),
            None => None,
        },
{
    tokio::sync::watch::Sender::new(initial)
}

/// `watch::Sender::send_replace`: the channel holds the new value from then on,
/// even if nobody receives it. The sender stays with its channel, and so do the
/// receivers.
#[verifier::external_body]
fn watch_replace(s: &mut SnapshotSender, value: Option<String>)
    ensures
        snapshot_in(*final(s)) == match value {
            Some(text) => Some(text@),
            None => None,
        },
        sends_to(*final(s)) == sends_to(*old(s)),
{
    s.send_replace(value);
}

/// `watch::Sender::borrow`: the value that the channel holds.
#[verifier::external_body]
fn watch_latest(s: &SnapshotSender) -> (r: Option<String>)
    ensures
        snapshot_in(*s) == match r {
            Some(text) => Some(text@),
            None => None,
        },
{
    s.borrow().clone()
}

/// `watch::Sender::subscribe`: a new receiver of the sender's channel. What it
/// reads later depends on what is sent meanwhile.
#[verifier::external_body]
fn watch_subscribe(s: &SnapshotSender) -> (r: SnapshotReceiver)
    ensures
        receives_from(r) == sends_to(*s),
{
    s.subscribe()
}

/// `watch::Sender::receiver_count`: how many receivers there are now. They come
/// and go on their own.
#[verifier::external_body]
fn watch_receivers(s: &SnapshotSender) -> (r: usize) {
    s.receiver_count()
}

/// `n` is a number of receivers that the sender `s` may report.
pub closed spec fn may_report(s: SnapshotSender, n: usize) -> bool {
    call_ensures(watch_receivers, (&s,), n)
}

/// Holds a channel for each topic.
pub struct WatchRegistry {
    workers: SnapshotSender,
    loads: SnapshotSender,
    cluster: SnapshotSender,
    mesh: SnapshotSender,
    rate_limits: SnapshotSender,
    models: SnapshotSender,
    metrics: SnapshotSender,
}

impl Default for WatchRegistry {
    fn default() -> (r: Self)
        ensures
            forall|topic: Topic| #[trigger] r.latest(topic) is None,
    {
        WatchRegistry::new()
    }
}

impl WatchRegistry {
    /// The latest snapshot of a topic, none before the first.
    pub closed spec fn latest(&self, topic: Topic) -> Option<Seq<char>> {
        match topic {
            Topic::Workers => snapshot_in(self.workers),
            Topic::Loads => snapshot_in(self.loads),
            Topic::Cluster => snapshot_in(self.cluster),
            Topic::Mesh => snapshot_in(self.mesh),
            Topic::RateLimits => snapshot_in(self.rate_limits),
            Topic::Models => snapshot_in(self.models),
            Topic::Metrics => snapshot_in(self.metrics),
        }
    }

    /// The channel of a topic.
    pub closed spec fn channel(&self, topic: Topic) -> int {
        match topic {
            Topic::Workers => sends_to(self.workers),
            Topic::Loads => sends_to(self.loads),
            Topic::Cluster => sends_to(self.cluster),
            Topic::Mesh => sends_to(self.mesh),
            Topic::RateLimits => sends_to(self.rate_limits),
            Topic::Models => sends_to(self.models),
            Topic::Metrics => sends_to(self.metrics),
        }
    }

    pub fn new() -> (r: Self)
        ensures
            forall|topic: Topic| #[trigger] r.latest(topic) is None,
    {
        WatchRegistry {
            workers: watch_new(None),
            loads: watch_new(None),
            cluster: watch_new(None),
            mesh: watch_new(None),
            rate_limits: watch_new(None),
            models: watch_new(None),
            metrics: watch_new(None),
        }
    }

    /// The sender for a topic.
    fn sender(&self, topic: Topic) -> (r: &SnapshotSender)
        ensures
            snapshot_in(*r) == self.latest(topic),
            sends_to(*r) == self.channel(topic),
    {
        match topic {
            Topic::Workers => &self.workers,
            Topic::Loads => &self.loads,
            Topic::Cluster => &self.cluster,
            Topic::Mesh => &self.mesh,
            Topic::RateLimits => &self.rate_limits,
            Topic::Models => &self.models,
            Topic::Metrics => &self.metrics,
        }
    }

    /// Publish the latest state for a topic. It is retained even if nobody
    /// receives it, and whoever is subscribed to a topic stays so.
    pub fn publish(&mut self, topic: Topic, value: String)
        ensures
            forall|t: Topic| #[trigger]
                final(self).latest(t) == if t == topic {
                    Some(value@)
                } else {
                    old(self).latest(t)
                },
            forall|t: Topic| #[trigger] final(self).channel(t) == old(self).channel(t),
    {
        match topic {
            Topic::Workers => watch_replace(&mut self.workers, Some(value)),
            Topic::Loads => watch_replace(&mut self.loads, Some(value)),
            Topic::Cluster => watch_replace(&mut self.cluster, Some(value)),
            Topic::Mesh => watch_replace(&mut self.mesh, Some(value)),
            Topic::RateLimits => watch_replace(&mut self.rate_limits, Some(value)),
            Topic::Models => watch_replace(&mut self.models, Some(value)),
            Topic::Metrics => watch_replace(&mut self.metrics, Some(value)),
        }
    }

    /// The latest state of a topic, none before the first.
    pub fn snapshot(&self, topic: Topic) -> (r: Option<String>)
        ensures
            self.latest(topic) == match r {
                Some(text) => Some(text@),
                None => None,
            },
    {
        watch_latest(self.sender(topic))
    }

    /// A receiver for a topic.
    pub fn subscribe(&self, topic: Topic) -> (r: SnapshotReceiver)
        ensures
            receives_from(r) == self.channel(topic),
    {
        watch_subscribe(self.sender(topic))
    }

    /// Whether anybody is subscribed to a topic now: whether the number of
    /// receivers that its channel reports is positive. Snapshots are built only
    /// then.
    pub fn has_receivers(&self, topic: Topic) -> (r: bool)
        ensures
            exists|s: SnapshotSender, n: usize| #[trigger]
                may_report(s, n) && sends_to(s) == self.channel(topic) && r == (n > 0),
    {
        let s: &SnapshotSender = self.sender(topic);
        let n: usize = watch_receivers(s);
        assert(may_report(*s, n));
        publish_if_subscribed(n)
    }
}

} // verus!
