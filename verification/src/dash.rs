//! The concurrent map of the `dashmap` crate, held exclusively.

use crate::grpc::multimodal::config::MultimodalModelConfig;
use std::sync::Arc;
use vstd::prelude::*;

verus! {

/// The concurrent hash map of the `dashmap` crate.
#[verifier::external_type_specification]
#[verifier::external_body]
#[verifier::reject_recursive_types(K)]
#[verifier::reject_recursive_types(V)]
#[verifier::reject_recursive_types(S)]
pub struct ExDashMap<K, V, S>(dashmap::DashMap<K, V, S>);

/// Slot leases by room: the leased slot and the time of the lease.
pub type LeaseMap = dashmap::DashMap<i64, (u32, u128)>;

/// What a lease map holds.
pub uninterp spec fn leases_in(m: LeaseMap) -> Map<i64, (u32, u128)>;

/// `DashMap::new` gives a map that holds nothing.
#[verifier::external_body]
pub(crate) fn lease_map_new() -> (m: LeaseMap)
    ensures
        forall|room: i64| !leases_in(m).dom().contains(room),
{
    dashmap::DashMap::new()
}

/// `DashMap::insert` sets the value under a key, replacing one that was there.
#[verifier::external_body]
pub(crate) fn lease_map_insert(m: &mut LeaseMap, room: i64, lease: (u32, u128))
    ensures
        leases_in(*final(m)) == leases_in(*old(m)).insert(room, lease),
{
    m.insert(room, lease);
}

/// `DashMap::remove` takes the entry under a key out and hands it over; where
/// there is none, nothing changes.
#[verifier::external_body]
pub(crate) fn lease_map_remove(m: &mut LeaseMap, room: i64) -> (r: Option<(i64, (u32, u128))>)
    ensures
        leases_in(*final(m)) == leases_in(*old(m)).remove(room),
        r == if leases_in(*old(m)).dom().contains(room) {
            Some((room, leases_in(*old(m))[room]))
        } else {
            None
        },
{
    m.remove(&room)
}

/// `DashMap::iter` walks every entry once, in no particular order.
#[verifier::external_body]
pub(crate) fn lease_map_entries(m: &LeaseMap) -> (r: Vec<(i64, (u32, u128))>)
    ensures
        forall|i: int, j: int| 0 <= i < j < r@.len() ==> (#[trigger] r@[i]).0 != (#[trigger] r@[j]).0,
        forall|i: int|
            0 <= i < r@.len() ==> leases_in(*m).dom().contains((#[trigger] r@[i]).0)
                && leases_in(*m)[r@[i].0] == r@[i].1,
        forall|room: i64| #[trigger]
            leases_in(*m).dom().contains(room) ==> exists|i: int|
                0 <= i < r@.len() && (#[trigger] r@[i]).0 == room,
{
    m.iter().map(|e| (*e.key(), *e.value())).collect()
}

/// Positions of rate-limit buckets by tenant and rule.
pub type ScopeMap = dashmap::DashMap<(String, Option<String>), usize>;

/// The key of a rate-limit scope: the tenant and, where the scope is that of a
/// model rule, the rule's id.
pub type ScopeKeyText = (Seq<char>, Option<Seq<char>>);

/// What a scope map holds.
pub uninterp spec fn scopes_in(m: ScopeMap) -> Map<ScopeKeyText, usize>;

/// The text of an optional string.
pub open spec fn opt_string_text(s: Option<String>) -> Option<Seq<char>> {
    match s {
        Some(s) => Some(s@),
        None => None,
    }
}

/// `DashMap::new` gives a map that holds nothing.
#[verifier::external_body]
pub(crate) fn scope_map_new() -> (m: ScopeMap)
    ensures
        forall|key: ScopeKeyText| !scopes_in(m).dom().contains(key),
{
    dashmap::DashMap::new()
}

/// `DashMap::entry(key).or_insert(value)` keeps the value under a key where
/// there is one, sets it where there is none, and gives the value that is then
/// there.
#[verifier::external_body]
pub(crate) fn scope_map_or_insert(
    m: &mut ScopeMap,
    tenant: String,
    rule: Option<String>,
    value: usize,
) -> (r: usize)
    ensures
        r == if scopes_in(*old(m)).dom().contains((tenant@, opt_string_text(rule))) {
            scopes_in(*old(m))[(tenant@, opt_string_text(rule))]
        } else {
            value
        },
        scopes_in(*final(m)) == scopes_in(*old(m)).insert((tenant@, opt_string_text(rule)), r),
{
    *m.entry((tenant, rule)).or_insert(value)
}

/// Open reservations by charge id: the reserved tokens and the positions of
/// the buckets that were debited.
pub type ActiveMap = dashmap::DashMap<u128, (u32, usize, Option<usize>)>;

/// What an active map holds.
pub uninterp spec fn active_in(m: ActiveMap) -> Map<u128, (u32, usize, Option<usize>)>;

/// `DashMap::new` gives a map that holds nothing.
#[verifier::external_body]
pub(crate) fn active_map_new() -> (m: ActiveMap)
    ensures
        forall|id: u128| !active_in(m).dom().contains(id),
{
    dashmap::DashMap::new()
}

/// `DashMap::contains_key` says whether there is a value under a key.
#[verifier::external_body]
pub(crate) fn active_map_contains(m: &ActiveMap, id: u128) -> (r: bool)
    ensures
        r == active_in(*m).dom().contains(id),
{
    m.contains_key(&id)
}

/// `DashMap::insert` sets the value under a key, replacing one that was there.
#[verifier::external_body]
pub(crate) fn active_map_insert(m: &mut ActiveMap, id: u128, value: (u32, usize, Option<usize>))
    ensures
        active_in(*final(m)) == active_in(*old(m)).insert(id, value),
{
    m.insert(id, value);
}

/// `DashMap::remove` takes the entry under a key out and hands it over; where
/// there is none, nothing changes.
#[verifier::external_body]
pub(crate) fn active_map_remove(m: &mut ActiveMap, id: u128) -> (r: Option<
    (u128, (u32, usize, Option<usize>)),
>)
    ensures
        active_in(*final(m)) == active_in(*old(m)).remove(id),
        r == if active_in(*old(m)).dom().contains(id) {
            Some((id, active_in(*old(m))[id]))
        } else {
            None
        },
{
    m.remove(&id)
}

/// Model configurations by tokenizer.
pub type ConfigMap = dashmap::DashMap<String, Arc<MultimodalModelConfig>>;

/// What a map of model configurations holds.
pub uninterp spec fn configs_in(m: ConfigMap) -> Map<Seq<char>, Arc<MultimodalModelConfig>>;

/// `DashMap::new` gives a map that holds nothing.
#[verifier::external_body]
pub(crate) fn config_map_new() -> (m: ConfigMap)
    ensures
        forall|id: Seq<char>| !configs_in(m).dom().contains(id),
{
    dashmap::DashMap::new()
}

/// `DashMap::get` gives the value under a key, if there is one.
#[verifier::external_body]
pub(crate) fn config_map_get(m: &ConfigMap, id: &str) -> (r: Option<Arc<MultimodalModelConfig>>)
    ensures
        r == if configs_in(*m).dom().contains(id@) {
            Some(configs_in(*m)[id@])
        } else {
            None
        },
{
    m.get(id).map(|e| Arc::clone(e.value()))
}

/// `DashMap::insert` sets the value under a key, replacing one that was there.
#[verifier::external_body]
pub(crate) fn config_map_insert(m: &mut ConfigMap, id: String, config: Arc<MultimodalModelConfig>)
    ensures
        configs_in(*final(m)) == configs_in(*old(m)).insert(id@, config),
{
    m.insert(id, config);
}

/// `DashMap::remove` takes the entry under a key out and hands its value over;
/// where there is none, nothing changes.
#[verifier::external_body]
pub(crate) fn config_map_remove(m: &mut ConfigMap, id: &str) -> (r: Option<
    Arc<MultimodalModelConfig>,
>)
    ensures
        configs_in(*final(m)) == configs_in(*old(m)).remove(id@),
        r == if configs_in(*old(m)).dom().contains(id@) {
            Some(configs_in(*old(m))[id@])
        } else {
            None
        },
{
    m.remove(id).map(|e| e.1)
}

} // verus!
