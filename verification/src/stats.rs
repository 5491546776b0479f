//! Per-root operation statistics, held in a concurrently-writable map so that
//! readers may snapshot the counters at any time.

use vstd::prelude::*;

verus! {

/// Running counters for the work done under one root.  Timestamps are
/// seconds since the epoch.
#[derive(Debug, Clone, Copy, PartialEq, Eq, Structural)]
pub struct OperationStats {
    pub files_processed: u64,
    pub bytes_cleaned: u64,
    pub errors_encountered: u64,
    pub start_time: u64,
    pub last_update: u64,
}

/// Fresh counters, stamped with the given clock.
pub open spec fn fresh_stats(now: u64) -> OperationStats {
    OperationStats {
        files_processed: 0,
        bytes_cleaned: 0,
        errors_encountered: 0,
        start_time: now,
        last_update: now,
    }
}

impl OperationStats {
    /// Fresh counters, stamped with the caller's clock.
    pub fn new_at(now: u64) -> (r: OperationStats)
        ensures
            r == fresh_stats(now),
    {
        OperationStats {
            files_processed: 0,
            bytes_cleaned: 0,
            errors_encountered: 0,
            start_time: now,
            last_update: now,
        }
    }
}

/// The declared shape of the outside concurrent map.
#[verifier::external_type_specification]
#[verifier::external_body]
#[verifier::reject_recursive_types(K)]
#[verifier::reject_recursive_types(V)]
#[verifier::reject_recursive_types(S)]
pub struct ExDashMap<K, V, S>(dashmap::DashMap<K, V, S>);

/// What the statistics map holds: counters keyed by the root's path text.
pub uninterp spec fn stats_entries(
    m: &dashmap::DashMap<String, OperationStats, std::hash::RandomState>,
) -> Map<Seq<char>, OperationStats>;

/// A statistics map with nothing recorded yet.
pub open spec fn no_stats() -> Map<Seq<char>, OperationStats> {
    Map::empty()
}

/// A keyed store of `OperationStats`, safe for concurrent writers.
pub struct StatsStore {
    pub map: dashmap::DashMap<String, OperationStats, std::hash::RandomState>,
}

impl StatsStore {
    /// The store's contents as a map from key text to counters.
    pub open spec fn entries(&self) -> Map<Seq<char>, OperationStats> {
        stats_entries(&self.map)
    }

    /// Relies on dashmap::DashMap::default: a new map is empty.
    #[verifier::external_body]
    pub fn new() -> (r: StatsStore)
        ensures
            r.entries() == no_stats(),
    {
        StatsStore { map: dashmap::DashMap::default() }
    }

    /// Relies on dashmap::DashMap::insert: the value is stored under the
    /// key, replacing any earlier value.
    #[verifier::external_body]
    pub fn insert(&mut self, key: &String, value: OperationStats)
        ensures
            stats_entries(&final(self).map) == stats_entries(&old(self).map).insert(key@, value),
    {
        self.map.insert(key.clone(), value);
    }

    /// Relies on dashmap::DashMap::get: the value stored under the key, if
    /// one is present.
    #[verifier::external_body]
    pub fn get(&self, key: &String) -> (r: Option<OperationStats>)
        ensures
            match r {
                Some(v) => stats_entries(&self.map).contains_key(key@) && stats_entries(&self.map)[key@] == v,
                None => !stats_entries(&self.map).contains_key(key@),
            },
    {
        self.map.get(key).map(|entry| *entry.value())
    }

    /// Relies on dashmap::DashMap::is_empty: true exactly when no key is
    /// stored.
    #[verifier::external_body]
    pub fn is_empty(&self) -> (r: bool)
        ensures
            r == (stats_entries(&self.map).dom() == Set::<Seq<char>>::empty()),
    {
        self.map.is_empty()
    }

    /// Relies on dashmap::DashMap::iter: every stored pair is yielded once;
    /// the order is unspecified.
    #[verifier::external_body]
    pub fn snapshot(&self) -> (r: Vec<(String, OperationStats)>)
        ensures
            forall|i: int|
                0 <= i < r@.len() ==> stats_entries(&self.map).contains_key(#[trigger] r@[i].0@)
                    && stats_entries(&self.map)[r@[i].0@] == r@[i].1,
            forall|i: int, j: int| 0 <= i < j < r@.len() ==> r@[i].0@ != r@[j].0@,
            forall|k: Seq<char>|
                stats_entries(&self.map).contains_key(k) ==> exists|i: int|
                    0 <= i < r@.len() && #[trigger] r@[i].0@ == k,
    {
        self.map.iter().map(|entry| (entry.key().clone(), *entry.value())).collect()
    }
}

} // verus!
