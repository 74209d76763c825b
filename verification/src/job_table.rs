//! The `dashmap` crate's map, as the registry of jobs uses it.
//!
//! A `DashMap` can be changed through a shared reference. The registry owns its map and changes it
//! only through the functions below, which ask for the map alone.
use dashmap::DashMap;
use vstd::prelude::*;

use crate::job_manager::JobHandle;

verus! {

/// `dashmap::DashMap`, a map that can be shared between threads.
#[verifier::external_type_specification]
#[verifier::external_body]
#[verifier::reject_recursive_types(K)]
#[verifier::reject_recursive_types(V)]
#[verifier::reject_recursive_types(S)]
pub struct ExDashMap<K, V, S>(DashMap<K, V, S>);

/// Jobs by their ids.
pub type JobTable = DashMap<u32, JobHandle>;

/// What a map of jobs holds.
pub uninterp spec fn jobs_in(m: JobTable) -> Map<u32, JobHandle>;

/// No job at all.
pub open spec fn no_jobs() -> Map<u32, JobHandle> {
    Map::empty()
}

/// `DashMap::new` is empty.
#[verifier::external_body]
pub(crate) fn empty_table() -> (m: JobTable)
    ensures
        jobs_in(m) == no_jobs(),
{
    DashMap::new()
}

/// `DashMap::len` counts the entries.
#[verifier::external_body]
pub(crate) fn table_len(m: &JobTable) -> (n: usize)
    ensures
        n == jobs_in(*m).dom().len(),
{
    m.len()
}

/// `DashMap::is_empty` tells whether there is no entry.
#[verifier::external_body]
pub(crate) fn table_is_empty(m: &JobTable) -> (b: bool)
    ensures
        b == (jobs_in(*m).dom().len() == 0),
{
    m.is_empty()
}

/// `DashMap::contains_key` tells whether the key has an entry.
#[verifier::external_body]
pub(crate) fn table_contains(m: &JobTable, key: u32) -> (b: bool)
    ensures
        b == jobs_in(*m).contains_key(key),
{
    m.contains_key(&key)
}

/// `DashMap::get` finds the value of a key that has an entry; the value is copied out.
#[verifier::external_body]
pub(crate) fn table_get(m: &JobTable, key: u32) -> (r: Option<JobHandle>)
    ensures
        r == (if jobs_in(*m).contains_key(key) {
            Some(jobs_in(*m)[key])
        } else {
            None
        }),
{
    m.get(&key).map(|entry| *entry.value())
}

/// `DashMap::insert` sets the value of a key.
#[verifier::external_body]
pub(crate) fn table_insert(m: &mut JobTable, key: u32, value: JobHandle)
    ensures
        jobs_in(*final(m)) == jobs_in(*old(m)).insert(key, value),
{
    m.insert(key, value);
}

/// `DashMap::remove` takes the entry of a key out, where it has one.
#[verifier::external_body]
pub(crate) fn table_remove(m: &mut JobTable, key: u32)
    ensures
        jobs_in(*final(m)) == jobs_in(*old(m)).remove(key),
{
    m.remove(&key);
}

/// `DashMap::iter` visits every entry once, in an order that is not fixed; the keys are collected.
#[verifier::external_body]
pub(crate) fn table_keys(m: &JobTable) -> (keys: Vec<u32>)
    ensures
        keys@.no_duplicates(),
        keys@.to_set() == jobs_in(*m).dom(),
{
    m.iter().map(|entry| *entry.key()).collect()
}

} // verus!
