//! The concurrent maps of `dashmap` that the watcher and the cache keep their
//! state in, and what this library takes for granted of them.
//!
//! A map's contents are named by a function from the map to a mathematical
//! map. Each function below that is marked as trusted makes one call into
//! `dashmap` and states, over that name, what the call does; none of these
//! statements is proved here.

use vstd::prelude::*;
use dashmap::DashMap;
use crate::cache::CacheEntry;

verus! {

/// `dashmap::DashMap`, a sharded hash map.
#[verifier::external_type_specification]
#[verifier::external_body]
#[verifier::reject_recursive_types(K)]
#[verifier::reject_recursive_types(V)]
#[verifier::reject_recursive_types(S)]
pub struct ExDashMap<K, V, S>(DashMap<K, V, S>);

/// The time in milliseconds kept for each path in a map of the debouncer.
pub uninterp spec fn stamps(map: DashMap<Vec<u8>, u64>) -> Map<Seq<u8>, u64>;

/// The map of the debouncer that keeps no time.
pub open spec fn no_stamps() -> Map<Seq<u8>, u64> {
    Map::empty()
}

/// Trusted: `DashMap::new` makes a map without entries.
#[verifier::external_body]
pub(crate) fn stamps_new() -> (fresh: DashMap<Vec<u8>, u64>)
    ensures
        stamps(fresh) == no_stamps(),
{
    DashMap::new()
}

/// Trusted: `DashMap::get` finds the value kept for a key, if the map has
/// the key.
#[verifier::external_body]
pub(crate) fn stamps_get(map: &DashMap<Vec<u8>, u64>, key: &[u8]) -> (value: Option<u64>)
    ensures
        value == if stamps(*map).contains_key(key@) {
            Some(stamps(*map)[key@])
        } else {
            None
        },
{
    map.get(key).map(|entry| *entry)
}

/// Trusted: `DashMap::insert` keeps the value for the key, in place of any
/// value kept for it before, and leaves the other entries alone.
#[verifier::external_body]
pub(crate) fn stamps_insert(map: &mut DashMap<Vec<u8>, u64>, key: Vec<u8>, value: u64)
    ensures
        stamps(*final(map)) == stamps(*old(map)).insert(key@, value),
{
    map.insert(key, value);
}

/// Whether each watched directory in a map of the watcher is watched with
/// its subdirectories.
pub uninterp spec fn watched(map: DashMap<Vec<u8>, bool>) -> Map<Seq<u8>, bool>;

/// The map of the watcher without a watched directory.
pub open spec fn none_watched() -> Map<Seq<u8>, bool> {
    Map::empty()
}

/// Trusted: `DashMap::new` makes a map without entries.
#[verifier::external_body]
pub(crate) fn watched_new() -> (fresh: DashMap<Vec<u8>, bool>)
    ensures
        watched(fresh) == none_watched(),
{
    DashMap::new()
}

/// Trusted: `DashMap::insert` keeps the value for the key, in place of any
/// value kept for it before, and leaves the other entries alone.
#[verifier::external_body]
pub(crate) fn watched_insert(map: &mut DashMap<Vec<u8>, bool>, key: Vec<u8>, value: bool)
    ensures
        watched(*final(map)) == watched(*old(map)).insert(key@, value),
{
    map.insert(key, value);
}

/// Trusted: `DashMap::len` counts the entries.
#[verifier::external_body]
pub(crate) fn watched_len(map: &DashMap<Vec<u8>, bool>) -> (len: usize)
    ensures
        len == watched(*map).dom().len(),
{
    map.len()
}

/// The byte strings that some vectors hold.
pub open spec fn paths_view(paths: Seq<Vec<u8>>) -> Seq<Seq<u8>> {
    Seq::new(paths.len(), |i: int| paths[i]@)
}

/// The byte strings that a bucket holds, if there is a bucket.
pub open spec fn bucket_view(bucket: Option<Vec<Vec<u8>>>) -> Option<Seq<Seq<u8>>> {
    match bucket {
        Some(paths) => Some(paths_view(paths@)),
        None => None,
    }
}

/// The entry kept for each path in a map of the cache.
pub uninterp spec fn cache_entries(map: DashMap<Vec<u8>, CacheEntry>) -> Map<Seq<u8>, CacheEntry>;

/// The cache without an entry.
pub open spec fn no_entries() -> Map<Seq<u8>, CacheEntry> {
    Map::empty()
}

/// Trusted: `DashMap::new` makes a map without entries.
#[verifier::external_body]
pub(crate) fn entries_new() -> (fresh: DashMap<Vec<u8>, CacheEntry>)
    ensures
        cache_entries(fresh) == no_entries(),
{
    DashMap::new()
}

/// Trusted: `DashMap::get` finds the value kept for a key, if the map has
/// the key.
#[verifier::external_body]
pub(crate) fn entries_get(map: &DashMap<Vec<u8>, CacheEntry>, key: &[u8]) -> (value: Option<
    CacheEntry,
>)
    ensures
        value == if cache_entries(*map).contains_key(key@) {
            Some(cache_entries(*map)[key@])
        } else {
            None
        },
{
    map.get(key).map(|entry| *entry)
}

/// Trusted: `DashMap::insert` keeps the value for the key, in place of any
/// value kept for it before, and leaves the other entries alone.
#[verifier::external_body]
pub(crate) fn entries_insert(map: &mut DashMap<Vec<u8>, CacheEntry>, key: Vec<u8>, value: CacheEntry)
    ensures
        cache_entries(*final(map)) == cache_entries(*old(map)).insert(key@, value),
{
    map.insert(key, value);
}

/// Trusted: `DashMap::remove` drops the key with its value, if the map has
/// it, and leaves the other entries alone.
#[verifier::external_body]
pub(crate) fn entries_remove(map: &mut DashMap<Vec<u8>, CacheEntry>, key: &[u8])
    ensures
        cache_entries(*final(map)) == cache_entries(*old(map)).remove(key@),
{
    map.remove(key);
}

/// Trusted: `DashMap::len` counts the entries.
#[verifier::external_body]
pub(crate) fn entries_len(map: &DashMap<Vec<u8>, CacheEntry>) -> (len: usize)
    ensures
        len == cache_entries(*map).dom().len(),
{
    map.len()
}

/// Trusted: `DashMap::clear` drops every entry.
#[verifier::external_body]
pub(crate) fn entries_clear(map: &mut DashMap<Vec<u8>, CacheEntry>)
    ensures
        cache_entries(*final(map)) == no_entries(),
{
    map.clear();
}

/// Trusted: `DashMap::iter` visits every entry once, in an order that is
/// not fixed; the keys are copied out in the order of the visit.
#[verifier::external_body]
pub(crate) fn entries_keys(map: &DashMap<Vec<u8>, CacheEntry>) -> (keys: Vec<Vec<u8>>)
    ensures
        paths_view(keys@).no_duplicates() && paths_view(keys@).to_set() == cache_entries(
            *map,
        ).dom(),
{
    map.iter().map(|entry| entry.key().clone()).collect()
}

/// The paths listed for each directory in a map of the parent index.
pub uninterp spec fn directory_buckets(map: DashMap<Vec<u8>, Vec<Vec<u8>>>) -> Map<
    Seq<u8>,
    Seq<Seq<u8>>,
>;

/// The parent index without a directory.
pub open spec fn no_buckets() -> Map<Seq<u8>, Seq<Seq<u8>>> {
    Map::empty()
}

/// Trusted: `DashMap::new` makes a map without entries.
#[verifier::external_body]
pub(crate) fn buckets_new() -> (fresh: DashMap<Vec<u8>, Vec<Vec<u8>>>)
    ensures
        directory_buckets(fresh) == no_buckets(),
{
    DashMap::new()
}

/// Trusted: `DashMap::get` finds the value kept for a key, if the map has
/// the key; the bucket is copied out.
#[verifier::external_body]
pub(crate) fn buckets_get(map: &DashMap<Vec<u8>, Vec<Vec<u8>>>, key: &[u8]) -> (bucket: Option<
    Vec<Vec<u8>>,
>)
    ensures
        bucket_view(bucket) == if directory_buckets(*map).contains_key(key@) {
            Some(directory_buckets(*map)[key@])
        } else {
            None
        },
{
    map.get(key).map(|entry| entry.value().clone())
}

/// Trusted: `DashMap::insert` keeps the value for the key, in place of any
/// value kept for it before, and leaves the other entries alone.
#[verifier::external_body]
pub(crate) fn buckets_insert(
    map: &mut DashMap<Vec<u8>, Vec<Vec<u8>>>,
    key: Vec<u8>,
    bucket: Vec<Vec<u8>>,
)
    ensures
        directory_buckets(*final(map)) == directory_buckets(*old(map)).insert(
            key@,
            paths_view(bucket@),
        ),
{
    map.insert(key, bucket);
}

/// Trusted: `DashMap::remove` drops the key with its value, if the map has
/// it, and leaves the other entries alone.
#[verifier::external_body]
pub(crate) fn buckets_remove(map: &mut DashMap<Vec<u8>, Vec<Vec<u8>>>, key: &[u8])
    ensures
        directory_buckets(*final(map)) == directory_buckets(*old(map)).remove(key@),
{
    map.remove(key);
}

/// Trusted: `DashMap::len` counts the entries.
#[verifier::external_body]
pub(crate) fn buckets_len(map: &DashMap<Vec<u8>, Vec<Vec<u8>>>) -> (len: usize)
    ensures
        len == directory_buckets(*map).dom().len(),
{
    map.len()
}

/// Trusted: `DashMap::clear` drops every entry.
#[verifier::external_body]
pub(crate) fn buckets_clear(map: &mut DashMap<Vec<u8>, Vec<Vec<u8>>>)
    ensures
        directory_buckets(*final(map)) == no_buckets(),
{
    map.clear();
}

/// Trusted: `DashMap::iter` visits every entry once, in an order that is
/// not fixed; the keys are copied out in the order of the visit.
#[verifier::external_body]
pub(crate) fn buckets_keys(map: &DashMap<Vec<u8>, Vec<Vec<u8>>>) -> (keys: Vec<Vec<u8>>)
    ensures
        paths_view(keys@).no_duplicates() && paths_view(keys@).to_set() == directory_buckets(
            *map,
        ).dom(),
{
    map.iter().map(|entry| entry.key().clone()).collect()
}

} // verus!
