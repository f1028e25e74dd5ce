//! The hash cache with its parent index, and the enricher that works on it.

use vstd::prelude::*;
use dashmap::DashMap;
use crate::bucket::{
    all_but, bucket_has, bucket_without, keep, lemma_keep, lemma_keep_agree, lemma_keep_all,
    lemma_keep_twice,
};
use crate::clock::NANOS_PER_SEC;
use crate::event::{EnhancedFileEvent, SystemEvent, SystemEventType, SystemEventView};
use crate::hash::{file_fingerprint, HashEngine, HashError, HashResult, HashStrategy};
use crate::lru::{least_picked, pick_least};
use crate::maps::{
    bucket_view, buckets_clear, buckets_get, buckets_insert, buckets_keys, buckets_len,
    buckets_new, buckets_remove, cache_entries, directory_buckets, entries_clear, entries_get,
    entries_insert, entries_keys, entries_len, entries_new, entries_remove, no_buckets,
    no_entries, paths_view,
};
use crate::path::{
    depth, depth_of, is_under, is_within, lemma_parent_under, lemma_under_within, parent,
    parent_of, under, within,
};

verus! {

/// How the cache is set up.
#[derive(Debug, Clone, Copy, PartialEq, Eq, Structural)]
pub struct CacheConfig {
    /// Number of entries above which the cache evicts.
    pub max_entries: usize,
    /// Seconds for which an entry is good.
    pub ttl_seconds: u64,
    /// Whether to keep the parent index.
    pub enable_hierarchy: bool,
}

impl Default for CacheConfig {
    /// A million entries, an hour, with the parent index.
    fn default() -> (config: CacheConfig)
        ensures
            config == (CacheConfig { max_entries: 1000000, ttl_seconds: 3600, enable_hierarchy: true }),
    {
        CacheConfig { max_entries: 1000000, ttl_seconds: 3600, enable_hierarchy: true }
    }
}

/// What the cache keeps for a path.
#[derive(Debug, Clone, Copy, PartialEq, Eq, Structural)]
pub struct CacheEntry {
    pub hash: HashResult,
    /// When the entry was made, in nanoseconds since the Unix epoch.
    pub timestamp: u64,
    /// How often the entry was made or used; it stops at `u32::MAX`.
    pub access_count: u32,
    /// Number of components of the path, at most `u16::MAX`.
    pub directory_level: u16,
}

/// Counters of the cache.
#[derive(Debug, Clone, Copy, PartialEq, Eq, Structural)]
pub struct DetailedCacheStats {
    /// Number of entries.
    pub entry_count: usize,
    /// Number of directories in the parent index.
    pub directory_count: usize,
    /// Number of entries above which the cache evicts.
    pub capacity: usize,
    pub ttl_seconds: u64,
}

/// The entries of a cache and its parent index.
pub type Entries = Map<Seq<u8>, CacheEntry>;

/// The parent index: for a directory, the paths of the entries that lie in
/// it.
pub type Buckets = Map<Seq<u8>, Seq<Seq<u8>>>;

/// Every entry whose path lies in a directory is listed in the bucket of
/// that directory.
pub open spec fn index_holds(entries: Entries, buckets: Buckets) -> bool {
    forall|p: Seq<u8>| #[trigger]
        entries.contains_key(p) ==> (parent(p) matches Some(d) ==> buckets.contains_key(d)
            && buckets[d].contains(p))
}

/// Every bucket lists each path once, and only paths that lie in its
/// directory.
pub open spec fn buckets_tidy(buckets: Buckets) -> bool {
    forall|d: Seq<u8>| #[trigger]
        buckets.contains_key(d) ==> buckets[d].no_duplicates() && forall|i: int|
            0 <= i < buckets[d].len() ==> parent(#[trigger] buckets[d][i]) == Some(d)
}

/// The age of an entry in whole seconds at time `now`; an entry from the
/// future has age 0.
pub open spec fn age_secs(now: u64, timestamp: u64) -> u64 {
    if now >= timestamp {
        ((now - timestamp) / (NANOS_PER_SEC as int)) as u64
    } else {
        0
    }
}

/// Whether the cache answers for an event at `path` with timestamp
/// `event_timestamp` at time `now`: it has an entry for the path that is at
/// most `ttl_seconds` old and no older than the event.
pub open spec fn is_hit(
    entries: Entries,
    ttl_seconds: u64,
    path: Seq<u8>,
    event_timestamp: u64,
    now: u64,
) -> bool {
    &&& entries.contains_key(path)
    &&& age_secs(now, entries[path].timestamp) <= ttl_seconds
    &&& entries[path].timestamp >= event_timestamp
}

/// An entry after one more use.
pub open spec fn used_once_more(entry: CacheEntry) -> CacheEntry {
    CacheEntry {
        access_count: if entry.access_count < u32::MAX {
            (entry.access_count + 1) as u32
        } else {
            u32::MAX
        },
        ..entry
    }
}

/// The entry made for a path at time `now`.
pub open spec fn fresh_entry(path: Seq<u8>, hash: HashResult, now: u64) -> CacheEntry {
    CacheEntry { hash, timestamp: now, access_count: 1, directory_level: depth(path) }
}

/// The parent index after a path was entered: the path is listed in the
/// bucket of its directory, at the end unless it is listed already.
pub open spec fn listed(buckets: Buckets, path: Seq<u8>) -> Buckets {
    match parent(path) {
        None => buckets,
        Some(d) => if !buckets.contains_key(d) {
            buckets.insert(d, seq![path])
        } else if buckets[d].contains(path) {
            buckets
        } else {
            buckets.insert(d, buckets[d].push(path))
        },
    }
}

/// The parent index after a path left the cache: the path is no longer
/// listed in the bucket of its directory.
pub open spec fn unlisted(buckets: Buckets, path: Seq<u8>) -> Buckets {
    match parent(path) {
        None => buckets,
        Some(d) => if buckets.contains_key(d) {
            buckets.insert(d, keep(buckets[d], all_but(path)))
        } else {
            buckets
        },
    }
}

/// The parent index after the paths in `gone` left the cache: no bucket
/// lists them any longer.
pub open spec fn unlisted_all(buckets: Buckets, gone: Set<Seq<u8>>) -> Buckets {
    Map::new(
        |d: Seq<u8>| buckets.contains_key(d),
        |d: Seq<u8>| keep(buckets[d], gone.complement()),
    )
}

/// The paths among those seen that meet a condition.
pub open spec fn seen_where(seen: Seq<Seq<u8>>, cond: spec_fn(Seq<u8>) -> bool) -> Set<Seq<u8>> {
    Set::new(|p: Seq<u8>| cond(p) && seen.contains(p))
}

/// Before any path is seen, none meets the condition.
pub proof fn lemma_seen_none(all: Seq<Seq<u8>>, cond: spec_fn(Seq<u8>) -> bool)
    ensures
        seen_where(all.take(0), cond) == Set::<Seq<u8>>::empty(),
{
    assert(seen_where(all.take(0), cond) =~= Set::<Seq<u8>>::empty());
}

/// One more path seen adds that path, if it meets the condition.
pub proof fn lemma_seen_next(all: Seq<Seq<u8>>, i: int, cond: spec_fn(Seq<u8>) -> bool)
    requires
        0 <= i < all.len(),
    ensures
        seen_where(all.take(i + 1), cond) == if cond(all[i]) {
            seen_where(all.take(i), cond).insert(all[i])
        } else {
            seen_where(all.take(i), cond)
        },
        seen_where(all.take(i), cond).finite(),
{
    let seen = all.take(i);
    let next = all.take(i + 1);
    assert(next =~= seen.push(all[i]));
    assert forall|p: Seq<u8>| next.contains(p) <==> seen.contains(p) || p == all[i] by {
        if seen.contains(p) {
            let j = choose|j: int| 0 <= j < seen.len() && seen[j] == p;
            assert(next[j] == p);
        }
        if p == all[i] {
            assert(next[i] == p);
        }
    }
    assert(seen_where(next, cond) =~= if cond(all[i]) {
        seen_where(seen, cond).insert(all[i])
    } else {
        seen_where(seen, cond)
    });
    assert(seen_where(seen, cond).subset_of(seen.to_set()));
    vstd::seq_lib::seq_to_set_is_finite(seen);
    vstd::set_lib::lemma_len_subset(seen_where(seen, cond), seen.to_set());
}

/// Whether an entry is older than `max_age` nanoseconds at time `now`.
pub open spec fn is_expired(entry: CacheEntry, now: u64, max_age: u64) -> bool {
    now - entry.timestamp > max_age
}

/// The paths of the entries that are older than `max_age` at time `now`.
pub open spec fn expired_paths(entries: Entries, now: u64, max_age: u64) -> Set<Seq<u8>> {
    Set::new(|p: Seq<u8>| entries.contains_key(p) && is_expired(entries[p], now, max_age))
}

/// The parent index without the buckets that list nothing.
pub open spec fn without_empty(buckets: Buckets) -> Buckets {
    buckets.restrict(Set::new(|d: Seq<u8>| buckets[d].len() > 0))
}

/// Unlisting the paths of a set and then one more path is unlisting the set
/// with that path.
pub proof fn lemma_unlist_step(buckets: Buckets, gone: Set<Seq<u8>>, path: Seq<u8>)
    requires
        buckets_tidy(buckets),
    ensures
        unlisted(unlisted_all(buckets, gone), path) == unlisted_all(buckets, gone.insert(path)),
{
    let before = unlisted_all(buckets, gone);
    let after = unlisted_all(buckets, gone.insert(path));
    assert forall|d: Seq<u8>| buckets.contains_key(d) implies #[trigger] unlisted(before, path)[d]
        == after[d] by {
        if parent(path) == Some(d) {
            lemma_keep_twice(buckets[d], gone.complement(), all_but(path));
            assert(gone.complement().intersect(all_but(path)) =~= gone.insert(path).complement());
        } else {
            assert forall|i: int| 0 <= i < buckets[d].len() implies gone.complement().contains(
                buckets[d][i],
            ) == gone.insert(path).complement().contains(buckets[d][i]) by {
                assert(parent(buckets[d][i]) == Some(d));
            }
            lemma_keep_agree(buckets[d], gone.complement(), gone.insert(path).complement());
        }
    }
    assert(unlisted(before, path) =~= after);
}

/// Unlisting leaves buckets tidy, and unlisting nothing changes nothing.
pub proof fn lemma_unlisted_all(buckets: Buckets, gone: Set<Seq<u8>>)
    requires
        buckets_tidy(buckets),
    ensures
        buckets_tidy(unlisted_all(buckets, gone)),
        unlisted_all(buckets, Set::<Seq<u8>>::empty()) == buckets,
        unlisted_all(buckets, gone).dom() == buckets.dom(),
        forall|d: Seq<u8>, p: Seq<u8>|
            buckets.contains_key(d) ==> (#[trigger] unlisted_all(buckets, gone)[d].contains(p)
                <==> buckets[d].contains(p) && !gone.contains(p)),
{
    let after = unlisted_all(buckets, gone);
    assert forall|d: Seq<u8>| #[trigger] after.contains_key(d) implies after[d].no_duplicates()
        && forall|i: int| 0 <= i < after[d].len() ==> parent(#[trigger] after[d][i]) == Some(d) by {
        lemma_keep(buckets[d], gone.complement());
        assert forall|i: int| 0 <= i < after[d].len() implies parent(#[trigger] after[d][i])
            == Some(d) by {
            assert(after[d].contains(after[d][i]));
            let j = choose|j: int| 0 <= j < buckets[d].len() && buckets[d][j] == after[d][i];
        }
    }
    assert forall|d: Seq<u8>| buckets.contains_key(d) implies #[trigger] unlisted_all(
        buckets,
        Set::<Seq<u8>>::empty(),
    )[d] == buckets[d] by {
        lemma_keep_all(buckets[d], Set::<Seq<u8>>::empty().complement());
    }
    assert(unlisted_all(buckets, Set::<Seq<u8>>::empty()) =~= buckets);
    assert(after.dom() =~= buckets.dom());
    assert forall|d: Seq<u8>, p: Seq<u8>| buckets.contains_key(d) implies (#[trigger] unlisted_all(
        buckets,
        gone,
    )[d].contains(p) <==> buckets[d].contains(p) && !gone.contains(p)) by {
        lemma_keep(buckets[d], gone.complement());
    }
}

/// The number of entries that an eviction leaves: four fifths of
/// `max_entries`, rounded down.
pub open spec fn evict_target(max_entries: usize) -> nat {
    (max_entries * 4 / 5) as nat
}

/// What an eviction of `n` entries does: from a sample of `2 * n` entries
/// of the cache, or of all if it has fewer, the paths in `gone` are `n`
/// whose entries were used no more often than any other entry of the
/// sample.
pub open spec fn eviction(before: Entries, sample: Set<Seq<u8>>, gone: Set<Seq<u8>>, n: nat) -> bool {
    &&& gone.finite()
    &&& gone.len() == n
    &&& gone.subset_of(sample)
    &&& sample.subset_of(before.dom())
    &&& sample.finite()
    &&& sample.len() == if 2 * n <= before.dom().len() {
        2 * n
    } else {
        before.dom().len()
    }
    &&& forall|g: Seq<u8>, s: Seq<u8>|
        #![trigger gone.contains(g), sample.contains(s)]
        gone.contains(g) && sample.contains(s) && !gone.contains(s) ==> before[g].access_count
            <= before[s].access_count
}

/// How cache and parent index stand after an eviction, if one was due. It
/// is due when there are more entries than `max_entries`; it then takes out
/// as many as there are above the target, unlists their paths, and drops
/// the buckets that list nothing afterwards.
pub open spec fn evicted_above(
    max_entries: usize,
    entries: Entries,
    buckets: Buckets,
    entries_after: Entries,
    buckets_after: Buckets,
) -> bool {
    if entries.dom().len() <= max_entries {
        entries_after == entries && buckets_after == buckets
    } else {
        exists|sample: Set<Seq<u8>>, gone: Set<Seq<u8>>|
            {
                &&& #[trigger] eviction(
                    entries,
                    sample,
                    gone,
                    (entries.dom().len() - evict_target(max_entries)) as nat,
                )
                &&& entries_after == entries.remove_keys(gone)
                &&& buckets_after == without_empty(unlisted_all(buckets, gone))
            }
    }
}

/// The paths at the picked places of a sample.
pub open spec fn victims_of(kv: Seq<Seq<u8>>, picked: Seq<usize>) -> Seq<Seq<u8>> {
    Seq::new(picked.len(), |j: int| kv[picked[j] as int])
}

/// Picking the least used of the first `m` keys is an eviction.
pub proof fn lemma_picked_is_eviction(
    entries: Entries,
    kv: Seq<Seq<u8>>,
    m: int,
    counts: Seq<u32>,
    picked: Seq<usize>,
)
    requires
        entries.dom().finite(),
        kv.no_duplicates(),
        kv.to_set() == entries.dom(),
        0 <= m <= kv.len() <= usize::MAX,
        m == if 2 * picked.len() <= kv.len() {
            2 * picked.len()
        } else {
            kv.len()
        },
        counts.len() == m,
        forall|j: int| 0 <= j < m ==> #[trigger] counts[j] == entries[kv[j]].access_count,
        least_picked(counts, picked),
    ensures
        victims_of(kv, picked).no_duplicates(),
        eviction(
            entries,
            kv.take(m).to_set(),
            victims_of(kv, picked).to_set(),
            picked.len(),
        ),
{
    let victims = victims_of(kv, picked);
    let gone = victims.to_set();
    let sample = kv.take(m).to_set();
    assert(victims.no_duplicates()) by {
        assert forall|a: int, b: int|
            0 <= a < victims.len() && 0 <= b < victims.len() && a != b implies victims[a]
            != victims[b] by {
            if a < b {
                assert(picked[a] < picked[b]);
            } else {
                assert(picked[b] < picked[a]);
            }
        }
    }
    victims.unique_seq_to_set();
    kv.unique_seq_to_set();
    assert(kv.take(m).no_duplicates());
    kv.take(m).unique_seq_to_set();
    vstd::seq_lib::seq_to_set_is_finite(victims);
    vstd::seq_lib::seq_to_set_is_finite(kv.take(m));
    assert(gone.subset_of(sample)) by {
        assert forall|g: Seq<u8>| gone.contains(g) implies sample.contains(g) by {
            let a = choose|a: int| 0 <= a < victims.len() && victims[a] == g;
            assert(kv.take(m)[picked[a] as int] == g);
        }
    }
    assert(sample.subset_of(entries.dom())) by {
        assert forall|s: Seq<u8>| sample.contains(s) implies entries.dom().contains(s) by {
            let b = choose|b: int| 0 <= b < m && kv.take(m)[b] == s;
            assert(kv[b] == s);
            assert(kv.to_set().contains(s));
        }
    }
    assert forall|g: Seq<u8>, s: Seq<u8>|
        #![trigger gone.contains(g), sample.contains(s)]
        gone.contains(g) && sample.contains(s) && !gone.contains(s) implies entries[g].access_count
        <= entries[s].access_count by {
        let a = choose|a: int| 0 <= a < victims.len() && victims[a] == g;
        let b = choose|b: int| 0 <= b < m && kv.take(m)[b] == s;
        assert(kv[b] == s);
        if picked.contains(b as usize) {
            let c = choose|c: int| 0 <= c < picked.len() && picked[c] == b as usize;
            assert(picked[c] as int == b);
            assert(victims[c] == kv[picked[c] as int]);
        }
        assert(counts[picked[a] as int] <= counts[b]);
    }
}

/// How cache and parent index stand after a fingerprint was stored for a
/// path at time `now`: the path has a fresh entry and is listed in the
/// bucket of its directory; and if the cache then has more than
/// `max_entries` entries, an eviction has brought it down to the target.
pub open spec fn stored(
    config: CacheConfig,
    entries: Entries,
    buckets: Buckets,
    entries_after: Entries,
    buckets_after: Buckets,
    path: Seq<u8>,
    hash: HashResult,
    now: u64,
) -> bool {
    evicted_above(
        config.max_entries,
        entries.insert(path, fresh_entry(path, hash, now)),
        if config.enable_hierarchy {
            listed(buckets, path)
        } else {
            buckets
        },
        entries_after,
        buckets_after,
    )
}

/// What a caller found of a file: the size in its metadata, if it could be
/// examined, and its bytes, if they could be read.
#[derive(Debug, Clone, PartialEq, Eq)]
pub struct FileProbe {
    pub stat_len: Option<u64>,
    pub contents: Option<Vec<u8>>,
}

impl FileProbe {
    /// The bytes that were read, if any.
    pub open spec fn bytes(self) -> Option<Seq<u8>> {
        match self.contents {
            Some(b) => Some(b@),
            None => None,
        }
    }
}

/// Whether an event calls for a fingerprint: a file was created or modified.
pub open spec fn needs_hash(event: SystemEventView) -> bool {
    !event.is_directory && (event.event_type == SystemEventType::Created || event.event_type
        == SystemEventType::Modified)
}

/// Whether an event takes a subtree out of the cache: a directory was
/// deleted.
pub open spec fn drops_subtree(event: SystemEventView) -> bool {
    event.is_directory && event.event_type == SystemEventType::Deleted
}

/// What enriching an event at time `now` does to cache and parent index,
/// and which fingerprint it gives.
///
/// - A deleted directory takes its subtree out of the cache; any other
///   event that calls for no fingerprint changes nothing. Both give none.
/// - A created or modified file that the cache answers for gives the cached
///   fingerprint, and its entry counts one more use.
/// - For any other created or modified file, `read` is called with the
///   path, and the file is hashed from what it returns. A fingerprint is the
///   result and is stored; a failure gives none and changes nothing.
pub open spec fn enriched<F: Fn(&Vec<u8>) -> FileProbe>(
    config: CacheConfig,
    strategy: HashStrategy,
    entries: Entries,
    buckets: Buckets,
    entries_after: Entries,
    buckets_after: Buckets,
    event: &SystemEvent,
    now: u64,
    hash: Option<HashResult>,
    read: &F,
) -> bool {
    let path = event.path@;
    if !needs_hash(event@) {
        &&& hash is None
        &&& entries_after == if drops_subtree(event@) {
            entries.restrict(Set::new(|p: Seq<u8>| !is_under(path, p)))
        } else {
            entries
        }
        &&& buckets_after == if drops_subtree(event@) {
            buckets.restrict(Set::new(|d: Seq<u8>| !is_within(path, d)))
        } else {
            buckets
        }
    } else if is_hit(entries, config.ttl_seconds, path, event.timestamp, now) {
        &&& hash == Some(entries[path].hash)
        &&& entries_after == entries.insert(path, used_once_more(entries[path]))
        &&& buckets_after == buckets
    } else {
        exists|probe: FileProbe|
            {
                &&& #[trigger] read.ensures((&event.path,), probe)
                &&& match file_fingerprint(strategy, path, probe.stat_len, probe.bytes()) {
                    Ok(h) => hash == Some(h) && stored(
                        config,
                        entries,
                        buckets,
                        entries_after,
                        buckets_after,
                        path,
                        h,
                        now,
                    ),
                    Err(_) => hash is None && entries_after == entries && buckets_after == buckets,
                }
            }
    }
}

/// After the subtree of `root` was taken out of the cache, no path below
/// `root` is answered from the cache, whenever it is asked for.
pub proof fn lemma_invalidated_misses(
    entries: Entries,
    root: Seq<u8>,
    path: Seq<u8>,
    ttl_seconds: u64,
    event_timestamp: u64,
    now: u64,
)
    requires
        is_under(root, path),
    ensures
        !is_hit(
            entries.restrict(Set::new(|p: Seq<u8>| !is_under(root, p))),
            ttl_seconds,
            path,
            event_timestamp,
            now,
        ),
{
}

/// Taking a subtree out twice is taking it out once.
pub proof fn lemma_invalidate_twice(entries: Entries, buckets: Buckets, root: Seq<u8>)
    ensures
        entries.restrict(Set::new(|p: Seq<u8>| !is_under(root, p))).restrict(
            Set::new(|p: Seq<u8>| !is_under(root, p)),
        ) == entries.restrict(Set::new(|p: Seq<u8>| !is_under(root, p))),
        buckets.restrict(Set::new(|d: Seq<u8>| !is_within(root, d))).restrict(
            Set::new(|d: Seq<u8>| !is_within(root, d)),
        ) == buckets.restrict(Set::new(|d: Seq<u8>| !is_within(root, d))),
{
    assert(entries.restrict(Set::new(|p: Seq<u8>| !is_under(root, p))).restrict(
        Set::new(|p: Seq<u8>| !is_under(root, p)),
    ) =~= entries.restrict(Set::new(|p: Seq<u8>| !is_under(root, p))));
    assert(buckets.restrict(Set::new(|d: Seq<u8>| !is_within(root, d))).restrict(
        Set::new(|d: Seq<u8>| !is_within(root, d)),
    ) =~= buckets.restrict(Set::new(|d: Seq<u8>| !is_within(root, d))));
}

/// The enricher: a hash engine and the cache of its results, with an index
/// from each directory to the cached paths in it.
pub struct FileEventProcessor {
    hash_engine: HashEngine,
    hash_cache: DashMap<Vec<u8>, CacheEntry>,
    directory_cache: DashMap<Vec<u8>, Vec<Vec<u8>>>,
    config: CacheConfig,
}

impl FileEventProcessor {
    /// The entries of the cache.
    pub closed spec fn entries(&self) -> Entries {
        cache_entries(self.hash_cache)
    }

    /// The parent index.
    pub closed spec fn buckets(&self) -> Buckets {
        directory_buckets(self.directory_cache)
    }

    /// The configuration.
    pub closed spec fn config(&self) -> CacheConfig {
        self.config
    }

    /// The strategy of the hash engine.
    pub closed spec fn strategy(&self) -> HashStrategy {
        self.hash_engine.spec_strategy()
    }

    /// The cache has finitely many entries and directories, its buckets are
    /// tidy, and the parent index holds every entry if it is kept, and is
    /// empty if it is not.
    pub open spec fn wf(&self) -> bool {
        &&& self.entries().dom().finite()
        &&& self.buckets().dom().finite()
        &&& buckets_tidy(self.buckets())
        &&& self.config().enable_hierarchy ==> index_holds(self.entries(), self.buckets())
        &&& !self.config().enable_hierarchy ==> self.buckets() == no_buckets()
    }

    /// A processor with the default configuration and an empty cache.
    pub fn new() -> (processor: FileEventProcessor)
        ensures
            processor.wf(),
            processor.entries() == no_entries(),
            processor.buckets() == no_buckets(),
            processor.config() == (CacheConfig {
                max_entries: 1000000,
                ttl_seconds: 3600,
                enable_hierarchy: true,
            }),
            processor.strategy() == HashStrategy::Hybrid,
    {
        FileEventProcessor::with_config(CacheConfig::default())
    }

    /// A processor with the given configuration and an empty cache.
    pub fn with_config(config: CacheConfig) -> (processor: FileEventProcessor)
        ensures
            processor.wf(),
            processor.entries() == no_entries(),
            processor.buckets() == no_buckets(),
            processor.config() == config,
            processor.strategy() == HashStrategy::Hybrid,
    {
        FileEventProcessor {
            hash_engine: HashEngine::new(),
            hash_cache: entries_new(),
            directory_cache: buckets_new(),
            config,
        }
    }

    /// Number of entries, and the number above which the cache evicts.
    pub fn cache_stats(&self) -> (stats: (usize, usize))
        ensures
            stats.0 == self.entries().dom().len(),
            stats.1 == self.config().max_entries,
    {
        (entries_len(&self.hash_cache), self.config.max_entries)
    }

    /// The counters of the cache.
    pub fn detailed_cache_stats(&self) -> (stats: DetailedCacheStats)
        ensures
            stats.entry_count == self.entries().dom().len(),
            stats.directory_count == self.buckets().dom().len(),
            stats.capacity == self.config().max_entries,
            stats.ttl_seconds == self.config().ttl_seconds,
    {
        DetailedCacheStats {
            entry_count: entries_len(&self.hash_cache),
            directory_count: buckets_len(&self.directory_cache),
            capacity: self.config.max_entries,
            ttl_seconds: self.config.ttl_seconds,
        }
    }

    /// Empties the cache and the parent index.
    pub fn clear_cache(&mut self)
        ensures
            final(self).wf(),
            final(self).entries() == no_entries(),
            final(self).buckets() == no_buckets(),
            final(self).config() == old(self).config(),
            final(self).strategy() == old(self).strategy(),
    {
        entries_clear(&mut self.hash_cache);
        buckets_clear(&mut self.directory_cache);
    }

    /// The entry for a path, if the cache has one.
    pub fn cached(&self, path: &[u8]) -> (entry: Option<CacheEntry>)
        ensures
            entry == if self.entries().contains_key(path@) {
                Some(self.entries()[path@])
            } else {
                None
            },
    {
        entries_get(&self.hash_cache, path)
    }

    /// The paths listed for a directory, if the parent index has it.
    pub fn children(&self, dir: &[u8]) -> (bucket: Option<Vec<Vec<u8>>>)
        ensures
            bucket_view(bucket) == if self.buckets().contains_key(dir@) {
                Some(self.buckets()[dir@])
            } else {
                None
            },
    {
        buckets_get(&self.directory_cache, dir)
    }

    /// Takes one path out of the cache and out of the bucket of its
    /// directory.
    fn remove_entry(&mut self, path: &[u8])
        requires
            old(self).wf(),
        ensures
            final(self).wf(),
            final(self).config() == old(self).config(),
            final(self).strategy() == old(self).strategy(),
            final(self).entries() == old(self).entries().remove(path@),
            final(self).buckets() == unlisted(old(self).buckets(), path@),
    {
        entries_remove(&mut self.hash_cache, path);
        if let Some(dir) = parent_of(path) {
            if let Some(bucket) = buckets_get(&self.directory_cache, dir.as_slice()) {
                let rest = bucket_without(&bucket, path);
                proof {
                    lemma_keep(old(self).buckets()[dir@], all_but(path@));
                    let kept = keep(old(self).buckets()[dir@], all_but(path@));
                    assert forall|i: int| 0 <= i < kept.len() implies parent(#[trigger] kept[i])
                        == Some(dir@) by {
                        assert(kept.contains(kept[i]));
                        let j = choose|j: int|
                            0 <= j < old(self).buckets()[dir@].len() && old(self).buckets()[dir@][j]
                                == kept[i];
                    }
                }
                buckets_insert(&mut self.directory_cache, dir, rest);
                proof {
                    assert forall|p: Seq<u8>| #[trigger]
                        self.entries().contains_key(p) && self.config().enable_hierarchy implies (
                    parent(p) matches Some(d) ==> self.buckets().contains_key(d)
                        && self.buckets()[d].contains(p)) by {
                        assert(old(self).entries().contains_key(p));
                    }
                }
            }
        }
    }

    /// Puts an entry for a path into the cache and lists the path in the
    /// bucket of its directory, if the parent index is kept.
    fn insert_entry(&mut self, path: &[u8], entry: CacheEntry)
        requires
            old(self).wf(),
        ensures
            final(self).wf(),
            final(self).config() == old(self).config(),
            final(self).strategy() == old(self).strategy(),
            final(self).entries() == old(self).entries().insert(path@, entry),
            final(self).buckets() == if old(self).config().enable_hierarchy {
                listed(old(self).buckets(), path@)
            } else {
                old(self).buckets()
            },
    {
        entries_insert(&mut self.hash_cache, vstd::slice::slice_to_vec(path), entry);
        if self.config.enable_hierarchy {
            if let Some(dir) = parent_of(path) {
                match buckets_get(&self.directory_cache, dir.as_slice()) {
                    None => {
                        let mut bucket: Vec<Vec<u8>> = Vec::new();
                        bucket.push(vstd::slice::slice_to_vec(path));
                        proof {
                            assert(paths_view(bucket@) =~= seq![path@]);
                        }
                        buckets_insert(&mut self.directory_cache, dir, bucket);
                    },
                    Some(bucket) => {
                        if !bucket_has(&bucket, path) {
                            let mut bucket = bucket;
                            let ghost before = paths_view(bucket@);
                            bucket.push(vstd::slice::slice_to_vec(path));
                            proof {
                                assert(paths_view(bucket@) =~= before.push(path@));
                            }
                            buckets_insert(&mut self.directory_cache, dir, bucket);
                        }
                    },
                }
            }
            proof {
                let old_b = old(self).buckets();
                let new_b = self.buckets();
                assert forall|d: Seq<u8>| #[trigger] new_b.contains_key(d) implies new_b[d].no_duplicates()
                    && forall|i: int|
                    0 <= i < new_b[d].len() ==> parent(#[trigger] new_b[d][i]) == Some(d) by {
                    if old_b.contains_key(d) {
                        assert(old_b[d].no_duplicates());
                    }
                }
                assert forall|p: Seq<u8>| #[trigger] self.entries().contains_key(p) implies (parent(
                    p,
                ) matches Some(d) ==> new_b.contains_key(d) && new_b[d].contains(p)) by {
                    if p != path@ {
                        assert(old(self).entries().contains_key(p));
                        if let Some(d) = parent(p) {
                            let i = choose|i: int| 0 <= i < old_b[d].len() && old_b[d][i] == p;
                            assert(new_b[d][i] == p);
                        }
                    } else {
                        if let Some(d) = parent(p) {
                            if old_b.contains_key(d) && old_b[d].contains(p) {
                            } else if old_b.contains_key(d) {
                                assert(new_b[d][old_b[d].len() as int] == p);
                            } else {
                                assert(new_b[d][0] == p);
                            }
                        }
                    }
                }
            }
        }
    }

    /// Takes out of the cache every entry whose path lies below `dir`, and
    /// out of the parent index `dir` and every directory below it. Entries
    /// whose paths merely begin with the bytes of `dir` stay. A second call
    /// changes nothing.
    pub fn invalidate_directory(&mut self, dir: &[u8])
        requires
            old(self).wf(),
        ensures
            final(self).wf(),
            final(self).config() == old(self).config(),
            final(self).strategy() == old(self).strategy(),
            final(self).entries() == old(self).entries().restrict(
                Set::new(|p: Seq<u8>| !is_under(dir@, p)),
            ),
            final(self).buckets() == old(self).buckets().restrict(
                Set::new(|d: Seq<u8>| !is_within(dir@, d)),
            ),
    {
        let keys = entries_keys(&self.hash_cache);
        let ghost below = |p: Seq<u8>| is_under(dir@, p);
        let mut i: usize = 0;
        while i < keys.len()
            invariant
                i <= keys@.len(),
                below == (|p: Seq<u8>| is_under(dir@, p)),
                paths_view(keys@).to_set() == old(self).entries().dom(),
                self.config() == old(self).config(),
                self.strategy() == old(self).strategy(),
                self.buckets() == old(self).buckets(),
                old(self).entries().dom().finite(),
                self.entries() == old(self).entries().remove_keys(
                    seen_where(paths_view(keys@).take(i as int), below),
                ),
            decreases keys@.len() - i,
        {
            proof {
                lemma_seen_next(paths_view(keys@), i as int, below);
            }
            if under(dir, keys[i].as_slice()) {
                entries_remove(&mut self.hash_cache, keys[i].as_slice());
            }
            proof {
                assert(self.entries() =~= old(self).entries().remove_keys(
                    seen_where(paths_view(keys@).take(i + 1), below),
                ));
            }
            i = i + 1;
        }
        proof {
            assert(paths_view(keys@).take(keys@.len() as int) =~= paths_view(keys@));
            assert forall|p: Seq<u8>| old(self).entries().contains_key(p) implies paths_view(
                keys@,
            ).contains(p) by {
                assert(paths_view(keys@).to_set().contains(p));
            }
            assert(self.entries() =~= old(self).entries().restrict(
                Set::new(|p: Seq<u8>| !is_under(dir@, p)),
            ));
        }
        let dirs = buckets_keys(&self.directory_cache);
        let ghost inside = |d: Seq<u8>| is_within(dir@, d);
        let mut k: usize = 0;
        while k < dirs.len()
            invariant
                k <= dirs@.len(),
                inside == (|d: Seq<u8>| is_within(dir@, d)),
                paths_view(dirs@).to_set() == old(self).buckets().dom(),
                self.config() == old(self).config(),
                self.strategy() == old(self).strategy(),
                self.entries() == old(self).entries().restrict(
                    Set::new(|p: Seq<u8>| !is_under(dir@, p)),
                ),
                old(self).buckets().dom().finite(),
                self.buckets() == old(self).buckets().remove_keys(
                    seen_where(paths_view(dirs@).take(k as int), inside),
                ),
            decreases dirs@.len() - k,
        {
            proof {
                lemma_seen_next(paths_view(dirs@), k as int, inside);
            }
            if within(dir, dirs[k].as_slice()) {
                buckets_remove(&mut self.directory_cache, dirs[k].as_slice());
            }
            proof {
                assert(self.buckets() =~= old(self).buckets().remove_keys(
                    seen_where(paths_view(dirs@).take(k + 1), inside),
                ));
            }
            k = k + 1;
        }
        proof {
            assert(paths_view(dirs@).take(dirs@.len() as int) =~= paths_view(dirs@));
            assert forall|d: Seq<u8>| old(self).buckets().contains_key(d) implies paths_view(
                dirs@,
            ).contains(d) by {
                assert(paths_view(dirs@).to_set().contains(d));
            }
            assert(self.buckets() =~= old(self).buckets().restrict(
                Set::new(|d: Seq<u8>| !is_within(dir@, d)),
            ));
            vstd::set_lib::lemma_len_subset(self.entries().dom(), old(self).entries().dom());
            vstd::set_lib::lemma_len_subset(self.buckets().dom(), old(self).buckets().dom());
            assert(buckets_tidy(self.buckets())) by {
                assert forall|d: Seq<u8>| #[trigger] self.buckets().contains_key(d) implies self.buckets()[d].no_duplicates()
                    && forall|i: int|
                    0 <= i < self.buckets()[d].len() ==> parent(#[trigger] self.buckets()[d][i])
                        == Some(d) by {
                    assert(old(self).buckets().contains_key(d));
                }
            }
            if self.config().enable_hierarchy {
                assert forall|p: Seq<u8>| #[trigger] self.entries().contains_key(p) implies (parent(
                    p,
                ) matches Some(d) ==> self.buckets().contains_key(d) && self.buckets()[d].contains(
                    p,
                )) by {
                    assert(old(self).entries().contains_key(p));
                    if let Some(d) = parent(p) {
                        lemma_parent_under(p);
                        if is_within(dir@, d) {
                            lemma_under_within(dir@, d, p);
                        }
                    }
                }
            } else {
                assert(self.buckets() =~= no_buckets());
            }
        }
    }

    /// Drops the buckets of the parent index that list nothing.
    fn drop_empty_buckets(&mut self)
        requires
            old(self).wf(),
        ensures
            final(self).wf(),
            final(self).config() == old(self).config(),
            final(self).strategy() == old(self).strategy(),
            final(self).entries() == old(self).entries(),
            final(self).buckets() == without_empty(old(self).buckets()),
    {
        let dirs = buckets_keys(&self.directory_cache);
        let ghost before = self.buckets();
        let ghost bare = |d: Seq<u8>| before.contains_key(d) && before[d].len() == 0;
        let mut k: usize = 0;
        proof {
            lemma_seen_none(paths_view(dirs@), bare);
            assert(self.buckets() =~= before.remove_keys(Set::empty()));
        }
        while k < dirs.len()
            invariant
                k <= dirs@.len(),
                before == old(self).buckets(),
                bare == (|d: Seq<u8>| before.contains_key(d) && before[d].len() == 0),
                paths_view(dirs@).to_set() == before.dom(),
                self.config() == old(self).config(),
                self.strategy() == old(self).strategy(),
                self.entries() == old(self).entries(),
                self.buckets() == before.remove_keys(
                    seen_where(paths_view(dirs@).take(k as int), bare),
                ),
            decreases dirs@.len() - k,
        {
            let dir = dirs[k].as_slice();
            proof {
                lemma_seen_next(paths_view(dirs@), k as int, bare);
                assert(paths_view(dirs@)[k as int] == dir@);
                assert(paths_view(dirs@).to_set().contains(dir@));
            }
            if let Some(bucket) = buckets_get(&self.directory_cache, dir) {
                if bucket.len() == 0 {
                    buckets_remove(&mut self.directory_cache, dir);
                }
            }
            proof {
                assert(self.buckets() =~= before.remove_keys(
                    seen_where(paths_view(dirs@).take(k + 1), bare),
                ));
            }
            k = k + 1;
        }
        proof {
            assert(paths_view(dirs@).take(dirs@.len() as int) =~= paths_view(dirs@));
            assert forall|d: Seq<u8>| before.contains_key(d) implies paths_view(dirs@).contains(
                d,
            ) by {
                assert(paths_view(dirs@).to_set().contains(d));
            }
            assert(self.buckets() =~= without_empty(before));
            vstd::set_lib::lemma_len_subset(self.buckets().dom(), before.dom());
            assert(buckets_tidy(self.buckets())) by {
                assert forall|d: Seq<u8>| #[trigger] self.buckets().contains_key(d) implies self.buckets()[d].no_duplicates()
                    && forall|i: int|
                    0 <= i < self.buckets()[d].len() ==> parent(#[trigger] self.buckets()[d][i])
                        == Some(d) by {
                    assert(before.contains_key(d));
                }
            }
            if self.config().enable_hierarchy {
                assert forall|p: Seq<u8>| #[trigger] self.entries().contains_key(p) implies (parent(
                    p,
                ) matches Some(d) ==> self.buckets().contains_key(d) && self.buckets()[d].contains(
                    p,
                )) by {
                    if let Some(d) = parent(p) {
                        assert(before[d].contains(p));
                    }
                }
            } else {
                assert(self.buckets() =~= no_buckets());
            }
        }
    }

    /// Takes out of the cache, at time `now`, every entry that is older than
    /// `max_age` nanoseconds; unlists their paths; and drops the buckets
    /// that list nothing afterwards.
    pub fn cleanup_cache_at(&mut self, now: u64, max_age: u64)
        requires
            old(self).wf(),
        ensures
            final(self).wf(),
            final(self).config() == old(self).config(),
            final(self).strategy() == old(self).strategy(),
            final(self).entries() == old(self).entries().remove_keys(
                expired_paths(old(self).entries(), now, max_age),
            ),
            final(self).buckets() == without_empty(
                unlisted_all(
                    old(self).buckets(),
                    expired_paths(old(self).entries(), now, max_age),
                ),
            ),
            forall|p: Seq<u8>|
                old(self).entries().contains_key(p) && old(self).entries()[p].timestamp + max_age
                    < now ==> !final(self).entries().contains_key(p),
    {
        let keys = entries_keys(&self.hash_cache);
        let ghost aged = |p: Seq<u8>|
            old(self).entries().contains_key(p) && is_expired(old(self).entries()[p], now, max_age);
        let mut i: usize = 0;
        proof {
            lemma_seen_none(paths_view(keys@), aged);
            lemma_unlisted_all(old(self).buckets(), Set::empty());
            assert(self.entries() =~= old(self).entries().remove_keys(Set::empty()));
        }
        while i < keys.len()
            invariant
                i <= keys@.len(),
                aged == (|p: Seq<u8>|
                    old(self).entries().contains_key(p) && is_expired(
                        old(self).entries()[p],
                        now,
                        max_age,
                    )),
                paths_view(keys@).to_set() == old(self).entries().dom(),
                paths_view(keys@).no_duplicates(),
                old(self).wf(),
                self.wf(),
                self.config() == old(self).config(),
                self.strategy() == old(self).strategy(),
                self.entries() == old(self).entries().remove_keys(
                    seen_where(paths_view(keys@).take(i as int), aged),
                ),
                self.buckets() == unlisted_all(
                    old(self).buckets(),
                    seen_where(paths_view(keys@).take(i as int), aged),
                ),
            decreases keys@.len() - i,
        {
            let ghost gone = seen_where(paths_view(keys@).take(i as int), aged);
            let key = keys[i].as_slice();
            proof {
                lemma_seen_next(paths_view(keys@), i as int, aged);
                assert(paths_view(keys@)[i as int] == key@);
                assert(paths_view(keys@).to_set().contains(key@));
                assert(!gone.contains(key@)) by {
                    if paths_view(keys@).take(i as int).contains(key@) {
                        let j = choose|j: int|
                            0 <= j < i && paths_view(keys@).take(i as int)[j] == key@;
                        assert(paths_view(keys@)[j] == paths_view(keys@)[i as int]);
                    }
                }
            }
            match entries_get(&self.hash_cache, key) {
                None => {},
                Some(entry) => {
                    if now > entry.timestamp && now - entry.timestamp > max_age {
                        self.remove_entry(key);
                        proof {
                            lemma_unlist_step(old(self).buckets(), gone, key@);
                            assert(self.entries() =~= old(self).entries().remove_keys(
                                gone.insert(key@),
                            ));
                        }
                    }
                },
            }
            i = i + 1;
        }
        let ghost gone = expired_paths(old(self).entries(), now, max_age);
        let ghost unlisted_now = unlisted_all(old(self).buckets(), gone);
        proof {
            assert(paths_view(keys@).take(keys@.len() as int) =~= paths_view(keys@));
            assert(seen_where(paths_view(keys@), aged) =~= gone) by {
                assert forall|p: Seq<u8>| gone.contains(p) implies paths_view(keys@).contains(p) by {
                    assert(paths_view(keys@).to_set().contains(p));
                }
            }
            lemma_unlisted_all(old(self).buckets(), gone);
        }
        self.drop_empty_buckets();
    }

    /// Takes out of the cache every entry that is older than `max_age`
    /// nanoseconds now. It does what [`FileEventProcessor::cleanup_cache_at`]
    /// does for some reading of the clock.
    pub fn cleanup_cache(&mut self, max_age: u64)
        requires
            old(self).wf(),
        ensures
            final(self).wf(),
            final(self).config() == old(self).config(),
            final(self).strategy() == old(self).strategy(),
            exists|now: u64|
                {
                    &&& final(self).entries() == old(self).entries().remove_keys(
                        #[trigger] expired_paths(old(self).entries(), now, max_age),
                    )
                    &&& final(self).buckets() == without_empty(
                        unlisted_all(
                            old(self).buckets(),
                            expired_paths(old(self).entries(), now, max_age),
                        ),
                    )
                },
    {
        let now = crate::clock::unix_nanos();
        self.cleanup_cache_at(now, max_age);
    }

    /// Brings the cache down to four fifths of `max_entries` if it has more
    /// entries than `max_entries`. Of the entries it meets first, twice as
    /// many as must go, those go that were used least; of equally used
    /// ones, those met first. Their paths are unlisted, and the buckets
    /// that list nothing afterwards are dropped.
    pub fn evict_lru(&mut self)
        requires
            old(self).wf(),
        ensures
            final(self).wf(),
            final(self).config() == old(self).config(),
            final(self).strategy() == old(self).strategy(),
            evicted_above(
                old(self).config().max_entries,
                old(self).entries(),
                old(self).buckets(),
                final(self).entries(),
                final(self).buckets(),
            ),
    {
        let len = entries_len(&self.hash_cache);
        if len <= self.config.max_entries {
            return ;
        }
        let target: usize = ((self.config.max_entries as u128 * 4) / 5) as usize;
        let n: usize = len - target;
        let keys = entries_keys(&self.hash_cache);
        let ghost kv = paths_view(keys@);
        proof {
            kv.unique_seq_to_set();
        }
        let m: usize = if n <= keys.len() / 2 {
            2 * n
        } else {
            keys.len()
        };
        let mut counts: Vec<u32> = Vec::new();
        let mut i: usize = 0;
        while i < m
            invariant
                i <= m <= keys@.len(),
                kv == paths_view(keys@),
                kv.to_set() == self.entries().dom(),
                counts@.len() == i,
                forall|j: int| 0 <= j < i ==> #[trigger] counts@[j] == self.entries()[kv[j]].access_count,
            decreases m - i,
        {
            proof {
                assert(kv[i as int] == keys@[i as int]@);
                assert(kv.to_set().contains(kv[i as int]));
            }
            let count = match entries_get(&self.hash_cache, keys[i].as_slice()) {
                Some(entry) => entry.access_count,
                None => 0,
            };
            counts.push(count);
            i = i + 1;
        }
        let picked = pick_least(&counts, n);
        let ghost victims = victims_of(kv, picked@);
        let ghost always = |p: Seq<u8>| true;
        proof {
            lemma_picked_is_eviction(self.entries(), kv, m as int, counts@, picked@);
            lemma_seen_none(victims, always);
            lemma_unlisted_all(self.buckets(), Set::empty());
            assert(self.entries() =~= self.entries().remove_keys(Set::empty()));
        }
        let mut j: usize = 0;
        while j < n
            invariant
                j <= n,
                n == picked@.len(),
                n == victims.len(),
                kv == paths_view(keys@),
                victims == victims_of(kv, picked@),
                always == (|p: Seq<u8>| true),
                forall|a: int| 0 <= a < n ==> #[trigger] picked@[a] < keys@.len(),
                old(self).wf(),
                self.wf(),
                self.config() == old(self).config(),
                self.strategy() == old(self).strategy(),
                self.entries() == old(self).entries().remove_keys(
                    seen_where(victims.take(j as int), always),
                ),
                self.buckets() == unlisted_all(
                    old(self).buckets(),
                    seen_where(victims.take(j as int), always),
                ),
            decreases n - j,
        {
            let ghost gone = seen_where(victims.take(j as int), always);
            let key = keys[picked[j]].as_slice();
            proof {
                lemma_seen_next(victims, j as int, always);
                assert(key@ == victims[j as int]);
            }
            self.remove_entry(key);
            proof {
                lemma_unlist_step(old(self).buckets(), gone, key@);
                assert(self.entries() =~= old(self).entries().remove_keys(gone.insert(key@)));
            }
            j = j + 1;
        }
        proof {
            let gone = victims.to_set();
            let sample = kv.take(m as int).to_set();
            assert(victims.take(n as int) =~= victims);
            assert(seen_where(victims, always) =~= gone);
            assert(eviction(
                old(self).entries(),
                sample,
                gone,
                (old(self).entries().dom().len() - evict_target(old(self).config().max_entries)) as nat,
            ));
        }
        self.drop_empty_buckets();
    }

    /// Stores a fingerprint for a path at time `now`, and evicts if the
    /// cache then has more than `max_entries` entries.
    fn store(&mut self, path: &[u8], hash: HashResult, now: u64)
        requires
            old(self).wf(),
        ensures
            final(self).wf(),
            final(self).config() == old(self).config(),
            final(self).strategy() == old(self).strategy(),
            stored(
                old(self).config(),
                old(self).entries(),
                old(self).buckets(),
                final(self).entries(),
                final(self).buckets(),
                path@,
                hash,
                now,
            ),
    {
        let entry = CacheEntry {
            hash,
            timestamp: now,
            access_count: 1,
            directory_level: depth_of(path),
        };
        self.insert_entry(path, entry);
        self.evict_lru();
    }

    /// The cached fingerprint for an event at `path`, if the cache answers
    /// for it at time `now`; the entry then counts one more use.
    fn try_hit(&mut self, path: &[u8], event_timestamp: u64, now: u64) -> (hash: Option<HashResult>)
        requires
            old(self).wf(),
        ensures
            final(self).wf(),
            final(self).config() == old(self).config(),
            final(self).strategy() == old(self).strategy(),
            final(self).buckets() == old(self).buckets(),
            hash is Some <==> is_hit(
                old(self).entries(),
                old(self).config().ttl_seconds,
                path@,
                event_timestamp,
                now,
            ),
            hash matches Some(h) ==> h == old(self).entries()[path@].hash && final(self).entries()
                == old(self).entries().insert(path@, used_once_more(old(self).entries()[path@])),
            hash is None ==> final(self).entries() == old(self).entries(),
    {
        match entries_get(&self.hash_cache, path) {
            None => None,
            Some(entry) => {
                let age: u64 = if now >= entry.timestamp {
                    (now - entry.timestamp) / NANOS_PER_SEC
                } else {
                    0
                };
                if age <= self.config.ttl_seconds && entry.timestamp >= event_timestamp {
                    let mut used = entry;
                    used.access_count = entry.access_count.saturating_add(1);
                    entries_insert(&mut self.hash_cache, vstd::slice::slice_to_vec(path), used);
                    proof {
                        assert(self.entries().dom() =~= old(self).entries().dom());
                        if self.config().enable_hierarchy {
                            assert forall|p: Seq<u8>| #[trigger]
                                self.entries().contains_key(p) implies (parent(p) matches Some(
                                d,
                            ) ==> self.buckets().contains_key(d) && self.buckets()[d].contains(
                                p,
                            )) by {
                                assert(old(self).entries().contains_key(p));
                            }
                        }
                    }
                    Some(entry.hash)
                } else {
                    None
                }
            },
        }
    }

    /// The fingerprint for `path`, from the cache or from `compute`.
    ///
    /// The cache answers if it has an entry for the path that is at most
    /// `ttl_seconds` old at time `now` and no older than `event_timestamp`;
    /// the entry then counts one more use. Otherwise `compute` is called:
    /// what it returns is the result, and a fingerprint is stored for the
    /// path with time `now`. Where `compute` returns nothing, nothing is
    /// stored.
    pub fn get_or_compute<F: FnOnce() -> Option<HashResult>>(
        &mut self,
        path: &[u8],
        event_timestamp: u64,
        now: u64,
        compute: F,
    ) -> (hash: Option<HashResult>)
        requires
            old(self).wf(),
            compute.requires(()),
        ensures
            final(self).wf(),
            final(self).config() == old(self).config(),
            final(self).strategy() == old(self).strategy(),
            is_hit(old(self).entries(), old(self).config().ttl_seconds, path@, event_timestamp, now)
                ==> {
                &&& hash == Some(old(self).entries()[path@].hash)
                &&& final(self).entries() == old(self).entries().insert(
                    path@,
                    used_once_more(old(self).entries()[path@]),
                )
                &&& final(self).buckets() == old(self).buckets()
            },
            !is_hit(
                old(self).entries(),
                old(self).config().ttl_seconds,
                path@,
                event_timestamp,
                now,
            ) ==> {
                &&& compute.ensures((), hash)
                &&& hash is None ==> final(self).entries() == old(self).entries() && final(self).buckets() == old(self).buckets()
                &&& hash matches Some(h) ==> stored(
                    old(self).config(),
                    old(self).entries(),
                    old(self).buckets(),
                    final(self).entries(),
                    final(self).buckets(),
                    path@,
                    h,
                    now,
                )
            },
    {
        if let Some(hash) = self.try_hit(path, event_timestamp, now) {
            return Some(hash);
        }
        match compute() {
            None => None,
            Some(hash) => {
                self.store(path, hash, now);
                Some(hash)
            },
        }
    }

    /// Enriches an event at time `now`: gives the fingerprint of the file
    /// it is about, if it calls for one, and keeps the cache; see
    /// [`enriched`]. `read` examines and reads a file; it is called at most
    /// once, and only when the cache does not answer.
    pub fn enrich_at<F: Fn(&Vec<u8>) -> FileProbe>(
        &mut self,
        event: &SystemEvent,
        now: u64,
        read: &F,
    ) -> (hash: Option<HashResult>)
        requires
            old(self).wf(),
            read.requires((&event.path,)),
        ensures
            final(self).wf(),
            final(self).config() == old(self).config(),
            final(self).strategy() == old(self).strategy(),
            enriched(
                old(self).config(),
                old(self).strategy(),
                old(self).entries(),
                old(self).buckets(),
                final(self).entries(),
                final(self).buckets(),
                event,
                now,
                hash,
                read,
            ),
    {
        let wanted = !event.is_directory && match event.event_type {
            SystemEventType::Created => true,
            SystemEventType::Modified => true,
            _ => false,
        };
        if !wanted {
            let drops = event.is_directory && match event.event_type {
                SystemEventType::Deleted => true,
                _ => false,
            };
            if drops {
                self.invalidate_directory(event.path.as_slice());
            }
            return None;
        }
        if let Some(hash) = self.try_hit(event.path.as_slice(), event.timestamp, now) {
            return Some(hash);
        }
        let probe = read(&event.path);
        let contents: Option<&[u8]> = match &probe.contents {
            Some(bytes) => Some(bytes.as_slice()),
            None => None,
        };
        match self.hash_engine.hash_file(event.path.as_slice(), probe.stat_len, contents) {
            Ok(hash) => {
                self.store(event.path.as_slice(), hash, now);
                Some(hash)
            },
            Err(_) => None,
        }
    }

    /// Enriches an event: the event comes back with the fingerprint of its
    /// file, if it calls for one, and with the time the enrichment took. It
    /// never fails. Cache and fingerprint are as [`enriched`] says for some
    /// reading of the clock.
    pub fn process_event<F: Fn(&Vec<u8>) -> FileProbe>(&mut self, event: SystemEvent, read: &F) -> (
    enhanced: Result<EnhancedFileEvent, HashError>)
        requires
            old(self).wf(),
            read.requires((&event.path,)),
        ensures
            final(self).wf(),
            final(self).config() == old(self).config(),
            final(self).strategy() == old(self).strategy(),
            enhanced matches Ok(e) && e.system_event == event && exists|now: u64|
                #[trigger] enriched(
                    old(self).config(),
                    old(self).strategy(),
                    old(self).entries(),
                    old(self).buckets(),
                    final(self).entries(),
                    final(self).buckets(),
                    &event,
                    now,
                    e.hash,
                    read,
                ),
    {
        let start = crate::clock::unix_nanos();
        let hash = self.enrich_at(&event, start, read);
        let end = crate::clock::unix_nanos();
        Ok(
            EnhancedFileEvent {
                system_event: event,
                hash,
                processing_time_ns: end.saturating_sub(start),
            },
        )
    }
}

} // verus!
