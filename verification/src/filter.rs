//! The rules by which a raw event is let through: size bounds, exclude and
//! include patterns, and a per-path debounce.

use vstd::prelude::*;
use crate::event::SystemEventView;
use crate::glob::any_matches;

verus! {

/// What events to let through.
#[derive(Debug, Clone, PartialEq, Eq)]
pub struct EventFilter {
    /// Patterns of which one must match the path; none means every path.
    pub include_patterns: Vec<Vec<u8>>,
    /// Patterns of which none may match the path.
    pub exclude_patterns: Vec<Vec<u8>>,
    /// The least time between two events of one path that are let through,
    /// in milliseconds; 0 switches the debounce off.
    pub debounce_ms: u64,
    pub min_file_size: u64,
    pub max_file_size: Option<u64>,
}

/// The bytes of `**/node_modules/**`.
pub open spec fn pattern_node_modules() -> Seq<u8> {
    seq![42u8, 42, 47, 110, 111, 100, 101, 95, 109, 111, 100, 117, 108, 101, 115, 47, 42, 42]
}

/// The bytes of `**/.git/**`.
pub open spec fn pattern_git() -> Seq<u8> {
    seq![42u8, 42, 47, 46, 103, 105, 116, 47, 42, 42]
}

/// The bytes of `**/.*`.
pub open spec fn pattern_hidden() -> Seq<u8> {
    seq![42u8, 42, 47, 46, 42]
}

/// The bytes of `**/*.tmp`.
pub open spec fn pattern_tmp() -> Seq<u8> {
    seq![42u8, 42, 47, 42, 46, 116, 109, 112]
}

/// The bytes of `**/*.swp`.
pub open spec fn pattern_swp() -> Seq<u8> {
    seq![42u8, 42, 47, 42, 46, 115, 119, 112]
}

impl Default for EventFilter {
    /// No include pattern; the exclude patterns `**/node_modules/**`,
    /// `**/.git/**`, `**/.*`, `**/*.tmp` and `**/*.swp`; a debounce of 100 ms;
    /// no size bounds.
    fn default() -> (filter: EventFilter)
        ensures
            filter.is_default(),
    {
        let node_modules: Vec<u8> = vec![
            42u8, 42, 47, 110, 111, 100, 101, 95, 109, 111, 100, 117, 108, 101, 115, 47, 42, 42,
        ];
        let git: Vec<u8> = vec![42u8, 42, 47, 46, 103, 105, 116, 47, 42, 42];
        let hidden: Vec<u8> = vec![42u8, 42, 47, 46, 42];
        let tmp: Vec<u8> = vec![42u8, 42, 47, 42, 46, 116, 109, 112];
        let swp: Vec<u8> = vec![42u8, 42, 47, 42, 46, 115, 119, 112];
        proof {
            assert(node_modules@ =~= pattern_node_modules());
            assert(git@ =~= pattern_git());
            assert(hidden@ =~= pattern_hidden());
            assert(tmp@ =~= pattern_tmp());
            assert(swp@ =~= pattern_swp());
        }
        let mut exclude_patterns: Vec<Vec<u8>> = Vec::new();
        exclude_patterns.push(node_modules);
        exclude_patterns.push(git);
        exclude_patterns.push(hidden);
        exclude_patterns.push(tmp);
        exclude_patterns.push(swp);
        EventFilter {
            include_patterns: Vec::new(),
            exclude_patterns,
            debounce_ms: 100,
            min_file_size: 0,
            max_file_size: None,
        }
    }
}

impl EventFilter {
    /// Whether this is the default filter: no inclusion pattern; the five
    /// default exclusion patterns; a debounce of 100 ms; no size bounds.
    pub open spec fn is_default(self) -> bool {
        &&& self.include_patterns@.len() == 0
        &&& self.exclude_patterns@.len() == 5
        &&& self.exclude_patterns@[0]@ == pattern_node_modules()
        &&& self.exclude_patterns@[1]@ == pattern_git()
        &&& self.exclude_patterns@[2]@ == pattern_hidden()
        &&& self.exclude_patterns@[3]@ == pattern_tmp()
        &&& self.exclude_patterns@[4]@ == pattern_swp()
        &&& self.debounce_ms == 100
        &&& self.min_file_size == 0
        &&& self.max_file_size is None
    }

    /// The rules that do not depend on time: the size is within the bounds,
    /// no exclude pattern matches the path, and an include pattern matches it
    /// if there is any include pattern.
    pub open spec fn passes(self, event: SystemEventView) -> bool {
        &&& event.size >= self.min_file_size
        &&& (self.max_file_size matches Some(max) ==> event.size <= max)
        &&& !any_matches(self.exclude_patterns@, event.path)
        &&& (self.include_patterns@.len() == 0 || any_matches(self.include_patterns@, event.path))
    }

    /// The debounce: it is off, or no event of the path was let through yet,
    /// or the last one was let through at least `debounce_ms` before
    /// `now_ms`. `last` holds, for each path, when its last event was let
    /// through.
    pub open spec fn settled(self, last: Map<Seq<u8>, u64>, path: Seq<u8>, now_ms: u64) -> bool {
        self.debounce_ms == 0 || !last.contains_key(path) || now_ms - last[path]
            >= self.debounce_ms
    }

    /// Whether an event that arrives at `now_ms` is let through.
    pub open spec fn accepts(self, last: Map<Seq<u8>, u64>, event: SystemEventView, now_ms: u64) -> bool {
        self.passes(event) && self.settled(last, event.path, now_ms)
    }

    /// The times kept after an event arrived at `now_ms`: the path's time
    /// becomes `now_ms` if the event is let through and the debounce is on.
    pub open spec fn remember(
        self,
        last: Map<Seq<u8>, u64>,
        event: SystemEventView,
        now_ms: u64,
    ) -> Map<Seq<u8>, u64> {
        if self.accepts(last, event, now_ms) && self.debounce_ms > 0 {
            last.insert(event.path, now_ms)
        } else {
            last
        }
    }
}

/// An event and the time in milliseconds at which it arrived.
pub struct Arrival {
    pub event: SystemEventView,
    pub now_ms: u64,
}

/// The times kept after a sequence of arrivals, from the times `last`.
pub open spec fn last_after(filter: EventFilter, last: Map<Seq<u8>, u64>, arrivals: Seq<Arrival>) -> Map<
    Seq<u8>,
    u64,
>
    decreases arrivals.len(),
{
    if arrivals.len() == 0 {
        last
    } else {
        filter.remember(
            last_after(filter, last, arrivals.drop_last()),
            arrivals.last().event,
            arrivals.last().now_ms,
        )
    }
}

/// Whether the `k`-th of a sequence of arrivals is let through.
pub open spec fn accepted_at(
    filter: EventFilter,
    last: Map<Seq<u8>, u64>,
    arrivals: Seq<Arrival>,
    k: int,
) -> bool {
    filter.accepts(
        last_after(filter, last, arrivals.take(k)),
        arrivals[k].event,
        arrivals[k].now_ms,
    )
}

/// After arrival `i` was let through, and as long as no later arrival of its
/// path is, the time kept for the path is that of arrival `i`.
proof fn lemma_last_kept(
    filter: EventFilter,
    last: Map<Seq<u8>, u64>,
    arrivals: Seq<Arrival>,
    i: int,
    k: int,
)
    requires
        filter.debounce_ms > 0,
        0 <= i < k <= arrivals.len(),
        accepted_at(filter, last, arrivals, i),
        forall|m: int|
            i < m < k && arrivals[m].event.path == arrivals[i].event.path ==> !accepted_at(
                filter,
                last,
                arrivals,
                m,
            ),
    ensures
        last_after(filter, last, arrivals.take(k)).contains_key(arrivals[i].event.path),
        last_after(filter, last, arrivals.take(k))[arrivals[i].event.path] == arrivals[i].now_ms,
    decreases k - i,
{
    let prefix = arrivals.take(k);
    assert(prefix.drop_last() =~= arrivals.take(k - 1));
    assert(prefix.last() == arrivals[k - 1]);
    if k - 1 == i {
    } else {
        lemma_last_kept(filter, last, arrivals, i, k - 1);
        assert(accepted_at(filter, last, arrivals, k - 1) ==> arrivals[k - 1].event.path
            != arrivals[i].event.path);
    }
}

/// With a debounce of `D > 0` milliseconds, two events of one path that are
/// let through one after the other, with none of that path let through in
/// between, arrived at least `D` milliseconds apart.
pub proof fn lemma_debounce_spacing(
    filter: EventFilter,
    last: Map<Seq<u8>, u64>,
    arrivals: Seq<Arrival>,
    i: int,
    j: int,
)
    requires
        filter.debounce_ms > 0,
        0 <= i < j < arrivals.len(),
        arrivals[i].event.path == arrivals[j].event.path,
        accepted_at(filter, last, arrivals, i),
        accepted_at(filter, last, arrivals, j),
        forall|m: int|
            i < m < j && arrivals[m].event.path == arrivals[i].event.path ==> !accepted_at(
                filter,
                last,
                arrivals,
                m,
            ),
    ensures
        arrivals[j].now_ms - arrivals[i].now_ms >= filter.debounce_ms,
{
    lemma_last_kept(filter, last, arrivals, i, j);
}

} // verus!
