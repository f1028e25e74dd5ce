//! Choosing the least used of a sample.

use vstd::prelude::*;

verus! {

/// Number of counts below `bound`.
pub open spec fn count_below(counts: Seq<u32>, bound: int) -> nat
    decreases counts.len(),
{
    if counts.len() == 0 {
        0
    } else {
        count_below(counts.drop_last(), bound) + if counts.last() < bound {
            1nat
        } else {
            0nat
        }
    }
}

/// There are no more counts below a bound than counts, and all are below
/// 2^32.
pub proof fn lemma_count_below(counts: Seq<u32>, bound: int)
    ensures
        count_below(counts, bound) <= counts.len(),
        bound > u32::MAX ==> count_below(counts, bound) == counts.len(),
        bound <= 0 ==> count_below(counts, bound) == 0,
        count_below(counts, bound) <= count_below(counts, bound + 1),
    decreases counts.len(),
{
    if counts.len() > 0 {
        lemma_count_below(counts.drop_last(), bound);
    }
}

/// Number of counts below `bound`.
fn below(counts: &Vec<u32>, bound: u64) -> (n: usize)
    ensures
        n == count_below(counts@, bound as int),
{
    let mut n: usize = 0;
    let mut i: usize = 0;
    while i < counts.len()
        invariant
            i <= counts@.len(),
            n == count_below(counts@.take(i as int), bound as int),
            n <= i,
        decreases counts@.len() - i,
    {
        proof {
            assert(counts@.take(i + 1).drop_last() =~= counts@.take(i as int));
        }
        if (counts[i] as u64) < bound {
            n = n + 1;
        }
        i = i + 1;
    }
    proof {
        assert(counts@.take(counts@.len() as int) =~= counts@);
    }
    n
}

/// The count such that fewer than `n` counts are below it and at least `n`
/// are at or below it.
fn threshold(counts: &Vec<u32>, n: usize) -> (level: u32)
    requires
        1 <= n <= counts@.len(),
    ensures
        count_below(counts@, level as int) < n <= count_below(counts@, level + 1),
{
    let mut lo: u64 = 0;
    let mut hi: u64 = u32::MAX as u64;
    proof {
        lemma_count_below(counts@, 0);
        lemma_count_below(counts@, u32::MAX + 1);
    }
    while lo < hi
        invariant
            lo <= hi <= u32::MAX,
            1 <= n <= counts@.len(),
            count_below(counts@, lo as int) < n <= count_below(counts@, hi + 1),
        decreases hi - lo,
    {
        let mid: u64 = lo + (hi - lo) / 2;
        if below(counts, mid + 1) >= n {
            hi = mid;
        } else {
            lo = mid + 1;
        }
    }
    lo as u32
}

/// Whether `picked` are places in `counts`, in rising order, such that no
/// count at a place that was picked is above a count at a place that was
/// not.
pub open spec fn least_picked(counts: Seq<u32>, picked: Seq<usize>) -> bool {
    &&& forall|a: int| 0 <= a < picked.len() ==> #[trigger] picked[a] < counts.len()
    &&& forall|a: int, b: int| 0 <= a < b < picked.len() ==> picked[a] < picked[b]
    &&& forall|a: int, j: int|
        0 <= a < picked.len() && 0 <= j < counts.len() && !picked.contains(j as usize) ==> counts[
        #[trigger] picked[a] as int] <= #[trigger] counts[j]
}

/// Picks the places of the `n` least counts; of equal counts the earlier
/// ones go first.
pub fn pick_least(counts: &Vec<u32>, n: usize) -> (picked: Vec<usize>)
    requires
        1 <= n <= counts@.len(),
    ensures
        picked@.len() == n,
        least_picked(counts@, picked@),
{
    let level = threshold(counts, n);
    let lower = below(counts, level as u64);
    let need: usize = n - lower;
    let mut picked: Vec<usize> = Vec::new();
    let mut equal: usize = 0;
    let mut i: usize = 0;
    proof {
        lemma_count_below(counts@, level as int);
    }
    while i < counts.len()
        invariant
            i <= counts@.len(),
            1 <= need,
            need + count_below(counts@, level as int) == n,
            n <= count_below(counts@, level + 1),
            equal <= need,
            equal == if count_below(counts@.take(i as int), level + 1) - count_below(
                counts@.take(i as int),
                level as int,
            ) <= need {
                count_below(counts@.take(i as int), level + 1) - count_below(
                    counts@.take(i as int),
                    level as int,
                )
            } else {
                need as int
            },
            picked@.len() == count_below(counts@.take(i as int), level as int) + equal,
            forall|a: int| 0 <= a < picked@.len() ==> #[trigger] picked@[a] < i,
            forall|a: int, b: int| 0 <= a < b < picked@.len() ==> picked@[a] < picked@[b],
            forall|a: int| 0 <= a < picked@.len() ==> counts@[#[trigger] picked@[a] as int] <= level,
            forall|j: int|
                0 <= j < i && !picked@.contains(j as usize) ==> #[trigger] counts@[j] >= level,
            equal < need ==> forall|j: int|
                0 <= j < i && !picked@.contains(j as usize) ==> #[trigger] counts@[j] > level,
        decreases counts@.len() - i,
    {
        proof {
            assert(counts@.take(i + 1).drop_last() =~= counts@.take(i as int));
            lemma_count_below(counts@.take(i as int), level as int);
        }
        let ghost before = picked@;
        let c = counts[i];
        if c < level || (c == level && equal < need) {
            if c == level {
                equal = equal + 1;
            }
            picked.push(i);
            proof {
                assert forall|j: int| 0 <= j < i + 1 && !picked@.contains(j as usize) implies (
                #[trigger] counts@[j] >= level && (equal < need ==> counts@[j] > level)) by {
                    assert(picked@[before.len() as int] == i);
                    if before.contains(j as usize) {
                        let a = choose|a: int| 0 <= a < before.len() && before[a] == j as usize;
                        assert(picked@[a] == j as usize);
                    }
                }
            }
        } else {
            proof {
                assert forall|j: int| 0 <= j < i + 1 && !picked@.contains(j as usize) implies (
                #[trigger] counts@[j] >= level && (equal < need ==> counts@[j] > level)) by {}
            }
        }
        i = i + 1;
    }
    proof {
        assert(counts@.take(counts@.len() as int) =~= counts@);
    }
    picked
}

} // verus!
