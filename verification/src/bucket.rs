//! Buckets of the parent index: lists of paths without repetition.

use vstd::prelude::*;
use crate::maps::paths_view;
use crate::path::bytes_eq;

verus! {

/// The paths of `bucket` that are in `kept`, in their order.
pub open spec fn keep(bucket: Seq<Seq<u8>>, kept: Set<Seq<u8>>) -> Seq<Seq<u8>>
    decreases bucket.len(),
{
    if bucket.len() == 0 {
        bucket
    } else if kept.contains(bucket.last()) {
        keep(bucket.drop_last(), kept).push(bucket.last())
    } else {
        keep(bucket.drop_last(), kept)
    }
}

/// Every path but `path`.
pub open spec fn all_but(path: Seq<u8>) -> Set<Seq<u8>> {
    Set::new(|q: Seq<u8>| q != path)
}

/// What is kept of a bucket are its paths that are in `kept`; it is no
/// longer than the bucket, and it repeats nothing if the bucket does not.
pub proof fn lemma_keep(bucket: Seq<Seq<u8>>, kept: Set<Seq<u8>>)
    ensures
        forall|q: Seq<u8>| #[trigger]
            keep(bucket, kept).contains(q) <==> bucket.contains(q) && kept.contains(q),
        keep(bucket, kept).len() <= bucket.len(),
        bucket.no_duplicates() ==> keep(bucket, kept).no_duplicates(),
    decreases bucket.len(),
{
    if bucket.len() > 0 {
        let front = bucket.drop_last();
        let last = bucket.last();
        lemma_keep(front, kept);
        assert forall|q: Seq<u8>| #[trigger]
            keep(bucket, kept).contains(q) <==> bucket.contains(q) && kept.contains(q) by {
            if bucket.contains(q) {
                let i = choose|i: int| 0 <= i < bucket.len() && bucket[i] == q;
                if i < bucket.len() - 1 {
                    assert(front[i] == q);
                }
            }
            if front.contains(q) {
                let i = choose|i: int| 0 <= i < front.len() && front[i] == q;
                assert(bucket[i] == q);
            }
            if kept.contains(last) {
                let rest = keep(front, kept);
                if rest.push(last).contains(q) {
                    let i = choose|i: int| 0 <= i < rest.push(last).len() && rest.push(last)[i] == q;
                    if i < rest.len() {
                        assert(rest[i] == q);
                    } else {
                        assert(bucket[bucket.len() - 1] == q);
                    }
                }
                if rest.contains(q) {
                    let i = choose|i: int| 0 <= i < rest.len() && rest[i] == q;
                    assert(rest.push(last)[i] == q);
                }
                if q == last {
                    assert(rest.push(last)[rest.len() as int] == q);
                    assert(bucket[bucket.len() - 1] == q);
                }
            } else {
                if q == last {
                    assert(bucket[bucket.len() - 1] == q);
                }
            }
        }
        if bucket.no_duplicates() {
            assert(front.no_duplicates()) by {
                assert forall|i: int, j: int|
                    0 <= i < front.len() && 0 <= j < front.len() && i != j implies front[i]
                    != front[j] by {
                    assert(bucket[i] != bucket[j]);
                }
            }
            if kept.contains(last) {
                let rest = keep(front, kept);
                assert(!rest.contains(last)) by {
                    if front.contains(last) {
                        let i = choose|i: int| 0 <= i < front.len() && front[i] == last;
                        assert(bucket[i] == bucket[bucket.len() - 1]);
                    }
                }
                assert forall|i: int, j: int|
                    0 <= i < rest.push(last).len() && 0 <= j < rest.push(last).len() && i
                        != j implies rest.push(last)[i] != rest.push(last)[j] by {
                    if i < rest.len() && j < rest.len() {
                    } else if i < rest.len() {
                        assert(rest.contains(rest[i]));
                    } else {
                        assert(rest.contains(rest[j]));
                    }
                }
            }
        }
    }
}

/// Two sets that agree on the paths of a bucket keep the same of it.
pub proof fn lemma_keep_agree(bucket: Seq<Seq<u8>>, a: Set<Seq<u8>>, b: Set<Seq<u8>>)
    requires
        forall|i: int| 0 <= i < bucket.len() ==> a.contains(bucket[i]) == b.contains(bucket[i]),
    ensures
        keep(bucket, a) == keep(bucket, b),
    decreases bucket.len(),
{
    if bucket.len() > 0 {
        assert forall|i: int| 0 <= i < bucket.drop_last().len() implies a.contains(
            bucket.drop_last()[i],
        ) == b.contains(bucket.drop_last()[i]) by {
            assert(bucket.drop_last()[i] == bucket[i]);
        }
        lemma_keep_agree(bucket.drop_last(), a, b);
        assert(a.contains(bucket[bucket.len() - 1]) == b.contains(bucket[bucket.len() - 1]));
    }
}

/// A set that holds all paths of a bucket keeps all of it.
pub proof fn lemma_keep_all(bucket: Seq<Seq<u8>>, kept: Set<Seq<u8>>)
    requires
        forall|i: int| 0 <= i < bucket.len() ==> kept.contains(bucket[i]),
    ensures
        keep(bucket, kept) == bucket,
    decreases bucket.len(),
{
    if bucket.len() > 0 {
        assert forall|i: int| 0 <= i < bucket.drop_last().len() implies kept.contains(
            bucket.drop_last()[i],
        ) by {
            assert(bucket.drop_last()[i] == bucket[i]);
        }
        lemma_keep_all(bucket.drop_last(), kept);
        assert(kept.contains(bucket[bucket.len() - 1]));
        assert(bucket.drop_last().push(bucket.last()) =~= bucket);
    }
}

/// Keeping twice keeps what is in both sets.
pub proof fn lemma_keep_twice(bucket: Seq<Seq<u8>>, a: Set<Seq<u8>>, b: Set<Seq<u8>>)
    ensures
        keep(keep(bucket, a), b) == keep(bucket, a.intersect(b)),
    decreases bucket.len(),
{
    if bucket.len() > 0 {
        lemma_keep_twice(bucket.drop_last(), a, b);
        let rest = keep(bucket.drop_last(), a);
        if a.contains(bucket.last()) {
            assert(rest.push(bucket.last()).drop_last() =~= rest);
        }
    }
}

/// Whether a bucket lists a path.
pub fn bucket_has(bucket: &Vec<Vec<u8>>, path: &[u8]) -> (listed: bool)
    ensures
        listed == paths_view(bucket@).contains(path@),
{
    let mut i: usize = 0;
    while i < bucket.len()
        invariant
            i <= bucket@.len(),
            forall|k: int| 0 <= k < i ==> paths_view(bucket@)[k] != path@,
        decreases bucket@.len() - i,
    {
        if bytes_eq(bucket[i].as_slice(), path) {
            assert(paths_view(bucket@)[i as int] == path@);
            return true;
        }
        i = i + 1;
    }
    false
}

/// The bucket without a path.
pub fn bucket_without(bucket: &Vec<Vec<u8>>, path: &[u8]) -> (rest: Vec<Vec<u8>>)
    ensures
        paths_view(rest@) == keep(paths_view(bucket@), all_but(path@)),
{
    let mut rest: Vec<Vec<u8>> = Vec::new();
    let mut i: usize = 0;
    while i < bucket.len()
        invariant
            i <= bucket@.len(),
            paths_view(rest@) == keep(paths_view(bucket@).take(i as int), all_but(path@)),
        decreases bucket@.len() - i,
    {
        proof {
            assert(paths_view(bucket@).take(i + 1).drop_last() =~= paths_view(bucket@).take(
                i as int,
            ));
        }
        let ghost before = paths_view(rest@);
        if !bytes_eq(bucket[i].as_slice(), path) {
            rest.push(bucket[i].clone());
            proof {
                assert(paths_view(rest@) =~= before.push(bucket@[i as int]@));
            }
        }
        i = i + 1;
    }
    proof {
        assert(paths_view(bucket@).take(bucket@.len() as int) =~= paths_view(bucket@));
    }
    rest
}

} // verus!
