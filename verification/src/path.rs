//! Paths as byte strings with `/` between their components.

use vstd::prelude::*;
use vstd::slice::{slice_subrange, slice_to_vec};
use vstd::utf8::valid_utf8;
use crate::glob::SLASH;

verus! {

/// Trusted: `std::str::from_utf8` succeeds exactly on byte strings that are
/// valid UTF-8.
#[verifier::external_body]
pub(crate) fn is_utf8(bytes: &[u8]) -> (valid: bool)
    ensures
        valid == valid_utf8(bytes@),
{
    std::str::from_utf8(bytes).is_ok()
}

/// Whether two byte strings are the same.
pub fn bytes_eq(a: &[u8], b: &[u8]) -> (same: bool)
    ensures
        same == (a@ == b@),
{
    if a.len() != b.len() {
        return false;
    }
    let mut i: usize = 0;
    while i < a.len()
        invariant
            i <= a@.len(),
            a@.len() == b@.len(),
            forall|k: int| 0 <= k < i ==> a@[k] == b@[k],
        decreases a@.len() - i,
    {
        if a[i] != b[i] {
            return false;
        }
        i = i + 1;
    }
    proof {
        assert(a@ =~= b@);
    }
    true
}

/// Whether `path` lies below the directory `dir`: it begins with `dir`
/// followed by `/`. A path that merely begins with the same bytes, as
/// `/ta` does for `/t`, does not lie below.
pub open spec fn is_under(dir: Seq<u8>, path: Seq<u8>) -> bool {
    &&& path.len() > dir.len()
    &&& path.subrange(0, dir.len() as int) == dir
    &&& path[dir.len() as int] == SLASH
}

/// Whether `path` is the directory `dir` or lies below it.
pub open spec fn is_within(dir: Seq<u8>, path: Seq<u8>) -> bool {
    path == dir || is_under(dir, path)
}

/// Whether `path` lies below the directory `dir`.
pub fn under(dir: &[u8], path: &[u8]) -> (below: bool)
    ensures
        below == is_under(dir@, path@),
{
    if path.len() <= dir.len() {
        return false;
    }
    if path[dir.len()] != SLASH {
        return false;
    }
    bytes_eq(slice_subrange(path, 0, dir.len()), dir)
}

/// Whether `path` is the directory `dir` or lies below it.
pub fn within(dir: &[u8], path: &[u8]) -> (inside: bool)
    ensures
        inside == is_within(dir@, path@),
{
    bytes_eq(path, dir) || under(dir, path)
}

/// The position of the last `/` in a path, if it has one.
pub open spec fn last_slash(path: Seq<u8>) -> Option<int>
    decreases path.len(),
{
    if path.len() == 0 {
        None
    } else if path.last() == SLASH {
        Some(path.len() - 1)
    } else {
        last_slash(path.drop_last())
    }
}

/// The directory a path lies in: what stands before its last `/`. A path
/// without `/` lies in no directory.
pub open spec fn parent(path: Seq<u8>) -> Option<Seq<u8>> {
    match last_slash(path) {
        Some(i) => Some(path.subrange(0, i)),
        None => None,
    }
}

/// The last `/` of a path is a `/` of the path, and none follows it.
pub proof fn lemma_last_slash(path: Seq<u8>)
    ensures
        last_slash(path) matches Some(i) ==> 0 <= i < path.len() && path[i] == SLASH,
        last_slash(path) is None ==> forall|k: int| 0 <= k < path.len() ==> path[k] != SLASH,
    decreases path.len(),
{
    if path.len() > 0 && path.last() != SLASH {
        lemma_last_slash(path.drop_last());
        if last_slash(path) is None {
            assert forall|k: int| 0 <= k < path.len() implies path[k] != SLASH by {
                if k < path.len() - 1 {
                    assert(path.drop_last()[k] == path[k]);
                }
            }
        } else {
            let i = last_slash(path)->0;
            assert(path.drop_last()[i] == path[i]);
        }
    }
}

/// A path lies below the directory it lies in.
pub proof fn lemma_parent_under(path: Seq<u8>)
    ensures
        parent(path) matches Some(dir) ==> is_under(dir, path),
{
    lemma_last_slash(path);
}

/// What lies below a directory that lies within another lies below that
/// other directory too.
pub proof fn lemma_under_within(top: Seq<u8>, dir: Seq<u8>, path: Seq<u8>)
    requires
        is_within(top, dir),
        is_under(dir, path),
    ensures
        is_under(top, path),
{
    if dir != top {
        assert(path.subrange(0, top.len() as int) =~= dir.subrange(0, top.len() as int)) by {
            assert(path.subrange(0, dir.len() as int) == dir);
            assert forall|k: int| 0 <= k < top.len() implies path[k] == dir[k] by {
                assert(path.subrange(0, dir.len() as int)[k] == dir[k]);
            }
        }
        assert(path.subrange(0, dir.len() as int)[top.len() as int] == dir[top.len() as int]);
    }
}

/// The directory a path lies in, if it has a `/`.
pub fn parent_of(path: &[u8]) -> (dir: Option<Vec<u8>>)
    ensures
        dir is Some <==> parent(path@) is Some,
        dir matches Some(d) ==> Some(d@) == parent(path@),
{
    let mut i: usize = path.len();
    proof {
        assert(path@.subrange(0, path@.len() as int) =~= path@);
    }
    while i > 0
        invariant
            i <= path@.len(),
            last_slash(path@) == last_slash(path@.subrange(0, i as int)),
        decreases i,
    {
        proof {
            assert(path@.subrange(0, i as int).drop_last() =~= path@.subrange(0, i - 1));
        }
        if path[i - 1] == SLASH {
            return Some(slice_to_vec(slice_subrange(path, 0, i - 1)));
        }
        i = i - 1;
    }
    None
}

/// Number of components that begin in a path: the places where a byte that
/// is not `/` stands first or after a `/`.
pub open spec fn segments(path: Seq<u8>) -> nat
    decreases path.len(),
{
    if path.len() == 0 {
        0
    } else {
        segments(path.drop_last()) + if path.last() != SLASH && (path.len() == 1 || path[path.len()
            - 2] == SLASH) {
            1nat
        } else {
            0nat
        }
    }
}

/// Number of components of a path: its segments, and one more for the root
/// if it begins with `/`.
pub open spec fn components(path: Seq<u8>) -> nat {
    segments(path) + if path.len() > 0 && path[0] == SLASH {
        1nat
    } else {
        0nat
    }
}

/// The depth recorded for a path: its number of components, or `u16::MAX`
/// if it has more.
pub open spec fn depth(path: Seq<u8>) -> u16 {
    if components(path) <= u16::MAX {
        components(path) as u16
    } else {
        u16::MAX
    }
}

/// The depth recorded for a path.
pub fn depth_of(path: &[u8]) -> (d: u16)
    ensures
        d == depth(path@),
{
    let mut count: u16 = 0;
    let mut i: usize = 0;
    while i < path.len()
        invariant
            i <= path@.len(),
            count == if segments(path@.subrange(0, i as int)) <= u16::MAX {
                segments(path@.subrange(0, i as int)) as u16
            } else {
                u16::MAX
            },
        decreases path@.len() - i,
    {
        proof {
            assert(path@.subrange(0, i + 1).drop_last() =~= path@.subrange(0, i as int));
        }
        if path[i] != SLASH && (i == 0 || path[i - 1] == SLASH) {
            if count < u16::MAX {
                count = count + 1;
            }
        }
        i = i + 1;
    }
    proof {
        assert(path@.subrange(0, path@.len() as int) =~= path@);
    }
    if path.len() > 0 && path[0] == SLASH && count < u16::MAX {
        count = count + 1;
    }
    count
}

} // verus!
