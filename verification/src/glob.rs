//! Glob patterns over paths.
//!
//! A pattern is read from left to right. `**` matches any run of bytes, `*`
//! any run of bytes without `/`, `?` one character that is not `/`, and
//! every other byte matches itself. Runs may be empty. A pattern matches a
//! path when it matches all of it.
//!
//! Paths are bytes; a character is a byte that continues no UTF-8
//! character, together with the continuation bytes that follow it. In a
//! path that is UTF-8 these are its characters.

use vstd::prelude::*;

verus! {

/// The byte `*`.
pub const STAR: u8 = 42;

/// The byte `?`.
pub const QUESTION: u8 = 63;

/// The byte `/`.
pub const SLASH: u8 = 47;

/// Whether a byte continues a UTF-8 character: it is one of `0x80` to `0xBF`.
pub open spec fn is_continuation(byte: u8) -> bool {
    0x80 <= byte < 0xC0
}

/// Where the character ends whose first byte stands before `k`: the first
/// place from `k` on that holds no continuation byte.
pub open spec fn char_end(path: Seq<u8>, k: int) -> int
    decreases path.len() - k,
{
    if 0 <= k < path.len() && is_continuation(path[k]) {
        char_end(path, k + 1)
    } else {
        k
    }
}

/// A character ends at or after the place it is looked for from, and within
/// the path.
pub proof fn lemma_char_end(path: Seq<u8>, k: int)
    requires
        0 <= k <= path.len(),
    ensures
        k <= char_end(path, k) <= path.len(),
    decreases path.len() - k,
{
    if k < path.len() && is_continuation(path[k]) {
        lemma_char_end(path, k + 1);
    }
}

/// Whether the pattern from byte `i` on matches the path from byte `j` on.
pub open spec fn matches_from(pattern: Seq<u8>, path: Seq<u8>, i: int, j: int) -> bool
    decreases pattern.len() - i, path.len() - j,
{
    if i < 0 || j < 0 || i > pattern.len() || j > path.len() {
        false
    } else if i == pattern.len() {
        j == path.len()
    } else if pattern[i] == STAR && i + 1 < pattern.len() && pattern[i + 1] == STAR {
        matches_from(pattern, path, i + 2, j) || (j < path.len() && matches_from(
            pattern,
            path,
            i,
            j + 1,
        ))
    } else if pattern[i] == STAR {
        matches_from(pattern, path, i + 1, j) || (j < path.len() && path[j] != SLASH
            && matches_from(pattern, path, i, j + 1))
    } else if pattern[i] == QUESTION {
        j < path.len() && path[j] != SLASH && !is_continuation(path[j]) && matches_from(
            pattern,
            path,
            i + 1,
            char_end(path, j + 1),
        )
    } else {
        j < path.len() && path[j] == pattern[i] && matches_from(pattern, path, i + 1, j + 1)
    }
}

/// Whether the pattern matches the whole path.
pub open spec fn glob_matches(pattern: Seq<u8>, path: Seq<u8>) -> bool {
    matches_from(pattern, path, 0, 0)
}

/// Whether one of the patterns matches the path.
pub open spec fn any_matches(patterns: Seq<Vec<u8>>, path: Seq<u8>) -> bool {
    exists|k: int| 0 <= k < patterns.len() && glob_matches(#[trigger] patterns[k]@, path)
}

/// A row of the table: `row[k]` says whether the pattern from `i` on matches
/// the path from `path.len() - k` on.
spec fn row_holds(pattern: Seq<u8>, path: Seq<u8>, i: int, row: Seq<bool>, filled: int) -> bool {
    &&& row.len() == filled
    &&& forall|k: int| 0 <= k < filled ==> #[trigger] row[k] == matches_from(
        pattern,
        path,
        i,
        path.len() - k,
    )
}

/// The ends of the characters: `ends[k]` is where the character ends whose
/// first byte stands before `path.len() - k`.
spec fn ends_hold(path: Seq<u8>, ends: Seq<usize>) -> bool {
    &&& ends.len() == path.len() + 1
    &&& forall|k: int| 0 <= k <= path.len() ==> #[trigger] ends[k] == char_end(
        path,
        path.len() - k,
    )
}

/// Where the characters of a path end.
fn char_ends(path: &[u8]) -> (ends: Vec<usize>)
    ensures
        ends_hold(path@, ends@),
{
    let tlen = path.len();
    let mut ends: Vec<usize> = Vec::new();
    ends.push(tlen);
    let mut k: usize = 0;
    while k < tlen
        invariant
            k <= tlen,
            tlen == path@.len(),
            ends@.len() == k + 1,
            forall|r: int| 0 <= r <= k ==> #[trigger] ends@[r] == char_end(path@, tlen - r),
        decreases tlen - k,
    {
        let at = tlen - k - 1;
        let end = if path[at] >= 0x80 && path[at] < 0xC0 {
            ends[k]
        } else {
            at
        };
        ends.push(end);
        k = k + 1;
    }
    ends
}

/// The row of the table for pattern position `i`, from the rows for `i + 1`
/// and `i + 2`.
fn glob_row(
    pattern: &[u8],
    path: &[u8],
    i: usize,
    next1: &Vec<bool>,
    next2: &Vec<bool>,
    ends: &Vec<usize>,
) -> (row: Vec<bool>)
    requires
        i < pattern@.len(),
        ends_hold(path@, ends@),
        row_holds(pattern@, path@, i + 1, next1@, (path@.len() + 1) as int),
        i + 2 <= pattern@.len() ==> row_holds(pattern@, path@, i + 2, next2@, (path@.len() + 1) as int),
    ensures
        row_holds(pattern@, path@, i as int, row@, (path@.len() + 1) as int),
{
    let plen = pattern.len();
    let tlen = path.len();
    let c = pattern[i];
    let double = c == STAR && i + 1 < plen && pattern[i + 1] == STAR;
    let mut row: Vec<bool> = Vec::new();
    let mut k: usize = 0;
    loop
        invariant_except_break
            k <= tlen,
            row_holds(pattern@, path@, i as int, row@, k as int),
        invariant
            plen == pattern@.len(),
            tlen == path@.len(),
            i < plen,
            c == pattern@[i as int],
            double == (c == STAR && i + 1 < plen && pattern@[i + 1] == STAR),
            ends_hold(path@, ends@),
            row_holds(pattern@, path@, i + 1, next1@, tlen + 1),
            i + 2 <= plen ==> row_holds(pattern@, path@, i + 2, next2@, tlen + 1),
        ensures
            row_holds(pattern@, path@, i as int, row@, tlen + 1),
        decreases tlen - k,
    {
        // The cell for the path from `j` on, where `j == tlen - k`.
        let cell = if double {
            next2[k] || (k > 0 && row[k - 1])
        } else if c == STAR {
            next1[k] || (k > 0 && path[tlen - k] != SLASH && row[k - 1])
        } else if c == QUESTION {
            if k > 0 && path[tlen - k] != SLASH && !(path[tlen - k] >= 0x80 && path[tlen - k]
                < 0xC0) {
                proof {
                    lemma_char_end(path@, tlen - k + 1);
                }
                next1[tlen - ends[k - 1]]
            } else {
                false
            }
        } else {
            k > 0 && path[tlen - k] == c && next1[k - 1]
        };
        row.push(cell);
        if k == tlen {
            break ;
        }
        k = k + 1;
    }
    row
}

/// The row of the table for the end of the pattern: only the end of the path
/// matches there.
fn glob_last_row(pattern: &[u8], path: &[u8]) -> (row: Vec<bool>)
    ensures
        row_holds(pattern@, path@, pattern@.len() as int, row@, (path@.len() + 1) as int),
{
    let tlen = path.len();
    let mut row: Vec<bool> = Vec::new();
    row.push(true);
    let mut k: usize = 0;
    while k < tlen
        invariant
            k <= tlen,
            tlen == path@.len(),
            row_holds(pattern@, path@, pattern@.len() as int, row@, k + 1),
        decreases tlen - k,
    {
        row.push(false);
        k = k + 1;
    }
    row
}

/// Whether the pattern matches the whole path.
pub fn glob_match(pattern: &[u8], path: &[u8]) -> (matched: bool)
    ensures
        matched == glob_matches(pattern@, path@),
{
    let plen = pattern.len();
    let tlen = path.len();
    let ends = char_ends(path);
    let mut next1 = glob_last_row(pattern, path);
    let mut next2: Vec<bool> = Vec::new();
    let mut i: usize = plen;
    while i > 0
        invariant
            i <= plen,
            plen == pattern@.len(),
            tlen == path@.len(),
            ends_hold(path@, ends@),
            row_holds(pattern@, path@, i as int, next1@, tlen + 1),
            i + 1 <= plen ==> row_holds(pattern@, path@, i + 1, next2@, tlen + 1),
        decreases i,
    {
        i = i - 1;
        let row = glob_row(pattern, path, i, &next1, &next2, &ends);
        next2 = next1;
        next1 = row;
    }
    next1[tlen]
}

/// Whether one of the patterns matches the path.
pub fn any_match(patterns: &Vec<Vec<u8>>, path: &[u8]) -> (matched: bool)
    ensures
        matched == any_matches(patterns@, path@),
{
    let mut k: usize = 0;
    while k < patterns.len()
        invariant
            k <= patterns@.len(),
            forall|m: int| 0 <= m < k ==> !glob_matches(#[trigger] patterns@[m]@, path@),
        decreases patterns@.len() - k,
    {
        if glob_match(patterns[k].as_slice(), path) {
            return true;
        }
        k = k + 1;
    }
    false
}

} // verus!
