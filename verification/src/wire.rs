//! Little-endian fields in byte records.

use vstd::prelude::*;
use vstd::bytes::{
    lemma_auto_spec_u32_to_from_le_bytes, lemma_auto_spec_u64_to_from_le_bytes,
    spec_u32_from_le_bytes, spec_u32_to_le_bytes, spec_u64_from_le_bytes, spec_u64_to_le_bytes,
    u32_from_le_bytes, u32_to_le_bytes, u64_from_le_bytes, u64_to_le_bytes,
};
use vstd::slice::slice_subrange;

verus! {

/// The four bytes of `x`, least significant first.
#[verifier::inline]
pub open spec fn le32(x: u32) -> Seq<u8> {
    spec_u32_to_le_bytes(x)
}

/// The eight bytes of `x`, least significant first.
#[verifier::inline]
pub open spec fn le64(x: u64) -> Seq<u8> {
    spec_u64_to_le_bytes(x)
}

/// The `u32` stored least significant byte first at `off` in `b`.
pub open spec fn read32(b: Seq<u8>, off: int) -> u32 {
    spec_u32_from_le_bytes(b.subrange(off, off + 4))
}

/// The `u64` stored least significant byte first at `off` in `b`.
pub open spec fn read64(b: Seq<u8>, off: int) -> u64 {
    spec_u64_from_le_bytes(b.subrange(off, off + 8))
}

/// `n` zero bytes.
pub open spec fn zeros(n: nat) -> Seq<u8> {
    Seq::new(n, |i: int| 0u8)
}

/// A field that was written is read back, and fields have their width.
pub proof fn lemma_le_fields()
    ensures
        forall|x: u32| #[trigger] le32(x).len() == 4,
        forall|x: u64| #[trigger] le64(x).len() == 8,
        forall|x: u32| spec_u32_from_le_bytes(#[trigger] le32(x)) == x,
        forall|x: u64| spec_u64_from_le_bytes(#[trigger] le64(x)) == x,
{
    lemma_auto_spec_u32_to_from_le_bytes();
    lemma_auto_spec_u64_to_from_le_bytes();
    assert forall|x: u32| spec_u32_from_le_bytes(#[trigger] le32(x)) == x by {
        assert(le32(x).len() == 4);
    }
    assert forall|x: u64| spec_u64_from_le_bytes(#[trigger] le64(x)) == x by {
        assert(le64(x).len() == 8);
    }
}

/// Appends the four bytes of `x` to `out`.
pub fn put_u32(out: &mut Vec<u8>, x: u32)
    ensures
        final(out)@ == old(out)@ + le32(x),
{
    let mut field = u32_to_le_bytes(x);
    out.append(&mut field);
}

/// Appends the eight bytes of `x` to `out`.
pub fn put_u64(out: &mut Vec<u8>, x: u64)
    ensures
        final(out)@ == old(out)@ + le64(x),
{
    let mut field = u64_to_le_bytes(x);
    out.append(&mut field);
}

/// Reads the `u32` at `off`.
pub fn get_u32(bytes: &[u8], off: usize) -> (x: u32)
    requires
        off + 4 <= bytes@.len(),
    ensures
        x == read32(bytes@, off as int),
{
    let len = bytes.len();
    u32_from_le_bytes(slice_subrange(bytes, off, off + 4))
}

/// Reads the `u64` at `off`.
pub fn get_u64(bytes: &[u8], off: usize) -> (x: u64)
    requires
        off + 8 <= bytes@.len(),
    ensures
        x == read64(bytes@, off as int),
{
    let len = bytes.len();
    u64_from_le_bytes(slice_subrange(bytes, off, off + 8))
}

} // verus!
