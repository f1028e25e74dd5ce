//! Hashers that take their input piece by piece.

use vstd::prelude::*;
use vstd::bytes::u64_from_le_bytes;
use vstd::slice::slice_subrange;
use crate::hash::{
    blake3_digest, fingerprint, recorded_size, saturate_size, xxh3_digest, Algorithm, HashError,
    HashResult, DEFAULT_BLOCK_SIZE,
};

verus! {

/// `xxhash_rust::xxh3::Xxh3`, the streaming state of XXH3.
#[verifier::external_type_specification]
#[verifier::external_body]
pub struct ExXxh3(xxhash_rust::xxh3::Xxh3);

/// `blake3::Hasher`, the streaming state of BLAKE3.
#[verifier::external_type_specification]
#[verifier::external_body]
pub struct ExBlake3Hasher(blake3::Hasher);

/// The bytes an XXH3 state has taken in, in their order.
pub uninterp spec fn xxh3_taken(state: xxhash_rust::xxh3::Xxh3) -> Seq<u8>;

/// The bytes a BLAKE3 state has taken in, in their order.
pub uninterp spec fn blake3_taken(state: blake3::Hasher) -> Seq<u8>;

/// No bytes.
pub open spec fn nothing() -> Seq<u8> {
    Seq::empty()
}

/// Trusted: `Xxh3::new` makes a state that has taken in nothing.
#[verifier::external_body]
pub(crate) fn xxh3_state_new() -> (state: xxhash_rust::xxh3::Xxh3)
    ensures
        xxh3_taken(state) == nothing(),
{
    xxhash_rust::xxh3::Xxh3::new()
}

/// Trusted: `Xxh3::update` takes in the bytes after those taken before.
#[verifier::external_body]
pub(crate) fn xxh3_state_update(state: &mut xxhash_rust::xxh3::Xxh3, input: &[u8])
    ensures
        xxh3_taken(*final(state)) == xxh3_taken(*old(state)) + input@,
{
    state.update(input);
}

/// Trusted: `Xxh3::digest` returns what `xxh3_64` returns for all the bytes
/// taken in, whatever the pieces they came in.
#[verifier::external_body]
pub(crate) fn xxh3_state_digest(state: &xxhash_rust::xxh3::Xxh3) -> (digest: u64)
    ensures
        digest == xxh3_digest(xxh3_taken(*state)),
{
    state.digest()
}

/// Trusted: `Hasher::new` makes a state that has taken in nothing.
#[verifier::external_body]
pub(crate) fn blake3_state_new() -> (state: blake3::Hasher)
    ensures
        blake3_taken(state) == nothing(),
{
    blake3::Hasher::new()
}

/// Trusted: `Hasher::reset` puts the state back to having taken in nothing.
#[verifier::external_body]
pub(crate) fn blake3_state_reset(state: &mut blake3::Hasher)
    ensures
        blake3_taken(*final(state)) == nothing(),
{
    state.reset();
}

/// Trusted: `Hasher::update` takes in the bytes after those taken before.
#[verifier::external_body]
pub(crate) fn blake3_state_update(state: &mut blake3::Hasher, input: &[u8])
    ensures
        blake3_taken(*final(state)) == blake3_taken(*old(state)) + input@,
{
    state.update(input);
}

/// Trusted: `Hasher::finalize` returns what `blake3::hash` returns for all
/// the bytes taken in, and leaves the state as it is.
#[verifier::external_body]
pub(crate) fn blake3_state_finalize(state: &blake3::Hasher) -> (digest: [u8; 32])
    ensures
        digest@ == blake3_digest(blake3_taken(*state)),
{
    *state.finalize().as_bytes()
}

/// A BLAKE3 hasher that is used again and again.
pub struct Blake3FastHash {
    hasher: blake3::Hasher,
}

impl Blake3FastHash {
    /// The bytes the hasher took in since it was last reset.
    pub closed spec fn taken(&self) -> Seq<u8> {
        blake3_taken(self.hasher)
    }

    /// A hasher that has taken in nothing.
    pub fn new() -> (hasher: Blake3FastHash)
        ensures
            hasher.taken() == nothing(),
    {
        Blake3FastHash { hasher: blake3_state_new() }
    }

    /// The fingerprint of `data` by BLAKE3. What the hasher took in before
    /// does not count; afterwards it has taken in `data`.
    pub fn hash_bytes(&mut self, data: &[u8]) -> (result: Result<HashResult, HashError>)
        ensures
            result == Ok::<HashResult, HashError>(fingerprint(Algorithm::Tree, data@)),
            final(self).taken() == data@,
    {
        blake3_state_reset(&mut self.hasher);
        blake3_state_update(&mut self.hasher, data);
        let digest = blake3_state_finalize(&self.hasher);
        proof {
            assert(nothing() + data@ =~= data@);
        }
        let hash = u64_from_le_bytes(slice_subrange(digest.as_slice(), 0, 8));
        Ok(HashResult { hash, size: saturate_size(data.len() as u64), is_incremental: false })
    }
}

impl Default for Blake3FastHash {
    /// A hasher that has taken in nothing.
    fn default() -> (hasher: Blake3FastHash)
        ensures
            hasher.taken() == nothing(),
    {
        Blake3FastHash::new()
    }
}

/// What an incremental hasher returns after it has taken in `taken`.
pub open spec fn incremental_fingerprint(taken: Seq<u8>) -> HashResult {
    HashResult {
        hash: xxh3_digest(taken),
        size: recorded_size(taken.len()),
        is_incremental: true,
    }
}

/// Something that takes fingerprints of input that comes in pieces.
pub trait IncrementalHash: Sized {
    /// Whether the hasher is in a state to take input.
    spec fn ready(&self) -> bool;

    /// A hasher that takes its input in blocks of the given size, or of 4096
    /// bytes.
    fn new(block_size: Option<u32>) -> (hasher: Result<Self, HashError>)
        ensures
            hasher matches Ok(h) ==> h.ready(),
    ;

    /// Takes in `data`; the result is the fingerprint of all that was taken
    /// in so far.
    fn update(&mut self, data: &[u8]) -> (result: Result<HashResult, HashError>)
        requires
            old(self).ready(),
        ensures
            final(self).ready(),
    ;

    /// The fingerprint of all that was taken in.
    fn finalize(self) -> (result: Result<HashResult, HashError>)
        requires
            self.ready(),
    ;
}

/// An XXH3 hasher that takes its input piece by piece. Its fingerprint is
/// that of all the pieces put together.
pub struct IncrementalHasher {
    state: xxhash_rust::xxh3::Xxh3,
    total: u64,
    block_size: u32,
}

impl IncrementalHasher {
    /// The bytes taken in so far.
    pub closed spec fn taken(&self) -> Seq<u8> {
        xxh3_taken(self.state)
    }

    /// The size of the blocks the hasher was set up for.
    pub closed spec fn spec_block_size(&self) -> u32 {
        self.block_size
    }

    /// The hasher counts the bytes it took in, up to `u64::MAX`.
    pub closed spec fn wf(&self) -> bool {
        self.total == if xxh3_taken(self.state).len() <= u64::MAX {
            xxh3_taken(self.state).len() as u64
        } else {
            u64::MAX
        }
    }

    /// The size of the blocks the hasher was set up for.
    pub fn block_size(&self) -> (size: u32)
        ensures
            size == self.spec_block_size(),
    {
        self.block_size
    }
}

impl IncrementalHash for IncrementalHasher {
    open spec fn ready(&self) -> bool {
        self.wf()
    }

    /// A hasher that has taken in nothing. A block size of 0 is refused
    /// with `HasherNotInitialized`.
    fn new(block_size: Option<u32>) -> (hasher: Result<IncrementalHasher, HashError>)
        ensures
            hasher is Ok <==> block_size != Some(0u32),
            hasher matches Err(e) ==> e@ == crate::hash::HashErrorView::HasherNotInitialized,
            hasher matches Ok(h) ==> {
                &&& h.wf()
                &&& h.taken() == nothing()
                &&& h.spec_block_size() == match block_size {
                    Some(size) => size,
                    None => DEFAULT_BLOCK_SIZE,
                }
            },
    {
        let size = match block_size {
            Some(size) => size,
            None => DEFAULT_BLOCK_SIZE,
        };
        if size == 0 {
            return Err(HashError::HasherNotInitialized);
        }
        Ok(
            IncrementalHasher {
                state: xxh3_state_new(),
                total: 0,
                block_size: size,
            },
        )
    }

    /// Takes in `data`. The result is the fingerprint of all that was taken
    /// in so far, marked as incremental.
    fn update(&mut self, data: &[u8]) -> (result: Result<HashResult, HashError>)
        ensures
            final(self).taken() == old(self).taken() + data@,
            final(self).spec_block_size() == old(self).spec_block_size(),
            result == Ok::<HashResult, HashError>(incremental_fingerprint(final(self).taken())),
    {
        xxh3_state_update(&mut self.state, data);
        self.total = self.total.saturating_add(data.len() as u64);
        let hash = xxh3_state_digest(&self.state);
        Ok(HashResult { hash, size: saturate_size(self.total), is_incremental: true })
    }

    /// The fingerprint of all that was taken in, marked as incremental.
    fn finalize(self) -> (result: Result<HashResult, HashError>)
        ensures
            result == Ok::<HashResult, HashError>(incremental_fingerprint(self.taken())),
    {
        let hash = xxh3_state_digest(&self.state);
        Ok(HashResult { hash, size: saturate_size(self.total), is_incremental: true })
    }
}

/// An incremental hasher for blocks of 4096 bytes.
pub fn incremental_hasher() -> (hasher: Result<IncrementalHasher, HashError>)
    ensures
        hasher matches Ok(h) && h.wf() && h.taken() == nothing() && h.spec_block_size()
            == DEFAULT_BLOCK_SIZE,
{
    IncrementalHasher::new(None)
}

} // verus!
