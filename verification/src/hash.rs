//! The hybrid content hasher.
//!
//! Two algorithms stand behind it: XXH3 with 64 bits, from `xxhash-rust`,
//! for speed, and BLAKE3, from `blake3`, whose first eight digest bytes are
//! read as a little-endian number. What the two compute is not restated
//! here: their results are named by [`xxh3_digest`] and [`blake3_digest`],
//! and everything this module proves is stated over those names.

use vstd::prelude::*;
use vstd::bytes::{spec_u64_from_le_bytes, u64_from_le_bytes};
use vstd::slice::{slice_subrange, slice_to_vec};
use vstd::utf8::valid_utf8;
use crate::entropy::{high_entropy, is_high_entropy};
use crate::path::is_utf8;

verus! {

/// Input length at which the hybrid strategy switches to the tree hash: 1 MiB.
pub const HYBRID_THRESHOLD: usize = 1048576;

/// Bytes an incremental hasher takes in at a time unless told otherwise.
pub const DEFAULT_BLOCK_SIZE: u32 = 4096;

/// A fingerprint of some bytes.
#[derive(Debug, Clone, Copy, PartialEq, Eq, Structural)]
pub struct HashResult {
    /// The 64-bit fingerprint.
    pub hash: u64,
    /// The length of the input, saturated at `u32::MAX`.
    pub size: u32,
    /// Whether the fingerprint was computed chunk by chunk.
    pub is_incremental: bool,
}

/// Why no fingerprint could be taken.
#[derive(Debug, Clone, PartialEq, Eq)]
pub enum HashError {
    /// The path is not UTF-8, or it names no file.
    InvalidPath(Vec<u8>),
    /// The file exists but could not be read.
    ReadFailed(Vec<u8>),
    /// The algorithm reported a failure. Neither algorithm of this library
    /// can fail, so no function here returns this.
    ComputationFailed,
    /// An incremental hasher could not be set up.
    HasherNotInitialized,
}

/// The vector instructions a machine offers.
#[derive(Debug, Clone, Copy, PartialEq, Eq, Structural)]
pub enum SimdLevel {
    /// No vector instructions.
    Scalar,
    Neon,
    Avx2,
    Avx512,
    /// The vector code that BLAKE3 selects by itself.
    Blake3,
}

/// How the engine picks the algorithm.
#[derive(Debug, Clone, Copy, PartialEq, Eq, Structural)]
pub enum HashStrategy {
    /// BLAKE3 for every input.
    Blake3Only,
    /// XXH3 for every input.
    Xxh3Only,
    /// BLAKE3 for inputs of 1 MiB or more, XXH3 for smaller ones.
    Hybrid,
    /// BLAKE3 for inputs of 1 MiB or more and for bytes of high entropy,
    /// XXH3 for the rest.
    Auto,
}

/// One of the two algorithms.
#[derive(Debug, Clone, Copy, PartialEq, Eq, Structural)]
pub enum Algorithm {
    /// XXH3, 64 bits.
    Fast,
    /// BLAKE3, first eight digest bytes.
    Tree,
}

/// The 32 bytes that `blake3::hash` returns for an input.
pub uninterp spec fn blake3_digest(input: Seq<u8>) -> Seq<u8>;

/// The number that `xxhash_rust::xxh3::xxh3_64` returns for an input.
pub uninterp spec fn xxh3_digest(input: Seq<u8>) -> u64;

/// Trusted: `blake3::hash` computes the BLAKE3 digest of the input, 32
/// bytes that depend on the input alone.
#[verifier::external_body]
pub(crate) fn blake3_hash(input: &[u8]) -> (digest: [u8; 32])
    ensures
        digest@ == blake3_digest(input@),
{
    *blake3::hash(input).as_bytes()
}

/// Trusted: `xxhash_rust::xxh3::xxh3_64` computes the 64-bit XXH3 hash of
/// the input, a number that depends on the input alone.
#[verifier::external_body]
pub(crate) fn xxh3_hash(input: &[u8]) -> (digest: u64)
    ensures
        digest == xxh3_digest(input@),
{
    xxhash_rust::xxh3::xxh3_64(input)
}

/// The size recorded for an input of `len` bytes: the length, saturated at
/// `u32::MAX`.
pub open spec fn recorded_size(len: nat) -> u32 {
    if len <= u32::MAX as nat {
        len as u32
    } else {
        u32::MAX
    }
}

/// The size recorded for an input of `len` bytes.
pub fn saturate_size(len: u64) -> (size: u32)
    ensures
        size == recorded_size(len as nat),
{
    if len <= u32::MAX as u64 {
        len as u32
    } else {
        u32::MAX
    }
}

/// The fingerprint the tree algorithm gives: the first eight bytes of the
/// BLAKE3 digest, read as a little-endian number.
pub open spec fn tree_fingerprint(input: Seq<u8>) -> u64 {
    spec_u64_from_le_bytes(blake3_digest(input).subrange(0, 8))
}

/// The fingerprint the fast algorithm gives: the XXH3 hash.
pub open spec fn fast_fingerprint(input: Seq<u8>) -> u64 {
    xxh3_digest(input)
}

/// What an algorithm returns for an input taken at once.
pub open spec fn fingerprint(algorithm: Algorithm, input: Seq<u8>) -> HashResult {
    HashResult {
        hash: match algorithm {
            Algorithm::Fast => fast_fingerprint(input),
            Algorithm::Tree => tree_fingerprint(input),
        },
        size: recorded_size(input.len()),
        is_incremental: false,
    }
}

/// The algorithm a strategy picks for bytes in memory.
pub open spec fn algorithm_for_bytes(strategy: HashStrategy, input: Seq<u8>) -> Algorithm {
    match strategy {
        HashStrategy::Blake3Only => Algorithm::Tree,
        HashStrategy::Xxh3Only => Algorithm::Fast,
        HashStrategy::Hybrid => if input.len() >= HYBRID_THRESHOLD {
            Algorithm::Tree
        } else {
            Algorithm::Fast
        },
        HashStrategy::Auto => if high_entropy(input) || input.len() >= HYBRID_THRESHOLD {
            Algorithm::Tree
        } else {
            Algorithm::Fast
        },
    }
}

/// The algorithm a strategy picks for a file of `size` bytes. No entropy is
/// sampled for files: `Auto` goes by the size as `Hybrid` does.
pub open spec fn algorithm_for_file(strategy: HashStrategy, size: u64) -> Algorithm {
    match strategy {
        HashStrategy::Blake3Only => Algorithm::Tree,
        HashStrategy::Xxh3Only => Algorithm::Fast,
        HashStrategy::Hybrid | HashStrategy::Auto => if size >= HYBRID_THRESHOLD {
            Algorithm::Tree
        } else {
            Algorithm::Fast
        },
    }
}

/// What hashing the bytes read from a file returns under one algorithm:
/// `InvalidPath` for a path that is not UTF-8, else `ReadFailed` where
/// nothing was read, else the fingerprint of what was read.
pub open spec fn read_fingerprint(
    algorithm: Algorithm,
    path: Seq<u8>,
    contents: Option<Seq<u8>>,
) -> Result<HashResult, HashErrorView> {
    if !valid_utf8(path) {
        Err(HashErrorView::InvalidPath(path))
    } else {
        match contents {
            None => Err(HashErrorView::ReadFailed(path)),
            Some(bytes) => Ok(fingerprint(algorithm, bytes)),
        }
    }
}

/// What hashing a file returns. `stat_len` is the file's size as its
/// metadata gives it, `None` if there is no such file; `contents` are the
/// bytes read, `None` if reading failed.
///
/// A path that is not UTF-8, or that names no file, is an `InvalidPath`; a
/// file that cannot be read is a `ReadFailed`; any other file has the
/// fingerprint of its bytes by the algorithm that the strategy picks for
/// the size in the metadata.
pub open spec fn file_fingerprint(
    strategy: HashStrategy,
    path: Seq<u8>,
    stat_len: Option<u64>,
    contents: Option<Seq<u8>>,
) -> Result<HashResult, HashErrorView> {
    match stat_len {
        None => Err(HashErrorView::InvalidPath(path)),
        Some(size) => read_fingerprint(algorithm_for_file(strategy, size), path, contents),
    }
}

/// A file whose metadata gives the length of its bytes hashes like those
/// bytes: under every strategy but `Auto` as the strategy hashes bytes, and
/// under `Auto` as `Hybrid` does. An empty file hashes like no bytes under
/// every strategy.
pub proof fn lemma_file_hashes_like_bytes(strategy: HashStrategy, path: Seq<u8>, bytes: Seq<u8>)
    requires
        valid_utf8(path),
        bytes.len() <= u64::MAX,
    ensures
        strategy != HashStrategy::Auto ==> file_fingerprint(
            strategy,
            path,
            Some(bytes.len() as u64),
            Some(bytes),
        ) == Ok::<HashResult, HashErrorView>(
            fingerprint(algorithm_for_bytes(strategy, bytes), bytes),
        ),
        file_fingerprint(HashStrategy::Auto, path, Some(bytes.len() as u64), Some(bytes)) == Ok::<
            HashResult,
            HashErrorView,
        >(fingerprint(algorithm_for_bytes(HashStrategy::Hybrid, bytes), bytes)),
        bytes.len() == 0 ==> file_fingerprint(strategy, path, Some(0), Some(bytes)) == Ok::<
            HashResult,
            HashErrorView,
        >(fingerprint(algorithm_for_bytes(strategy, bytes), bytes)),
{
}

/// The mathematical value of a [`HashError`].
pub enum HashErrorView {
    InvalidPath(Seq<u8>),
    ReadFailed(Seq<u8>),
    ComputationFailed,
    HasherNotInitialized,
}

impl View for HashError {
    type V = HashErrorView;

    open spec fn view(&self) -> HashErrorView {
        match self {
            HashError::InvalidPath(path) => HashErrorView::InvalidPath(path@),
            HashError::ReadFailed(path) => HashErrorView::ReadFailed(path@),
            HashError::ComputationFailed => HashErrorView::ComputationFailed,
            HashError::HasherNotInitialized => HashErrorView::HasherNotInitialized,
        }
    }
}

/// The view of a result of hashing.
pub open spec fn outcome(result: Result<HashResult, HashError>) -> Result<HashResult, HashErrorView> {
    match result {
        Ok(r) => Ok(r),
        Err(e) => Err(e@),
    }
}

/// At the hybrid threshold: an input of exactly 1 MiB goes to the tree
/// algorithm, one of a byte less to the fast algorithm, under `Hybrid` for
/// bytes and under `Hybrid` and `Auto` for files.
pub proof fn lemma_hybrid_boundary(input: Seq<u8>)
    ensures
        input.len() == HYBRID_THRESHOLD ==> algorithm_for_bytes(HashStrategy::Hybrid, input)
            == Algorithm::Tree,
        input.len() == HYBRID_THRESHOLD - 1 ==> algorithm_for_bytes(HashStrategy::Hybrid, input)
            == Algorithm::Fast,
        algorithm_for_file(HashStrategy::Hybrid, 1048576) == Algorithm::Tree,
        algorithm_for_file(HashStrategy::Hybrid, 1048575) == Algorithm::Fast,
        algorithm_for_file(HashStrategy::Auto, 1048576) == Algorithm::Tree,
        algorithm_for_file(HashStrategy::Auto, 1048575) == Algorithm::Fast,
{
}

/// The recorded size is the length up to `u32::MAX`, which is recorded as
/// itself, and `u32::MAX` beyond; no input has size 0 but the empty one.
pub proof fn lemma_recorded_size(len: nat)
    ensures
        len <= 0xffff_ffff ==> recorded_size(len) == len,
        len >= 0xffff_ffff ==> recorded_size(len) == 0xffff_ffff,
        recorded_size(len) == 0 <==> len == 0,
{
}

/// The hashing engine: a strategy, and the vector instructions it was told
/// the machine has.
#[derive(Debug, Clone, Copy, PartialEq, Eq, Structural)]
pub struct HashEngine {
    simd_level: SimdLevel,
    strategy: HashStrategy,
}

impl HashEngine {
    /// The strategy.
    pub closed spec fn spec_strategy(&self) -> HashStrategy {
        self.strategy
    }

    /// The vector instructions the engine was told of.
    pub closed spec fn spec_simd_level(&self) -> SimdLevel {
        self.simd_level
    }

    /// An engine with the hybrid strategy.
    pub fn new() -> (engine: HashEngine)
        ensures
            engine.spec_strategy() == HashStrategy::Hybrid,
            engine.spec_simd_level() == SimdLevel::Scalar,
    {
        HashEngine::with_strategy(HashStrategy::Hybrid)
    }

    /// An engine with the given strategy. It knows of no vector
    /// instructions; see [`HashEngine::with_simd_level`].
    pub fn with_strategy(strategy: HashStrategy) -> (engine: HashEngine)
        ensures
            engine.spec_strategy() == strategy,
            engine.spec_simd_level() == SimdLevel::Scalar,
    {
        HashEngine { simd_level: SimdLevel::Scalar, strategy }
    }

    /// An engine with the given strategy on a machine that was found to have
    /// the given vector instructions.
    pub fn with_simd_level(strategy: HashStrategy, simd_level: SimdLevel) -> (engine: HashEngine)
        ensures
            engine.spec_strategy() == strategy,
            engine.spec_simd_level() == simd_level,
    {
        HashEngine { simd_level, strategy }
    }

    /// The strategy.
    pub fn strategy(&self) -> (strategy: HashStrategy)
        ensures
            strategy == self.spec_strategy(),
    {
        self.strategy
    }

    /// The vector instructions the engine was told of.
    pub fn simd_level(&self) -> (level: SimdLevel)
        ensures
            level == self.spec_simd_level(),
    {
        self.simd_level
    }

    /// The fingerprint of `data` by BLAKE3.
    pub fn hash_bytes_blake3(&self, data: &[u8]) -> (result: Result<HashResult, HashError>)
        ensures
            result == Ok::<HashResult, HashError>(fingerprint(Algorithm::Tree, data@)),
    {
        let digest = blake3_hash(data);
        let hash = u64_from_le_bytes(slice_subrange(digest.as_slice(), 0, 8));
        Ok(HashResult { hash, size: saturate_size(data.len() as u64), is_incremental: false })
    }

    /// The fingerprint of `data` by XXH3.
    pub fn hash_bytes_xxh3(&self, data: &[u8]) -> (result: Result<HashResult, HashError>)
        ensures
            result == Ok::<HashResult, HashError>(fingerprint(Algorithm::Fast, data@)),
    {
        let hash = xxh3_hash(data);
        Ok(HashResult { hash, size: saturate_size(data.len() as u64), is_incremental: false })
    }

    /// The fingerprint of `data` by BLAKE3 if the bytes have high entropy or
    /// are 1 MiB or more, else by XXH3.
    pub fn hash_bytes_auto(&self, data: &[u8]) -> (result: Result<HashResult, HashError>)
        ensures
            result == Ok::<HashResult, HashError>(
                fingerprint(algorithm_for_bytes(HashStrategy::Auto, data@), data@),
            ),
    {
        if is_high_entropy(data) || data.len() >= HYBRID_THRESHOLD {
            self.hash_bytes_blake3(data)
        } else {
            self.hash_bytes_xxh3(data)
        }
    }

    /// The fingerprint of `data` by the algorithm the strategy picks. It
    /// never fails, and it is the same for the same bytes and strategy.
    pub fn hash_bytes(&self, data: &[u8]) -> (result: Result<HashResult, HashError>)
        ensures
            result == Ok::<HashResult, HashError>(
                fingerprint(algorithm_for_bytes(self.spec_strategy(), data@), data@),
            ),
    {
        match self.strategy {
            HashStrategy::Blake3Only => self.hash_bytes_blake3(data),
            HashStrategy::Xxh3Only => self.hash_bytes_xxh3(data),
            HashStrategy::Hybrid => {
                if data.len() >= HYBRID_THRESHOLD {
                    self.hash_bytes_blake3(data)
                } else {
                    self.hash_bytes_xxh3(data)
                }
            },
            HashStrategy::Auto => self.hash_bytes_auto(data),
        }
    }

    /// The fingerprint of what was read of a file with a UTF-8 path.
    fn read_with(&self, algorithm: Algorithm, path: &[u8], contents: Option<&[u8]>) -> (result:
        Result<HashResult, HashError>)
        requires
            valid_utf8(path@),
        ensures
            outcome(result) == read_fingerprint(
                algorithm,
                path@,
                match contents {
                    Some(bytes) => Some(bytes@),
                    None => None,
                },
            ),
    {
        match contents {
            None => Err(HashError::ReadFailed(slice_to_vec(path))),
            Some(bytes) => match algorithm {
                Algorithm::Tree => self.hash_bytes_blake3(bytes),
                Algorithm::Fast => self.hash_bytes_xxh3(bytes),
            },
        }
    }

    /// The fingerprint by BLAKE3 of a file whose bytes were read:
    /// `InvalidPath` for a path that is not UTF-8, else `ReadFailed` where
    /// nothing was read.
    pub fn hash_file_blake3(&self, path: &[u8], contents: Option<&[u8]>) -> (result: Result<
        HashResult,
        HashError,
    >)
        ensures
            outcome(result) == read_fingerprint(
                Algorithm::Tree,
                path@,
                match contents {
                    Some(bytes) => Some(bytes@),
                    None => None,
                },
            ),
    {
        if !is_utf8(path) {
            return Err(HashError::InvalidPath(slice_to_vec(path)));
        }
        self.read_with(Algorithm::Tree, path, contents)
    }

    /// The fingerprint by XXH3 of a file whose bytes were read:
    /// `InvalidPath` for a path that is not UTF-8, else `ReadFailed` where
    /// nothing was read.
    pub fn hash_file_xxh3(&self, path: &[u8], contents: Option<&[u8]>) -> (result: Result<
        HashResult,
        HashError,
    >)
        ensures
            outcome(result) == read_fingerprint(
                Algorithm::Fast,
                path@,
                match contents {
                    Some(bytes) => Some(bytes@),
                    None => None,
                },
            ),
    {
        if !is_utf8(path) {
            return Err(HashError::InvalidPath(slice_to_vec(path)));
        }
        self.read_with(Algorithm::Fast, path, contents)
    }

    /// The fingerprint of a file of `size` bytes under `Auto`: by BLAKE3 from
    /// 1 MiB on, else by XXH3.
    pub fn hash_file_auto(&self, path: &[u8], size: u64, contents: Option<&[u8]>) -> (result:
        Result<HashResult, HashError>)
        ensures
            outcome(result) == file_fingerprint(
                HashStrategy::Auto,
                path@,
                Some(size),
                match contents {
                    Some(bytes) => Some(bytes@),
                    None => None,
                },
            ),
    {
        if size >= HYBRID_THRESHOLD as u64 {
            return self.hash_file_blake3(path, contents);
        }
        self.hash_file_xxh3(path, contents)
    }

    /// The fingerprint of a file. The caller examines and reads the file and
    /// hands over what it found: `stat_len`, the size in the file's metadata,
    /// or `None` if there is no such file; and `contents`, the bytes read, or
    /// `None` if reading failed.
    ///
    /// The result is `InvalidPath` for a path that is not UTF-8 and for one
    /// without metadata, else `ReadFailed` without contents, else the
    /// fingerprint of the contents by the algorithm that the strategy picks
    /// for the size in the metadata.
    pub fn hash_file(&self, path: &[u8], stat_len: Option<u64>, contents: Option<&[u8]>) -> (result:
        Result<HashResult, HashError>)
        ensures
            outcome(result) == file_fingerprint(
                self.spec_strategy(),
                path@,
                stat_len,
                match contents {
                    Some(bytes) => Some(bytes@),
                    None => None,
                },
            ),
    {
        if !is_utf8(path) {
            return Err(HashError::InvalidPath(slice_to_vec(path)));
        }
        let size = match stat_len {
            None => {
                return Err(HashError::InvalidPath(slice_to_vec(path)));
            },
            Some(size) => size,
        };
        let algorithm = match self.strategy {
            HashStrategy::Blake3Only => Algorithm::Tree,
            HashStrategy::Xxh3Only => Algorithm::Fast,
            HashStrategy::Hybrid | HashStrategy::Auto => {
                if size >= HYBRID_THRESHOLD as u64 {
                    Algorithm::Tree
                } else {
                    Algorithm::Fast
                }
            },
        };
        self.read_with(algorithm, path, contents)
    }
}

impl Default for HashEngine {
    /// An engine with the hybrid strategy.
    fn default() -> (engine: HashEngine)
        ensures
            engine.spec_strategy() == HashStrategy::Hybrid,
    {
        HashEngine::new()
    }
}

/// Something that takes fingerprints of bytes and of files.
pub trait FastHash {
    /// The fingerprint of `data`.
    fn hash_bytes(&self, data: &[u8]) -> Result<HashResult, HashError>;

    /// The fingerprint of a file, from what the caller found of it: the size
    /// in its metadata and its bytes.
    fn hash_file(&self, path: &[u8], stat_len: Option<u64>, contents: Option<&[u8]>) -> Result<
        HashResult,
        HashError,
    >;
}

impl FastHash for HashEngine {
    fn hash_bytes(&self, data: &[u8]) -> (result: Result<HashResult, HashError>)
        ensures
            result == Ok::<HashResult, HashError>(
                fingerprint(algorithm_for_bytes(self.spec_strategy(), data@), data@),
            ),
    {
        HashEngine::hash_bytes(self, data)
    }

    fn hash_file(&self, path: &[u8], stat_len: Option<u64>, contents: Option<&[u8]>) -> (result:
        Result<HashResult, HashError>)
        ensures
            outcome(result) == file_fingerprint(
                self.spec_strategy(),
                path@,
                stat_len,
                match contents {
                    Some(bytes) => Some(bytes@),
                    None => None,
                },
            ),
    {
        HashEngine::hash_file(self, path, stat_len, contents)
    }
}

/// The fingerprint of `data` under the hybrid strategy.
pub fn hash_bytes(data: &[u8]) -> (result: Result<HashResult, HashError>)
    ensures
        result == Ok::<HashResult, HashError>(
            fingerprint(algorithm_for_bytes(HashStrategy::Hybrid, data@), data@),
        ),
{
    let engine = HashEngine::new();
    engine.hash_bytes(data)
}

/// The fingerprint of a file under the hybrid strategy; see
/// [`HashEngine::hash_file`].
pub fn hash_file(path: &[u8], stat_len: Option<u64>, contents: Option<&[u8]>) -> (result: Result<
    HashResult,
    HashError,
>)
    ensures
        outcome(result) == file_fingerprint(
            HashStrategy::Hybrid,
            path@,
            stat_len,
            match contents {
                Some(bytes) => Some(bytes@),
                None => None,
            },
        ),
{
    let engine = HashEngine::new();
    engine.hash_file(path, stat_len, contents)
}

/// The fingerprint of `data` by BLAKE3.
pub fn hash_bytes_blake3(data: &[u8]) -> (result: Result<HashResult, HashError>)
    ensures
        result == Ok::<HashResult, HashError>(fingerprint(Algorithm::Tree, data@)),
{
    let engine = HashEngine::with_strategy(HashStrategy::Blake3Only);
    engine.hash_bytes(data)
}

/// The fingerprint of a file by BLAKE3; see [`HashEngine::hash_file`].
pub fn hash_file_blake3(path: &[u8], stat_len: Option<u64>, contents: Option<&[u8]>) -> (result:
    Result<HashResult, HashError>)
    ensures
        outcome(result) == file_fingerprint(
            HashStrategy::Blake3Only,
            path@,
            stat_len,
            match contents {
                Some(bytes) => Some(bytes@),
                None => None,
            },
        ),
{
    let engine = HashEngine::with_strategy(HashStrategy::Blake3Only);
    engine.hash_file(path, stat_len, contents)
}

/// The fingerprint of `data` by XXH3.
pub fn hash_bytes_xxh3(data: &[u8]) -> (result: Result<HashResult, HashError>)
    ensures
        result == Ok::<HashResult, HashError>(fingerprint(Algorithm::Fast, data@)),
{
    let engine = HashEngine::with_strategy(HashStrategy::Xxh3Only);
    engine.hash_bytes(data)
}

/// The fingerprint of a file by XXH3; see [`HashEngine::hash_file`].
pub fn hash_file_xxh3(path: &[u8], stat_len: Option<u64>, contents: Option<&[u8]>) -> (result:
    Result<HashResult, HashError>)
    ensures
        outcome(result) == file_fingerprint(
            HashStrategy::Xxh3Only,
            path@,
            stat_len,
            match contents {
                Some(bytes) => Some(bytes@),
                None => None,
            },
        ),
{
    let engine = HashEngine::with_strategy(HashStrategy::Xxh3Only);
    engine.hash_file(path, stat_len, contents)
}

} // verus!
