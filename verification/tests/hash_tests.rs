use retrigger::entropy::{is_high_entropy, log2_fixed};
use retrigger::hash::{
    hash_bytes, hash_bytes_blake3, hash_bytes_xxh3, hash_file, hash_file_blake3, hash_file_xxh3,
    saturate_size, FastHash, HashEngine, HashError, HashResult, HashStrategy, SimdLevel,
    HYBRID_THRESHOLD,
};
use retrigger::incremental::{incremental_hasher, Blake3FastHash, IncrementalHash, IncrementalHasher};

fn blake3_low8(data: &[u8]) -> u64 {
    let digest = blake3::hash(data);
    let b = digest.as_bytes();
    u64::from_le_bytes([b[0], b[1], b[2], b[3], b[4], b[5], b[6], b[7]])
}

#[test]
fn test_engine_initialization() {
    let engine = HashEngine::new();
    let simd_level = engine.simd_level();
    println!("Detected SIMD level: {simd_level:?}");
    println!("Strategy: {:?}", engine.strategy());
}

#[test]
fn test_hash_strategies() {
    let data = b"Hello, Retrigger! This is a test of the hybrid hashing system.";

    let hybrid = HashEngine::with_strategy(HashStrategy::Hybrid);
    let blake3 = HashEngine::with_strategy(HashStrategy::Blake3Only);
    let xxh3 = HashEngine::with_strategy(HashStrategy::Xxh3Only);
    let auto = HashEngine::with_strategy(HashStrategy::Auto);

    let result_hybrid = hybrid.hash_bytes(data).unwrap();
    let result_blake3 = blake3.hash_bytes(data).unwrap();
    let result_xxh3 = xxh3.hash_bytes(data).unwrap();
    let result_auto = auto.hash_bytes(data).unwrap();

    assert_ne!(result_hybrid.hash, 0);
    assert_ne!(result_blake3.hash, 0);
    assert_ne!(result_xxh3.hash, 0);
    assert_ne!(result_auto.hash, 0);

    assert_eq!(result_hybrid.size, data.len() as u32);
    assert_eq!(result_blake3.size, data.len() as u32);
    assert_eq!(result_xxh3.size, data.len() as u32);
    assert_eq!(result_auto.size, data.len() as u32);
}

#[test]
fn test_hybrid_threshold() {
    let small_data = vec![0u8; 1000];
    let large_data = vec![0u8; 2 * 1024 * 1024];

    let engine = HashEngine::with_strategy(HashStrategy::Hybrid);

    let small_result = engine.hash_bytes(&small_data).unwrap();
    let large_result = engine.hash_bytes(&large_data).unwrap();

    assert_ne!(small_result.hash, 0);
    assert_ne!(large_result.hash, 0);
    assert_eq!(small_result.size, small_data.len() as u32);
    assert_eq!(large_result.size, large_data.len() as u32);
}

#[test]
fn test_prelude_functions() {
    let data = b"Test data for prelude functions";

    let result_default = hash_bytes(data).unwrap();
    let result_blake3 = hash_bytes_blake3(data).unwrap();
    let result_xxh3 = hash_bytes_xxh3(data).unwrap();

    assert_ne!(result_default.hash, 0);
    assert_ne!(result_blake3.hash, 0);
    assert_ne!(result_xxh3.hash, 0);

    assert_ne!(result_blake3.hash, result_xxh3.hash);
}

#[test]
fn test_performance_targets() {
    let mb_data = vec![0xABu8; 1024 * 1024];
    let engine = HashEngine::new();

    let start = std::time::Instant::now();
    for _ in 0..10 {
        engine.hash_bytes(&mb_data).unwrap();
    }
    let elapsed = start.elapsed();
    let avg_per_op = elapsed / 10;

    println!("1MB hash time: {avg_per_op:?} (target: <0.1ms)");

    let estimated_100mb = avg_per_op * 100;
    println!("Estimated 100MB hash time: {estimated_100mb:?} (target: <1ms)");
}

#[test]
fn test_incremental_hashing() {
    let mut hasher = IncrementalHasher::new(Some(1024)).unwrap();

    let chunk1 = b"Hello, ";
    let chunk2 = b"Retrigger!";

    hasher.update(chunk1).unwrap();
    hasher.update(chunk2).unwrap();

    let result = hasher.finalize().unwrap();
    assert!(result.is_incremental);
    assert_eq!(result.size, (chunk1.len() + chunk2.len()) as u32);
}

#[test]
fn incremental_fingerprint_is_that_of_the_whole_input() {
    let mut hasher = incremental_hasher().unwrap();
    assert_eq!(hasher.block_size(), 4096);
    let first = hasher.update(b"Hello, ").unwrap();
    assert_eq!(first.hash, xxhash_rust::xxh3::xxh3_64(b"Hello, "));
    assert_eq!(first.size, 7);
    assert!(first.is_incremental);
    let second = hasher.update(b"Retrigger!").unwrap();
    assert_eq!(second.hash, xxhash_rust::xxh3::xxh3_64(b"Hello, Retrigger!"));
    let last = hasher.finalize().unwrap();
    assert_eq!(last.hash, xxhash_rust::xxh3::xxh3_64(b"Hello, Retrigger!"));
    assert_eq!(last.hash, hash_bytes_xxh3(b"Hello, Retrigger!").unwrap().hash);
    assert_eq!(last.size, 17);
}

#[test]
fn incremental_hasher_refuses_block_size_zero() {
    assert!(matches!(
        IncrementalHasher::new(Some(0)),
        Err(HashError::HasherNotInitialized)
    ));
    assert!(IncrementalHasher::new(None).is_ok());
    assert_eq!(IncrementalHasher::new(Some(1)).unwrap().block_size(), 1);
}

#[test]
fn empty_input_has_the_constants_of_the_algorithms() {
    let fast = hash_bytes_xxh3(b"").unwrap();
    assert_eq!(
        fast,
        HashResult { hash: 0x2D06800538D394C2, size: 0, is_incremental: false }
    );
    let tree = hash_bytes_blake3(b"").unwrap();
    assert_eq!(
        tree,
        HashResult { hash: 0xa6a1f9f5b94913af, size: 0, is_incremental: false }
    );
    assert_eq!(hash_bytes(b"").unwrap(), fast);
}

#[test]
fn fingerprints_are_those_of_the_two_algorithms() {
    let data = b"The quick brown fox jumps over the lazy dog";
    assert_eq!(hash_bytes_xxh3(data).unwrap().hash, xxhash_rust::xxh3::xxh3_64(data));
    assert_eq!(hash_bytes_blake3(data).unwrap().hash, blake3_low8(data));
    assert_ne!(hash_bytes_blake3(data).unwrap().hash, hash_bytes_blake3(b"other").unwrap().hash);
    assert_ne!(hash_bytes_xxh3(data).unwrap().hash, hash_bytes_xxh3(b"other").unwrap().hash);
}

#[test]
fn hashing_is_deterministic() {
    let data: Vec<u8> = (0..5000u32).map(|i| (i * 7 + 3) as u8).collect();
    for strategy in [
        HashStrategy::Blake3Only,
        HashStrategy::Xxh3Only,
        HashStrategy::Hybrid,
        HashStrategy::Auto,
    ] {
        let a = HashEngine::with_strategy(strategy).hash_bytes(&data).unwrap();
        let b = HashEngine::with_strategy(strategy).hash_bytes(&data).unwrap();
        assert_eq!(a, b);
    }
}

#[test]
fn hybrid_switches_exactly_at_one_mebibyte() {
    assert_eq!(HYBRID_THRESHOLD, 1024 * 1024);
    let engine = HashEngine::with_strategy(HashStrategy::Hybrid);
    let at: Vec<u8> = vec![7u8; 1024 * 1024];
    let below: Vec<u8> = vec![7u8; 1024 * 1024 - 1];
    assert_eq!(engine.hash_bytes(&at).unwrap().hash, blake3_low8(&at));
    assert_eq!(engine.hash_bytes(&at).unwrap().size, 1048576);
    assert_eq!(
        engine.hash_bytes(&below).unwrap().hash,
        xxhash_rust::xxh3::xxh3_64(&below)
    );
    assert_eq!(engine.hash_bytes(&below).unwrap().size, 1048575);
}

#[test]
fn recorded_size_saturates() {
    assert_eq!(saturate_size(0), 0);
    assert_eq!(saturate_size(100), 100);
    assert_eq!(saturate_size(4294967295), 4294967295);
    assert_eq!(saturate_size(4294967296), 4294967295);
    assert_eq!(saturate_size(u64::MAX), u32::MAX);
}

#[test]
fn auto_goes_by_entropy_and_size() {
    let engine = HashEngine::with_strategy(HashStrategy::Auto);
    let flat = vec![0u8; 4096];
    assert_eq!(engine.hash_bytes(&flat).unwrap().hash, xxhash_rust::xxh3::xxh3_64(&flat));
    let mixed: Vec<u8> = (0..4096u32).map(|i| i as u8).collect();
    assert_eq!(engine.hash_bytes(&mixed).unwrap().hash, blake3_low8(&mixed));
    let large = vec![0u8; 1024 * 1024];
    assert_eq!(engine.hash_bytes(&large).unwrap().hash, blake3_low8(&large));
    assert_eq!(engine.hash_bytes_auto(&mixed).unwrap().hash, blake3_low8(&mixed));
}

#[test]
fn entropy_estimate_on_known_inputs() {
    assert!(!is_high_entropy(b""));
    assert!(!is_high_entropy(&vec![0u8; 100000]));
    let all: Vec<u8> = (0..=255u8).collect();
    assert!(is_high_entropy(&all));
    // 128 different bytes carry 7 of 8 bits, 64 carry 6 of 8.
    let half: Vec<u8> = (0..128u8).collect();
    assert!(is_high_entropy(&half));
    let quarter: Vec<u8> = (0..64u8).collect();
    assert!(!is_high_entropy(&quarter));
    // Two values in equal parts carry one bit.
    let two: Vec<u8> = (0..1000u32).map(|i| (i % 2) as u8).collect();
    assert!(!is_high_entropy(&two));
}

#[test]
fn fixed_point_logarithm_values() {
    assert_eq!(log2_fixed(1), 0);
    assert_eq!(log2_fixed(2), 65536);
    assert_eq!(log2_fixed(4), 2 * 65536);
    assert_eq!(log2_fixed(1024), 10 * 65536);
    assert_eq!(log2_fixed(1 << 63), 63 * 65536);
    // log2(3) = 1.58496..., which is 103872.1 in sixteen binary places.
    let three = log2_fixed(3);
    assert!(three >= 103870 && three <= 103872);
    assert!(log2_fixed(u64::MAX) < 64 * 65536);
    assert!(log2_fixed(u64::MAX) > 63 * 65536 + 65000);
}

#[test]
fn hash_file_goes_by_the_size_in_the_metadata() {
    let engine = HashEngine::new();
    let contents = vec![0u8; 100];
    let small = engine.hash_file(b"/t/a.txt", Some(100), Some(&contents)).unwrap();
    assert_eq!(small.hash, xxhash_rust::xxh3::xxh3_64(&contents));
    assert_eq!(small.size, 100);
    assert!(!small.is_incremental);
    // The metadata says large: the tree algorithm is used on what was read.
    let large = engine.hash_file(b"/t/a.txt", Some(1024 * 1024), Some(&contents)).unwrap();
    assert_eq!(large.hash, blake3_low8(&contents));
    let auto = HashEngine::with_strategy(HashStrategy::Auto);
    let mixed: Vec<u8> = (0..4096u32).map(|i| i as u8).collect();
    assert_eq!(
        auto.hash_file(b"/t/m", Some(4096), Some(&mixed)).unwrap().hash,
        xxhash_rust::xxh3::xxh3_64(&mixed)
    );
    assert_eq!(
        auto.hash_file_auto(b"/t/m", 1024 * 1024, Some(&mixed)).unwrap().hash,
        blake3_low8(&mixed)
    );
    assert_eq!(hash_file(b"/t/a.txt", Some(100), Some(&contents)).unwrap(), small);
    assert_eq!(
        hash_file_blake3(b"/t/a.txt", Some(100), Some(&contents)).unwrap().hash,
        blake3_low8(&contents)
    );
    assert_eq!(
        hash_file_xxh3(b"/t/a.txt", Some(1 << 30), Some(&contents)).unwrap().hash,
        xxhash_rust::xxh3::xxh3_64(&contents)
    );
}

#[test]
fn hash_file_errors() {
    let engine = HashEngine::new();
    assert_eq!(
        engine.hash_file(b"/missing", None, None),
        Err(HashError::InvalidPath(b"/missing".to_vec()))
    );
    assert_eq!(
        engine.hash_file(b"/missing", None, Some(b"x")),
        Err(HashError::InvalidPath(b"/missing".to_vec()))
    );
    assert_eq!(
        engine.hash_file(b"/locked", Some(10), None),
        Err(HashError::ReadFailed(b"/locked".to_vec()))
    );
    assert_eq!(
        engine.hash_file(b"/locked", Some(10 << 20), None),
        Err(HashError::ReadFailed(b"/locked".to_vec()))
    );
}

#[test]
fn path_that_is_not_utf8_is_invalid() {
    let odd = [0x2f, 0x74, 0x2f, 0xff, 0xfe];
    for strategy in [
        HashStrategy::Blake3Only,
        HashStrategy::Xxh3Only,
        HashStrategy::Hybrid,
        HashStrategy::Auto,
    ] {
        let engine = HashEngine::with_strategy(strategy);
        assert_eq!(
            engine.hash_file(&odd, Some(3), Some(b"abc")),
            Err(HashError::InvalidPath(odd.to_vec()))
        );
        assert_eq!(engine.hash_file(&odd, None, None), Err(HashError::InvalidPath(odd.to_vec())));
    }
    let engine = HashEngine::new();
    assert_eq!(
        engine.hash_file_blake3(&odd, Some(b"abc")),
        Err(HashError::InvalidPath(odd.to_vec()))
    );
    assert_eq!(
        engine.hash_file_xxh3(&odd, None),
        Err(HashError::InvalidPath(odd.to_vec()))
    );
    assert_eq!(
        engine.hash_file_auto(&odd, 3, Some(b"abc")),
        Err(HashError::InvalidPath(odd.to_vec()))
    );
    assert_eq!(hash_file(&odd, Some(3), Some(b"abc")), Err(HashError::InvalidPath(odd.to_vec())));
    // A path with characters of several bytes is fine.
    assert!(engine.hash_file("/t/\u{e9}t\u{e9}.txt".as_bytes(), Some(3), Some(b"abc")).is_ok());
}

#[test]
fn file_hashes_like_its_bytes() {
    for strategy in [HashStrategy::Blake3Only, HashStrategy::Xxh3Only, HashStrategy::Hybrid] {
        let engine = HashEngine::with_strategy(strategy);
        for contents in [&b""[..], b"abc", &[0u8; 5000]] {
            assert_eq!(
                engine.hash_file(b"/f", Some(contents.len() as u64), Some(contents)),
                engine.hash_bytes(contents)
            );
        }
    }
    // An empty file hashes like no bytes under every strategy.
    let auto = HashEngine::with_strategy(HashStrategy::Auto);
    assert_eq!(auto.hash_file(b"/empty", Some(0), Some(b"")), auto.hash_bytes(b""));
    assert_eq!(
        auto.hash_file(b"/empty", Some(0), Some(b"")),
        Ok(HashResult { hash: 0x2D06800538D394C2, size: 0, is_incremental: false })
    );
}

#[test]
fn engine_keeps_what_it_was_given() {
    assert_eq!(HashEngine::new().strategy(), HashStrategy::Hybrid);
    assert_eq!(HashEngine::default().strategy(), HashStrategy::Hybrid);
    assert_eq!(HashEngine::new().simd_level(), SimdLevel::Scalar);
    let engine = HashEngine::with_simd_level(HashStrategy::Auto, SimdLevel::Avx2);
    assert_eq!(engine.strategy(), HashStrategy::Auto);
    assert_eq!(engine.simd_level(), SimdLevel::Avx2);
}

#[test]
fn fast_hash_trait_goes_to_the_engine() {
    fn through<H: FastHash>(h: &H, data: &[u8]) -> u64 {
        h.hash_bytes(data).unwrap().hash
    }
    let engine = HashEngine::with_strategy(HashStrategy::Blake3Only);
    assert_eq!(through(&engine, b"abc"), blake3_low8(b"abc"));
    assert_eq!(
        FastHash::hash_file(&engine, b"/p", Some(3), Some(b"abc")).unwrap().hash,
        blake3_low8(b"abc")
    );
}

#[test]
fn reused_blake3_hasher_forgets_earlier_input() {
    let mut hasher = Blake3FastHash::new();
    let first = hasher.hash_bytes(b"first").unwrap();
    let second = hasher.hash_bytes(b"second").unwrap();
    assert_eq!(first.hash, blake3_low8(b"first"));
    assert_eq!(second.hash, blake3_low8(b"second"));
    assert_eq!(second.size, 6);
    assert!(!second.is_incremental);
    assert_eq!(Blake3FastHash::default().hash_bytes(b"").unwrap().hash, 0xa6a1f9f5b94913af);
}
