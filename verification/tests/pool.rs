use entropy_engine::pool::{EntropyPool, MAX_POOL_ENTROPY_MILLIBITS, MIN_POOL_ENTROPY_MILLIBITS};
use sha2::{Digest, Sha256};

/// Weighted contribution (millibits) credited to one 512-byte sample of a good
/// source; the quality tracker that estimates it is run by the caller.
const GOOD_SAMPLE_MILLIBITS: u64 = 64_000;

#[test]
fn mix_changes_state() {
    let mut pool = EntropyPool::new();
    let before = pool.derive_seed();
    pool.mix(b"entropy input");
    assert_ne!(before, pool.derive_seed());
}

#[test]
fn deterministic_for_same_input() {
    let mut a = EntropyPool::new();
    let mut b = EntropyPool::new();
    a.mix(b"same");
    b.mix(b"same");
    assert_eq!(a.derive_seed(), b.derive_seed());
}

#[test]
fn pool_different_inputs_differ() {
    let mut a = EntropyPool::from_seed(b"aaa");
    let mut b = EntropyPool::from_seed(b"bbb");
    a.mix(b"x");
    b.mix(b"x");
    assert_ne!(a.derive_seed(), b.derive_seed());
}

#[test]
fn derive_seed_is_not_raw_state() {
    let mut pool = EntropyPool::new();
    pool.mix(b"test entropy");
    let seed = pool.derive_seed();
    let mut hasher = Sha256::new();
    hasher.update([0u8; 32]);
    hasher.update(b"test entropy");
    let raw_state: [u8; 32] = hasher.finalize().into();
    assert_ne!(seed, raw_state, "derive_seed must not equal raw state");
}

#[test]
fn source_aware_mix_tracks_entropy() {
    let mut pool = EntropyPool::new();
    let good: Vec<u8> = (0..=255).cycle().take(512).collect();
    assert_eq!(pool.weighted_entropy_bits(), 0);
    for _ in 0..15 {
        pool.mix_from_source(&good, GOOD_SAMPLE_MILLIBITS);
    }
    assert!(pool.weighted_entropy_bits() > 0);
}

#[test]
fn well_seeded_requires_sufficient_entropy() {
    let mut pool = EntropyPool::new();
    assert!(!pool.is_well_seeded());
    let good: Vec<u8> = (0..=255).cycle().take(512).collect();
    for _ in 0..30 {
        pool.mix_from_source(&good, GOOD_SAMPLE_MILLIBITS);
    }
    assert!(pool.is_well_seeded());
}

#[test]
fn entropy_bits_capped_at_maximum() {
    let mut pool = EntropyPool::new();
    let good: Vec<u8> = (0..=255).cycle().take(512).collect();
    for _ in 0..200 {
        pool.mix_from_source(&good, GOOD_SAMPLE_MILLIBITS);
    }
    assert!(pool.weighted_entropy_millibits() <= MAX_POOL_ENTROPY_MILLIBITS);
    assert_eq!(pool.weighted_entropy_bits(), 512);
}

#[test]
fn derive_seed_decays_entropy_estimate() {
    let mut pool = EntropyPool::new();
    let good: Vec<u8> = (0..=255).cycle().take(512).collect();
    for _ in 0..30 {
        pool.mix_from_source(&good, GOOD_SAMPLE_MILLIBITS);
    }
    let before = pool.weighted_entropy_millibits();
    assert!(before > 0);
    let _seed = pool.derive_seed();
    let after = pool.weighted_entropy_millibits();
    assert!(after < before);
}

#[test]
fn empty_input_does_not_panic() {
    let mut pool = EntropyPool::new();
    pool.mix(b"");
    pool.mix_from_source(b"", 0);
    let _seed = pool.derive_seed();
}

#[test]
fn mix_is_sha256_of_state_and_input() {
    let mut pool = EntropyPool::new();
    pool.mix(b"abc");
    pool.mix(b"def");
    assert_eq!(pool.fill_count(), 2);
    let mut h1 = Sha256::new();
    h1.update([0u8; 32]);
    h1.update(b"abc");
    let s1: [u8; 32] = h1.finalize().into();
    let mut h2 = Sha256::new();
    h2.update(s1);
    h2.update(b"def");
    let s2: [u8; 32] = h2.finalize().into();
    let mut h3 = Sha256::new();
    h3.update(b"entropy-vault:drbg-seed:");
    h3.update(s2);
    let expected: [u8; 32] = h3.finalize().into();
    assert_eq!(pool.derive_seed(), expected);
}

#[test]
fn estimate_grows_then_decays_exactly() {
    let mut pool = EntropyPool::new();
    pool.mix_from_source(b"x", 300_000);
    assert_eq!(pool.weighted_entropy_millibits(), 300_000);
    assert!(pool.is_well_seeded());
    let _ = pool.derive_seed();
    assert_eq!(pool.weighted_entropy_millibits(), 225_000);
    assert!(pool.weighted_entropy_millibits() < MIN_POOL_ENTROPY_MILLIBITS);
    assert!(!pool.is_well_seeded());
    assert_eq!(pool.weighted_entropy_bits(), 225);
}
