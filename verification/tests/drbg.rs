use chacha20::cipher::{KeyIvInit, StreamCipher};
use entropy_engine::drbg::{Drbg, RESEED_INTERVAL};

#[test]
fn produces_requested_length() {
    let mut drbg = Drbg::from_seed([0xAB; 32]);
    let out = drbg.fill(64).unwrap();
    assert_eq!(out.len(), 64);
}

#[test]
fn deterministic_for_same_seed() {
    let mut a = Drbg::from_seed([0x42; 32]);
    let mut b = Drbg::from_seed([0x42; 32]);
    assert_eq!(a.fill(32).unwrap(), b.fill(32).unwrap());
}

#[test]
fn successive_fills_differ_without_reseed() {
    let mut drbg = Drbg::from_seed([0x42; 32]);
    let first = drbg.fill(32).unwrap();
    let second = drbg.fill(32).unwrap();
    assert_ne!(first, second, "successive fills must not repeat keystream");
}

#[test]
fn reseed_changes_output() {
    let mut a = Drbg::from_seed([0x42; 32]);
    let mut b = Drbg::from_seed([0x42; 32]);
    b.reseed([0xFF; 32]);
    assert_ne!(a.fill(32).unwrap(), b.fill(32).unwrap());
}

#[test]
fn output_is_not_zeros() {
    let mut drbg = Drbg::from_seed([0x01; 32]);
    let out = drbg.fill(256).unwrap();
    assert!(out.iter().any(|&b| b != 0));
}

#[test]
fn forward_secrecy_key_changes_after_fill() {
    let mut a = Drbg::from_seed([0x99; 32]);
    let mut b = Drbg::from_seed([0x99; 32]);
    let _ = a.fill(16).unwrap();
    let _ = b.fill(32).unwrap();
    let a2 = a.fill(32).unwrap();
    let b2 = b.fill(32).unwrap();
    assert_ne!(a2, b2);
}

#[test]
fn reseed_interval_enforced() {
    let mut drbg = Drbg::from_seed([0x42; 32]);
    let chunk = 8192;
    let mut total = 0u64;
    loop {
        let result = drbg.fill(chunk);
        if result.is_err() {
            break;
        }
        total += (chunk as u64) + 32;
    }
    assert!(
        total >= (1 << 20) - (chunk as u64 + 32) * 2,
        "should generate near 1 MiB before reseed required: got {total}"
    );
}

#[test]
fn reseed_resets_byte_counter() {
    let mut drbg = Drbg::from_seed([0x42; 32]);
    let _ = drbg.fill(1024).unwrap();
    assert!(drbg.bytes_since_reseed() > 0);
    drbg.reseed([0xFF; 32]);
    assert_eq!(drbg.bytes_since_reseed(), 0);
}

#[test]
fn zero_length_fill() {
    let mut drbg = Drbg::from_seed([0x42; 32]);
    let out = drbg.fill(0).unwrap();
    assert!(out.is_empty());
}

#[test]
fn fill_counts_output_and_key_ratchet() {
    let mut drbg = Drbg::from_seed([0x42; 32]);
    let _ = drbg.fill(100).unwrap();
    assert_eq!(drbg.bytes_since_reseed(), 132);
    assert!(!drbg.needs_reseed());
}

#[test]
fn refusal_leaves_generator_unchanged() {
    let mut drbg = Drbg::from_seed([0x42; 32]);
    let too_much = RESEED_INTERVAL as usize;
    assert!(drbg.fill(too_much).is_err());
    assert_eq!(drbg.bytes_since_reseed(), 0);
    let mut fresh = Drbg::from_seed([0x42; 32]);
    assert_eq!(drbg.fill(32).unwrap(), fresh.fill(32).unwrap());
}

#[test]
fn matches_chacha20_keystream() {
    // The first fill of generation 0 is the ChaCha20 keystream under the seed
    // with the all-zero nonce.
    let seed = [0x11u8; 32];
    let mut drbg = Drbg::from_seed(seed);
    let out = drbg.fill(48).unwrap();
    let mut expected = [0u8; 48];
    let mut cipher = chacha20::ChaCha20::new((&seed).into(), (&[0u8; 12]).into());
    cipher.apply_keystream(&mut expected);
    assert_eq!(out, expected.to_vec());
}
