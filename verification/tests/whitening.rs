use entropy_engine::whitening::Whitener;
use sha2::{Digest, Sha256};

#[test]
fn fixed_output_is_32_bytes() {
    let out = Whitener::condition_fixed(b"test input");
    assert_eq!(out.len(), 32);
}

#[test]
fn output_differs_from_input() {
    let input = b"raw hardware entropy bytes here!";
    let out = Whitener::condition_fixed(input);
    assert_ne!(&out[..], &input[..]);
}

#[test]
fn deterministic() {
    let a = Whitener::condition_fixed(b"same");
    let b = Whitener::condition_fixed(b"same");
    assert_eq!(a, b);
}

#[test]
fn variable_length_output() {
    let out = Whitener::condition(b"data", 100);
    assert_eq!(out.len(), 100);

    let short = Whitener::condition(b"data", 16);
    assert_eq!(short.len(), 16);
}

#[test]
fn whitening_different_inputs_differ() {
    let a = Whitener::condition_fixed(b"input_a");
    let b = Whitener::condition_fixed(b"input_b");
    assert_ne!(a, b);
}

#[test]
fn large_output_beyond_old_u8_limit() {
    let out = Whitener::condition(b"test", 8224);
    let block_256 = &out[8192 - 32..8192];
    let block_257 = &out[8192..8224];
    assert_ne!(block_256, block_257, "blocks must not repeat after u8 range");
}

#[test]
fn fixed_output_is_sha256() {
    let expected: [u8; 32] = Sha256::digest(b"abc").into();
    assert_eq!(Whitener::condition_fixed(b"abc"), expected);
}

#[test]
fn blocks_chain_previous_block_input_and_counter() {
    let out = Whitener::condition(b"seed", 40);
    let mut h0 = Sha256::new();
    h0.update(b"seed");
    h0.update(0u32.to_le_bytes());
    let b0: [u8; 32] = h0.finalize().into();
    let mut h1 = Sha256::new();
    h1.update(b0);
    h1.update(b"seed");
    h1.update(1u32.to_le_bytes());
    let b1: [u8; 32] = h1.finalize().into();
    assert_eq!(&out[..32], &b0[..]);
    assert_eq!(&out[32..40], &b1[..8]);
}

#[test]
fn shorter_output_is_prefix_of_longer() {
    let long = Whitener::condition(b"prefix", 200);
    let short = Whitener::condition(b"prefix", 70);
    assert_eq!(&long[..70], &short[..]);
    assert!(Whitener::condition(b"prefix", 0).is_empty());
}
