//! SHA-256 entropy conditioning (whitening).
//!
//! Raw hardware entropy is turned into uniformly distributed bytes by SHA-256,
//! which removes the statistical biases of raw ADC and sensor readings.
use vstd::prelude::*;

use crate::primitives::{digest32, sha256, sha256_digest, wipe_block};

verus! {

/// Little-endian bytes of a `u32`.
pub open spec fn le_bytes_u32(v: u32) -> Seq<u8> {
    seq![v as u8, (v >> 8u32) as u8, (v >> 16u32) as u8, (v >> 24u32) as u8]
}

/// The block counter of block `n`: a `u32` that wraps around.
pub open spec fn block_counter(n: nat) -> u32 {
    (n % 0x1_0000_0000) as u32
}

/// Block `n` of the conditioned stream:
///   block_n = SHA-256(block_{n-1} || input || counter_n)   when counter_n > 0,
///   block_n = SHA-256(input || counter_n)                   when counter_n == 0,
/// with counter_n the little-endian `u32` block counter.
pub open spec fn whiten_block(input: Seq<u8>, n: nat) -> Seq<u8>
    decreases n,
{
    if block_counter(n) == 0 || n == 0 {
        digest32(input + le_bytes_u32(block_counter(n)))
    } else {
        digest32(whiten_block(input, (n - 1) as nat) + input + le_bytes_u32(block_counter(n)))
    }
}

/// The first `k` blocks of the conditioned stream, concatenated.
pub open spec fn whiten_stream(input: Seq<u8>, k: nat) -> Seq<u8>
    decreases k,
{
    if k == 0 {
        Seq::empty()
    } else {
        whiten_stream(input, (k - 1) as nat) + whiten_block(input, (k - 1) as nat)
    }
}

/// Blocks needed for `len` output bytes.
pub open spec fn blocks_for(len: nat) -> nat {
    (len + 31) / 32
}

/// Conditioned output of length `len`.
pub open spec fn condition_spec(input: Seq<u8>, len: nat) -> Seq<u8> {
    whiten_stream(input, blocks_for(len)).take(len as int)
}

proof fn lemma_stream_len(input: Seq<u8>, k: nat)
    ensures
        whiten_stream(input, k).len() == 32 * k,
    decreases k,
{
    if k > 0 {
        lemma_stream_len(input, (k - 1) as nat);
        lemma_block_len(input, (k - 1) as nat);
    }
}

proof fn lemma_block_len(input: Seq<u8>, n: nat)
    ensures
        whiten_block(input, n).len() == 32,
{
}

proof fn lemma_stream_prefix(input: Seq<u8>, a: nat, b: nat)
    requires
        a <= b,
    ensures
        whiten_stream(input, a).len() <= whiten_stream(input, b).len(),
        whiten_stream(input, b).take(whiten_stream(input, a).len() as int) == whiten_stream(input, a),
    decreases b,
{
    if a < b {
        lemma_stream_prefix(input, a, (b - 1) as nat);
        let sa = whiten_stream(input, a);
        let sb1 = whiten_stream(input, (b - 1) as nat);
        assert(whiten_stream(input, b).take(sa.len() as int) =~= sb1.take(sa.len() as int));
    } else {
        assert(whiten_stream(input, b).take(whiten_stream(input, a).len() as int) =~= whiten_stream(input, b));
    }
}

/// Asking for more conditioned output extends the shorter output: the first
/// `n` bytes of `condition(input, m)` are `condition(input, n)` whenever `n <= m`.
pub proof fn lemma_condition_prefix(input: Seq<u8>, n: nat, m: nat)
    requires
        n <= m,
    ensures
        condition_spec(input, m).take(n as int) == condition_spec(input, n),
{
    let a = blocks_for(n);
    let b = blocks_for(m);
    lemma_stream_prefix(input, a, b);
    lemma_stream_len(input, a);
    lemma_stream_len(input, b);
    let sa = whiten_stream(input, a);
    let sb = whiten_stream(input, b);
    assert(sb.take(m as int).take(n as int) =~= sb.take(sa.len() as int).take(n as int));
}

proof fn lemma_stream_block(input: Seq<u8>, b: nat, k: nat)
    requires
        k < b,
    ensures
        whiten_stream(input, b).subrange(32 * (k as int), 32 * (k as int) + 32) == whiten_block(input, k),
    decreases b,
{
    lemma_stream_len(input, (b - 1) as nat);
    lemma_block_len(input, (b - 1) as nat);
    let prev = whiten_stream(input, (b - 1) as nat);
    let cur = whiten_stream(input, b);
    if k + 1 == b {
        assert(cur.subrange(32 * (k as int), 32 * (k as int) + 32) =~= whiten_block(input, k));
    } else {
        lemma_stream_block(input, (b - 1) as nat, k);
        assert(cur.subrange(32 * (k as int), 32 * (k as int) + 32) =~= prev.subrange(32 * (k as int), 32 * (k as int) + 32));
    }
}

/// The conditioned output is a chain of 32-byte SHA-256 blocks: block 0 is
/// SHA-256(input || 0u32 LE), and each later block `k` (below 2^32, so within
/// the first 128 GiB of output) is SHA-256 of the block before it, the input and
/// `k` as a little-endian `u32`. No block below 2^32 reuses a counter.
pub proof fn lemma_condition_chain(input: Seq<u8>, len: nat, k: nat)
    requires
        32 * k + 32 <= len,
        k < 0x1_0000_0000,
    ensures
        condition_spec(input, len).subrange(0, 32) == digest32(input + le_bytes_u32(0)),
        k > 0 ==> condition_spec(input, len).subrange(32 * (k as int), 32 * (k as int) + 32) == digest32(
            condition_spec(input, len).subrange(32 * (k as int) - 32, 32 * (k as int)) + input + le_bytes_u32(k as u32),
        ),
{
    let b = blocks_for(len);
    assert(k < b);
    lemma_stream_len(input, b);
    let st = whiten_stream(input, b);
    let out = condition_spec(input, len);
    lemma_stream_block(input, b, 0);
    assert(out.subrange(0, 32) =~= st.subrange(0, 32));
    assert(block_counter(0) == 0u32);
    if k > 0 {
        lemma_stream_block(input, b, k);
        lemma_stream_block(input, b, (k - 1) as nat);
        assert(out.subrange(32 * (k as int), 32 * (k as int) + 32) =~= st.subrange(32 * (k as int), 32 * (k as int) + 32));
        assert(out.subrange(32 * (k as int) - 32, 32 * (k as int)) =~= st.subrange(32 * (k as int - 1), 32 * (k as int - 1) + 32));
        assert(k % 0x1_0000_0000 == k);
        assert(block_counter(k) == k as u32);
        assert(block_counter(k) != 0);
    }
}

/// SHA-256 conditioning.
pub struct Whitener;

impl Whitener {
    /// Condition input into a single 32-byte SHA-256 digest.
    pub fn condition_fixed(input: &[u8]) -> (out: [u8; 32])
        ensures
            out@ == sha256(input@),
    {
        sha256_digest(input)
    }

    /// Condition input into `output_len` bytes of chained SHA-256 blocks.
    pub fn condition(input: &[u8], output_len: usize) -> (out: Vec<u8>)
        requires
            output_len + 32 <= usize::MAX,
        ensures
            out@ == condition_spec(input@, output_len as nat),
            out@.len() == output_len,
    {
        let mut result: Vec<u8> = Vec::new();
        let mut prev_block: [u8; 32] = [0u8; 32];
        let mut counter: u32 = 0;
        let ghost mut k: nat = 0;
        while result.len() < output_len
            invariant
                output_len + 32 <= usize::MAX,
                result@ == whiten_stream(input@, k),
                result@.len() == 32 * k,
                counter == block_counter(k),
                k > 0 ==> prev_block@ == whiten_block(input@, (k - 1) as nat),
                k > 0 ==> result@.len() < output_len + 32,
            decreases output_len + 32 - result@.len(),
        {
            let mut data: Vec<u8> = Vec::new();
            if counter > 0 {
                let mut j: usize = 0;
                while j < 32
                    invariant
                        j <= 32,
                        data@ == prev_block@.take(j as int),
                    decreases 32 - j,
                {
                    data.push(prev_block[j]);
                    j = j + 1;
                    assert(data@ =~= prev_block@.take(j as int));
                }
                assert(prev_block@.take(32) =~= prev_block@);
            }
            let ghost prefix = data@;
            let mut i: usize = 0;
            while i < input.len()
                invariant
                    i <= input@.len(),
                    data@ =~= prefix + input@.take(i as int),
                decreases input@.len() - i,
            {
                data.push(input[i]);
                i = i + 1;
            }
            assert(input@.take(input@.len() as int) =~= input@);
            data.push(counter as u8);
            data.push((counter >> 8u32) as u8);
            data.push((counter >> 16u32) as u8);
            data.push((counter >> 24u32) as u8);
            assert(data@ =~= prefix + input@ + le_bytes_u32(counter));
            prev_block = sha256_digest(data.as_slice());
            proof {
                if counter > 0 {
                    assert(k > 0);
                    assert(prefix == whiten_block(input@, (k - 1) as nat));
                } else {
                    assert(prefix =~= Seq::<u8>::empty());
                    assert(prefix + input@ + le_bytes_u32(counter) =~= input@ + le_bytes_u32(counter));
                }
                assert(prev_block@ =~= digest32(data@));
                assert(prev_block@ == whiten_block(input@, k));
            }
            let mut j: usize = 0;
            let ghost before = result@;
            while j < 32
                invariant
                    j <= 32,
                    result@ =~= before + prev_block@.take(j as int),
                decreases 32 - j,
            {
                result.push(prev_block[j]);
                j = j + 1;
            }
            assert(prev_block@.take(32) =~= prev_block@);
            counter = counter.wrapping_add(1);
            proof {
                k = k + 1;
                assert(counter == block_counter(k)) by {
                    assert(block_counter(k) == if block_counter((k - 1) as nat) == 0xFFFF_FFFF { 0 } else { block_counter((k - 1) as nat) + 1 });
                }
            }
        }
        wipe_block(&mut prev_block);
        proof {
            lemma_stream_len(input@, k);
        }
        assert(k == blocks_for(output_len as nat));
        result.truncate(output_len);
        result
    }
}

} // verus!
