//! ChaCha20-based deterministic random bit generator.
//!
//! A 256-bit key comes from the entropy pool; each reseed advances the
//! generation counter, which is the nonce. Between reseeds a stream position
//! makes successive `fill` calls use fresh keystream, and after each `fill` the
//! next 32 keystream bytes replace the key (forward secrecy).
use vstd::prelude::*;

use chacha20::cipher::{KeyIvInit, StreamCipher, StreamCipherSeek};
use chacha20::ChaCha20;

use crate::errors::{EntropyError, EntropyErrorView};
use crate::primitives::{sha256, sha256_digest, wipe_block};

verus! {

/// Maximum bytes (output plus key ratchets) between two reseeds: 1 MiB.
pub const RESEED_INTERVAL: u64 = 1048576;

/// Keystream positions the ChaCha20 wrapper is used within (2^37 bytes,
/// far inside the 2^32 blocks of 64 bytes that the cipher's counter allows).
pub const KEYSTREAM_LIMIT: u64 = 0x20_0000_0000;

/// `len` bytes of the ChaCha20 (IETF, 96-bit nonce) keystream for `key` and
/// `nonce`, starting at byte `position`, as produced by the `chacha20` crate.
pub uninterp spec fn chacha20_keystream(key: Seq<u8>, nonce: Seq<u8>, position: nat, len: nat) -> Seq<u8>;

/// `chacha20::ChaCha20` keyed with `key` and `nonce`, sought to `position`, applied
/// to `len` zero bytes: claimed to return exactly `len` keystream bytes, the same
/// ones for the same key, nonce and position. `requires` keeps the position range
/// far from the end of the keystream, where `seek` and `apply_keystream` panic.
#[verifier::external_body]
fn chacha20_keystream_bytes(key: &[u8; 32], nonce: &[u8; 12], position: u64, len: usize) -> (out: Vec<u8>)
    requires
        position + len <= KEYSTREAM_LIMIT,
    ensures
        out@ == chacha20_keystream(key@, nonce@, position as nat, len as nat),
        out@.len() == len,
{
    let mut cipher = ChaCha20::new(key.into(), nonce.into());
    cipher.seek(position);
    let mut out = vec![0u8; len];
    cipher.apply_keystream(&mut out);
    out
}

/// The `len` keystream bytes at `position`, as a sequence of exactly that length.
pub open spec fn keystream(key: Seq<u8>, nonce: Seq<u8>, position: nat, len: nat) -> Seq<u8> {
    Seq::new(len, |i: int| chacha20_keystream(key, nonce, position, len)[i])
}

/// The nonce of a generation: its little-endian bytes followed by four zero bytes.
pub open spec fn generation_nonce(generation: u64) -> Seq<u8> {
    seq![
        generation as u8,
        (generation >> 8u64) as u8,
        (generation >> 16u64) as u8,
        (generation >> 24u64) as u8,
        (generation >> 32u64) as u8,
        (generation >> 40u64) as u8,
        (generation >> 48u64) as u8,
        (generation >> 56u64) as u8,
        0u8,
        0u8,
        0u8,
        0u8,
    ]
}

/// Abstract state of a `Drbg`.
pub struct DrbgView {
    pub key: Seq<u8>,
    pub generation: u64,
    pub stream_position: nat,
    pub bytes_since_reseed: nat,
}

impl DrbgView {
    /// The keystream a fill of `length` bytes consumes: output then next key.
    pub open spec fn fill_stream(self, length: nat) -> Seq<u8> {
        keystream(self.key, generation_nonce(self.generation), self.stream_position, length + 32)
    }

    /// Whether a fill of `length` bytes stays within the reseed interval.
    pub open spec fn can_fill(self, length: nat) -> bool {
        self.bytes_since_reseed + length + 32 <= RESEED_INTERVAL
    }

    /// The state after a successful fill of `length` bytes.
    pub open spec fn filled(self, length: nat) -> DrbgView {
        DrbgView {
            key: self.fill_stream(length).subrange(length as int, length as int + 32),
            generation: self.generation,
            stream_position: self.stream_position + length + 32,
            bytes_since_reseed: self.bytes_since_reseed + length + 32,
        }
    }

    /// The state after reseeding with `entropy`.
    pub open spec fn reseeded(self, entropy: Seq<u8>) -> DrbgView {
        DrbgView {
            key: sha256(self.key + entropy),
            generation: (if self.generation == u64::MAX { 0 } else { self.generation + 1 }) as u64,
            stream_position: 0,
            bytes_since_reseed: 0,
        }
    }
}

/// ChaCha20-based DRBG.
pub struct Drbg {
    key: [u8; 32],
    generation: u64,
    stream_position: u64,
    bytes_since_reseed: u64,
}

impl View for Drbg {
    type V = DrbgView;

    closed spec fn view(&self) -> DrbgView {
        DrbgView {
            key: self.key@,
            generation: self.generation,
            stream_position: self.stream_position as nat,
            bytes_since_reseed: self.bytes_since_reseed as nat,
        }
    }
}

impl Drbg {
    /// Internal consistency: the stream position equals the bytes drawn since the
    /// last reseed, which never exceed the reseed interval.
    pub closed spec fn wf(&self) -> bool {
        &&& self.stream_position == self.bytes_since_reseed
        &&& self.bytes_since_reseed <= RESEED_INTERVAL
    }

    /// A DRBG keyed with `seed`, at generation 0.
    pub fn from_seed(seed: [u8; 32]) -> (d: Self)
        ensures
            d.wf(),
            d@ == (DrbgView { key: seed@, generation: 0, stream_position: 0, bytes_since_reseed: 0 }),
            d@.bytes_since_reseed <= RESEED_INTERVAL,
    {
        Drbg { key: seed, generation: 0, stream_position: 0, bytes_since_reseed: 0 }
    }

    /// Mix new entropy into the key, key = SHA-256(key || entropy); reset the
    /// stream position and byte count and advance the generation (wrapping).
    pub fn reseed(&mut self, entropy: [u8; 32])
        requires
            old(self).wf(),
        ensures
            final(self).wf(),
            final(self)@ == old(self)@.reseeded(entropy@),
            final(self)@.bytes_since_reseed <= RESEED_INTERVAL,
    {
        let mut data: Vec<u8> = Vec::new();
        let mut i: usize = 0;
        while i < 32
            invariant
                i <= 32,
                data@ =~= self.key@.take(i as int),
            decreases 32 - i,
        {
            data.push(self.key[i]);
            i = i + 1;
        }
        let mut j: usize = 0;
        while j < 32
            invariant
                j <= 32,
                data@ =~= self.key@ + entropy@.take(j as int),
            decreases 32 - j,
        {
            data.push(entropy[j]);
            j = j + 1;
        }
        assert(self.key@.take(32) =~= self.key@);
        assert(entropy@.take(32) =~= entropy@);
        self.key = sha256_digest(data.as_slice());
        self.bytes_since_reseed = 0;
        self.stream_position = 0;
        self.generation = self.generation.wrapping_add(1);
    }

    /// Generate `length` pseudorandom bytes, then ratchet the key forward.
    ///
    /// Fails with `DrbgReseedRequired` when the output plus the 32-byte ratchet
    /// would exceed the reseed interval; the state is then unchanged.
    pub fn fill(&mut self, length: usize) -> (r: Result<Vec<u8>, EntropyError>)
        requires
            old(self).wf(),
        ensures
            final(self).wf(),
            final(self)@.bytes_since_reseed <= RESEED_INTERVAL,
            match r {
                Ok(out) => {
                    &&& old(self)@.can_fill(length as nat)
                    &&& out@ == old(self)@.fill_stream(length as nat).take(length as int)
                    &&& final(self)@ == old(self)@.filled(length as nat)
                },
                Err(e) => {
                    &&& !old(self)@.can_fill(length as nat)
                    &&& e@ == (EntropyErrorView::DrbgReseedRequired {
                        bytes_generated: old(self)@.bytes_since_reseed as u64,
                    })
                    &&& final(self)@ == old(self)@
                },
            },
    {
        if (self.bytes_since_reseed as u128) + (length as u128) + 32 > RESEED_INTERVAL as u128 {
            return Err(EntropyError::DrbgReseedRequired { bytes_generated: self.bytes_since_reseed });
        }
        let total = length + 32;
        let g = self.generation;
        let nonce: [u8; 12] = [
            g as u8,
            (g >> 8u64) as u8,
            (g >> 16u64) as u8,
            (g >> 24u64) as u8,
            (g >> 32u64) as u8,
            (g >> 40u64) as u8,
            (g >> 48u64) as u8,
            (g >> 56u64) as u8,
            0u8,
            0u8,
            0u8,
            0u8,
        ];
        assert(nonce@ =~= generation_nonce(g));
        let stream = chacha20_keystream_bytes(&self.key, &nonce, self.stream_position, total);
        assert(stream@ =~= keystream(self.key@, nonce@, self.stream_position as nat, total as nat));

        let mut output: Vec<u8> = Vec::new();
        let mut i: usize = 0;
        while i < length
            invariant
                i <= length,
                stream@.len() == total,
                total == length + 32,
                output@ =~= stream@.take(i as int),
            decreases length - i,
        {
            output.push(stream[i]);
            i = i + 1;
        }
        let mut new_key: [u8; 32] = [0u8; 32];
        let mut j: usize = 0;
        while j < 32
            invariant
                j <= 32,
                stream@.len() == total,
                total == length + 32,
                forall|k: int| 0 <= k < j ==> new_key@[k] == stream@[length + k],
            decreases 32 - j,
        {
            new_key[j] = stream[length + j];
            j = j + 1;
        }
        assert(new_key@ =~= stream@.subrange(length as int, length + 32));
        wipe_block(&mut self.key);
        self.key = new_key;
        self.stream_position = self.stream_position + total as u64;
        self.bytes_since_reseed = self.bytes_since_reseed + total as u64;
        Ok(output)
    }

    /// Whether the reseed interval has been used up.
    pub fn needs_reseed(&self) -> (b: bool)
        ensures
            b == (self@.bytes_since_reseed >= RESEED_INTERVAL),
    {
        self.bytes_since_reseed >= RESEED_INTERVAL
    }

    /// Bytes drawn (output plus ratchets) since the last reseed.
    pub fn bytes_since_reseed(&self) -> (n: u64)
        ensures
            n == self@.bytes_since_reseed,
            self.wf() ==> n <= RESEED_INTERVAL,
    {
        self.bytes_since_reseed
    }
}

/// Right after a reseed, any fill of at most `RESEED_INTERVAL - 32` bytes succeeds.
pub proof fn lemma_fill_after_reseed(d: DrbgView, entropy: Seq<u8>, length: nat)
    requires
        length + 32 <= RESEED_INTERVAL,
    ensures
        d.reseeded(entropy).can_fill(length),
{
}

/// A fill never takes the byte count past the reseed interval.
pub proof fn lemma_fill_within_interval(d: DrbgView, length: nat)
    requires
        d.can_fill(length),
    ensures
        d.filled(length).bytes_since_reseed <= RESEED_INTERVAL,
{
}

/// Successive fills between reseeds never reuse keystream positions: each fill
/// starts, under the same nonce, where the previous one (output and ratchet) ended.
pub proof fn lemma_successive_fills_disjoint(d: DrbgView, a: nat, b: nat)
    ensures
        d.filled(a).generation == d.generation,
        d.filled(a).stream_position == d.stream_position + a + 32,
        d.filled(a).filled(b).stream_position == d.stream_position + a + 32 + b + 32,
{
}

/// A reseed starts a new generation: a fresh nonce (unless the counter wraps
/// around), the keystream from position 0, and no bytes counted.
pub proof fn lemma_reseed_resets(d: DrbgView, entropy: Seq<u8>)
    requires
        d.generation < u64::MAX,
    ensures
        d.reseeded(entropy).generation == d.generation + 1,
        d.reseeded(entropy).stream_position == 0,
        d.reseeded(entropy).bytes_since_reseed == 0,
{
}

} // verus!
