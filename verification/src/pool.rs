//! Entropy accumulation pool.
//!
//! The state is updated by hashing, new_state = SHA-256(state || input), so mixing
//! in low-quality data cannot reduce the entropy already in the pool. Alongside
//! the state the pool keeps an estimate of the weighted entropy it has taken in,
//! in millibits (thousandths of a bit); the per-sample contributions come from
//! the source quality estimator. The raw state is never exposed: `derive_seed`
//! hashes it under a domain-separation prefix.
use vstd::prelude::*;

use crate::primitives::{sha256, sha256_digest};

verus! {

/// Minimum weighted entropy (millibits) for the pool to count as well-seeded (256 bits).
pub const MIN_POOL_ENTROPY_MILLIBITS: u64 = 256_000;

/// Cap on the weighted entropy estimate (512 bits).
pub const MAX_POOL_ENTROPY_MILLIBITS: u64 = 512_000;

/// Domain separation prefix for DRBG seed derivation: `entropy-vault:drbg-seed:`.
pub open spec fn drbg_seed_domain() -> Seq<u8> {
    seq![101u8, 110, 116, 114, 111, 112, 121, 45, 118, 97, 117, 108, 116, 58, 100, 114, 98, 103, 45, 115, 101, 101, 100, 58]
}

/// The estimate after a contribution, capped at the maximum.
pub open spec fn add_capped(estimate: nat, contribution: nat) -> nat {
    if estimate + contribution > MAX_POOL_ENTROPY_MILLIBITS {
        MAX_POOL_ENTROPY_MILLIBITS as nat
    } else {
        estimate + contribution
    }
}

/// The estimate after a seed is drawn: three quarters of it, rounded down.
pub open spec fn decayed(estimate: nat) -> nat {
    estimate * 3 / 4
}

/// Abstract state of an `EntropyPool`.
pub struct PoolView {
    pub state: Seq<u8>,
    pub fill_count: nat,
    pub entropy_millibits: nat,
}

impl PoolView {
    /// The state after mixing `input` in.
    pub open spec fn mixed(self, input: Seq<u8>) -> PoolView {
        PoolView { state: sha256(self.state + input), fill_count: self.fill_count + 1, ..self }
    }

    /// Whether the estimate reaches the well-seeded threshold.
    pub open spec fn well_seeded(self) -> bool {
        self.entropy_millibits >= MIN_POOL_ENTROPY_MILLIBITS
    }
}

/// Entropy accumulation pool.
pub struct EntropyPool {
    state: [u8; 32],
    fill_count: u64,
    weighted_entropy_millibits: u64,
}

impl View for EntropyPool {
    type V = PoolView;

    closed spec fn view(&self) -> PoolView {
        PoolView {
            state: self.state@,
            fill_count: self.fill_count as nat,
            entropy_millibits: self.weighted_entropy_millibits as nat,
        }
    }
}

fn seed_domain() -> (d: Vec<u8>)
    ensures
        d@ == drbg_seed_domain(),
{
    let d: Vec<u8> = vec![101u8, 110, 116, 114, 111, 112, 121, 45, 118, 97, 117, 108, 116, 58, 100, 114, 98, 103, 45, 115, 101, 101, 100, 58];
    assert(d@ =~= drbg_seed_domain());
    d
}

fn concat(a: &[u8], b: &[u8]) -> (c: Vec<u8>)
    ensures
        c@ == a@ + b@,
{
    let mut c: Vec<u8> = Vec::new();
    let mut i: usize = 0;
    while i < a.len()
        invariant
            i <= a@.len(),
            c@ =~= a@.take(i as int),
        decreases a@.len() - i,
    {
        c.push(a[i]);
        i = i + 1;
    }
    let mut j: usize = 0;
    while j < b.len()
        invariant
            j <= b@.len(),
            i == a@.len(),
            c@ =~= a@.take(i as int) + b@.take(j as int),
        decreases b@.len() - j,
    {
        c.push(b[j]);
        j = j + 1;
    }
    assert(a@.take(a@.len() as int) =~= a@);
    assert(b@.take(b@.len() as int) =~= b@);
    c
}

impl EntropyPool {
    /// Internal consistency: the estimate never exceeds the cap.
    pub closed spec fn wf(&self) -> bool {
        self.weighted_entropy_millibits <= MAX_POOL_ENTROPY_MILLIBITS
    }

    /// An empty pool: all-zero state, no fills, no entropy.
    pub fn new() -> (pool: Self)
        ensures
            pool.wf(),
            pool@ == (PoolView { state: Seq::new(32, |i: int| 0u8), fill_count: 0, entropy_millibits: 0 }),
    {
        let pool = EntropyPool { state: [0u8; 32], fill_count: 0, weighted_entropy_millibits: 0 };
        assert(pool@.state =~= Seq::new(32, |i: int| 0u8));
        pool
    }

    /// A pool with `seed` mixed into the empty state.
    pub fn from_seed(seed: &[u8]) -> (pool: Self)
        ensures
            pool.wf(),
            pool@ == (PoolView { state: Seq::new(32, |i: int| 0u8), fill_count: 0, entropy_millibits: 0 }).mixed(
                seed@,
            ),
    {
        let mut pool = Self::new();
        pool.mix(seed);
        pool
    }

    /// Mix new entropy into the pool without an entropy estimate.
    pub fn mix(&mut self, input: &[u8])
        requires
            old(self).wf(),
            old(self)@.fill_count < u64::MAX,
        ensures
            final(self).wf(),
            final(self)@ == old(self)@.mixed(input@),
    {
        let data = concat(&self.state, input);
        self.state = sha256_digest(data.as_slice());
        self.fill_count = self.fill_count + 1;
    }

    /// Mix entropy from a known source whose estimated weighted contribution is
    /// `contribution_millibits`; the estimate grows by it, up to the cap.
    pub fn mix_from_source(&mut self, input: &[u8], contribution_millibits: u64)
        requires
            old(self).wf(),
            old(self)@.fill_count < u64::MAX,
        ensures
            final(self).wf(),
            final(self)@ == (PoolView {
                entropy_millibits: add_capped(old(self)@.entropy_millibits, contribution_millibits as nat),
                ..old(self)@.mixed(input@)
            }),
    {
        if contribution_millibits > MAX_POOL_ENTROPY_MILLIBITS - self.weighted_entropy_millibits {
            self.weighted_entropy_millibits = MAX_POOL_ENTROPY_MILLIBITS;
        } else {
            self.weighted_entropy_millibits = self.weighted_entropy_millibits + contribution_millibits;
        }
        self.mix(input);
    }

    /// Derive a 32-byte DRBG seed, SHA-256(domain || state), and decay the
    /// estimate to three quarters to account for the extracted entropy.
    pub fn derive_seed(&mut self) -> (seed: [u8; 32])
        requires
            old(self).wf(),
        ensures
            final(self).wf(),
            seed@ == sha256(drbg_seed_domain() + old(self)@.state),
            final(self)@ == (PoolView { entropy_millibits: decayed(old(self)@.entropy_millibits), ..old(self)@ }),
    {
        let domain = seed_domain();
        let data = concat(domain.as_slice(), &self.state);
        self.weighted_entropy_millibits = self.weighted_entropy_millibits * 3 / 4;
        sha256_digest(data.as_slice())
    }

    /// Whether at least 256 bits of weighted entropy have accumulated.
    pub fn is_well_seeded(&self) -> (b: bool)
        ensures
            b == self@.well_seeded(),
    {
        self.weighted_entropy_millibits >= MIN_POOL_ENTROPY_MILLIBITS
    }

    /// Current weighted entropy estimate in whole bits (rounded down).
    pub fn weighted_entropy_bits(&self) -> (bits: u64)
        ensures
            bits == self@.entropy_millibits / 1000,
    {
        self.weighted_entropy_millibits / 1000
    }

    /// Current weighted entropy estimate in millibits.
    pub fn weighted_entropy_millibits(&self) -> (m: u64)
        ensures
            m == self@.entropy_millibits,
    {
        self.weighted_entropy_millibits
    }

    /// Number of mixes so far.
    pub fn fill_count(&self) -> (n: u64)
        ensures
            n == self@.fill_count,
    {
        self.fill_count
    }
}

impl Default for EntropyPool {
    /// An empty pool.
    fn default() -> (pool: Self)
        ensures
            pool.wf(),
            pool@ == (PoolView { state: Seq::new(32, |i: int| 0u8), fill_count: 0, entropy_millibits: 0 }),
    {
        Self::new()
    }
}

/// The entropy estimate never exceeds the cap, whatever the contributions.
pub proof fn lemma_estimate_capped(estimate: nat, contribution: nat)
    ensures
        add_capped(estimate, contribution) <= MAX_POOL_ENTROPY_MILLIBITS,
{
}

/// Drawing a seed never increases the estimate, and strictly lowers a positive one.
pub proof fn lemma_seed_decays(estimate: nat)
    ensures
        decayed(estimate) <= estimate,
        estimate > 0 ==> decayed(estimate) < estimate,
{
}

/// Mixing never lowers the estimate: whatever a source contributes, the pool
/// keeps at least the entropy it already had (up to the cap it never exceeds).
pub proof fn lemma_mix_never_lowers(estimate: nat, contribution: nat)
    requires
        estimate <= MAX_POOL_ENTROPY_MILLIBITS,
    ensures
        add_capped(estimate, contribution) >= estimate,
{
}

} // verus!
