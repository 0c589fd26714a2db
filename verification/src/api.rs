//! The entropy service: health monitor, pool, security policy check and DRBG put together.
//!
//! Entropy enters through `ingest` (health check, then pool mixing with the
//! source's weighted contribution); every output request goes through the
//! security policy check, then the DRBG is reseeded from the pool and produces the bytes.
use vstd::prelude::*;

use crate::crypto::{hex_lower, password_spec, sampling_limit, CryptoOutput};
use crate::drbg::{generation_nonce, keystream, Drbg, DrbgView};
use crate::errors::{EntropyError, EntropyErrorView};
use crate::health::{HealthMonitor, HealthMonitorView, HealthStatus};
use crate::models::PasswordConfig;
use crate::pool::{drbg_seed_domain, EntropyPool, PoolView, decayed};
use crate::primitives::sha256;
use crate::security::{
    OutputClass, SecurityEvent, SecurityGate, SecurityGateView, SecurityPolicy, SecurityViolation, TrustLevel,
    events_view, production_policy,
};
use crate::whitening::Whitener;

verus! {

/// Maximum bytes that can be requested in a single call (64 KiB).
pub const MAX_OUTPUT_LEN: usize = 65536;

/// Fewest bytes a pull-mode service reads from its source before a request.
pub const MIN_PULL_LEN: usize = 64;

/// Bytes a pull-mode service reads from its source before a request of `length`
/// bytes: none for an empty or over-long request (answered without reading),
/// otherwise the request's length, but at least `MIN_PULL_LEN`.
pub open spec fn pull_len_spec(length: usize) -> Option<usize> {
    if length == 0 || length > MAX_OUTPUT_LEN {
        None
    } else if length < MIN_PULL_LEN {
        Some(MIN_PULL_LEN)
    } else {
        Some(length)
    }
}

/// Abstract state of an `EntropyService`.
pub struct ServiceView {
    pub source_id: u8,
    pub pool: PoolView,
    pub drbg: DrbgView,
    pub health: HealthMonitorView,
    pub gate: SecurityGateView,
    pub bytes_generated: nat,
    pub reseed_count: nat,
    pub pool_was_well_seeded: bool,
}

/// Outcome of a gated output request on a service state.
pub open spec fn request_outcome(s: ServiceView, length: nat, class: OutputClass) -> (
    Result<Seq<u8>, EntropyErrorView>,
    ServiceView,
) {
    if length == 0 {
        (Ok(Seq::empty()), s)
    } else if length > MAX_OUTPUT_LEN {
        (Err(EntropyErrorView::InvalidLength { requested: length as usize, max: MAX_OUTPUT_LEN }), s)
    } else {
        let bits = s.pool.entropy_millibits as u64;
        let seeded = s.pool.well_seeded();
        let gate = s.gate.after_request(class, length as usize, s.health.status, bits, seeded);
        match s.gate.decide(class, length as usize, s.health.status, bits, seeded) {
            Err(v) => (Err(EntropyErrorView::SecurityViolation { violation: v }), ServiceView { gate, ..s }),
            Ok(()) => {
                let seed = sha256(drbg_seed_domain() + s.pool.state);
                let drbg = s.drbg.reseeded(seed);
                (
                    Ok(drbg.fill_stream(length).take(length as int)),
                    ServiceView {
                        gate,
                        pool: PoolView { entropy_millibits: decayed(s.pool.entropy_millibits), ..s.pool },
                        drbg: drbg.filled(length),
                        reseed_count: s.reseed_count + 1,
                        bytes_generated: s.bytes_generated + length,
                        ..s
                    },
                )
            },
        }
    }
}

/// Whether `r` is the result the outcome `o` describes.
pub open spec fn bytes_result_matches(r: Result<Vec<u8>, EntropyError>, o: Result<Seq<u8>, EntropyErrorView>) -> bool {
    match o {
        Ok(b) => r is Ok && r->Ok_0@ == b,
        Err(e) => r is Err && r->Err_0@ == e,
    }
}

/// Random bytes a password request asks the pipeline for, given the charset size.
pub open spec fn password_request_len(length: nat, charset_len: nat) -> nat {
    let limit = sampling_limit(charset_len);
    let expected = length * 256 / limit + 1;
    let wanted = if expected * 2 >= length * 3 { expected * 2 } else { length * 3 };
    if wanted <= MAX_OUTPUT_LEN { wanted } else { MAX_OUTPUT_LEN as nat }
}

/// The request-size arithmetic of a password request stays in machine range.
pub open spec fn password_request_fits(length: nat, charset_len: nat) -> bool {
    &&& length * 256 <= u64::MAX
    &&& (length * 256 / sampling_limit(charset_len) + 1) * 2 <= usize::MAX
    &&& length * 3 <= usize::MAX
}

impl ServiceView {
    /// Counters stay in machine range for a request of `length` bytes.
    pub open spec fn can_generate(self, length: nat) -> bool {
        &&& self.bytes_generated + length <= u64::MAX
        &&& self.reseed_count < u64::MAX
    }

    /// Counters stay in machine range while ingesting `len` bytes.
    pub open spec fn can_ingest(self, len: nat) -> bool {
        &&& self.health.can_observe(len)
        &&& self.pool.fill_count < u64::MAX
    }

    /// The state after ingesting `raw` with the given weighted contribution.
    pub open spec fn ingested(self, raw: Seq<u8>, contribution_millibits: nat) -> ServiceView {
        if raw.len() == 0 {
            self
        } else {
            let pool = PoolView {
                entropy_millibits: crate::pool::add_capped(self.pool.entropy_millibits, contribution_millibits),
                ..self.pool.mixed(raw)
            };
            let crossed = !self.pool_was_well_seeded && pool.well_seeded();
            ServiceView {
                health: self.health.observed(raw),
                pool,
                pool_was_well_seeded: self.pool_was_well_seeded || pool.well_seeded(),
                gate: if crossed {
                    SecurityGateView {
                        events: self.gate.events.push(
                            crate::security::SecurityEventView::PoolSeeded {
                                entropy_millibits: pool.entropy_millibits as u64,
                            },
                        ),
                        ..self.gate
                    }
                } else {
                    self.gate
                },
                ..self
            }
        }
    }
}

/// Core entropy service (push model: entropy is fed in through `ingest`).
pub struct EntropyService {
    source_id: u8,
    pool: EntropyPool,
    drbg: Drbg,
    health: HealthMonitor,
    gate: SecurityGate,
    bytes_generated: u64,
    reseed_count: u64,
    pool_was_well_seeded: bool,
}

impl View for EntropyService {
    type V = ServiceView;

    closed spec fn view(&self) -> ServiceView {
        ServiceView {
            source_id: self.source_id,
            pool: self.pool@,
            drbg: self.drbg@,
            health: self.health@,
            gate: self.gate@,
            bytes_generated: self.bytes_generated as nat,
            reseed_count: self.reseed_count as nat,
            pool_was_well_seeded: self.pool_was_well_seeded,
        }
    }
}

impl EntropyService {
    /// Internal consistency of the parts.
    pub closed spec fn wf(&self) -> bool {
        &&& self.pool.wf()
        &&& self.drbg.wf()
        &&& self.health.wf()
        &&& self.gate.wf()
    }

    /// A service seeded from `initial_raw`, the first bytes read from its source:
    /// the pool starts from the SHA-256 of those bytes, the DRBG from the pool's
    /// seed, and the bytes are health-checked; the policy check records the seeding and
    /// whether the health check did not fail.
    pub fn new(initial_raw: &[u8], source_id: u8, trust_level: TrustLevel, policy: SecurityPolicy) -> (s: Self)
        ensures
            s.wf(),
            s@.source_id == source_id,
            s@.gate.policy == policy,
            s@.gate.trust_level == trust_level,
            s@.health == HealthMonitorView::initial().observed(initial_raw@),
            s@.pool == (PoolView {
                entropy_millibits: 0,
                ..(PoolView { state: Seq::new(32, |i: int| 0u8), fill_count: 0, entropy_millibits: 0 }).mixed(
                    sha256(initial_raw@),
                )
            }),
            s@.gate.events == crate::security::initial_events(trust_level).push(
                crate::security::SecurityEventView::InitialSeedingComplete {
                    trust_level,
                    health_ok: s@.health.status != HealthStatus::Failed,
                },
            ),
            s@.bytes_generated == 0,
            s@.reseed_count == 0,
            s@.drbg == (DrbgView {
                key: sha256(drbg_seed_domain() + s@.pool.state),
                generation: 0,
                stream_position: 0,
                bytes_since_reseed: 0,
            }),
            s@.gate.simulated_bytes_generated == 0,
            s@.gate.last_health == HealthStatus::Healthy,
            !s@.pool_was_well_seeded,
    {
        let mut gate = SecurityGate::new(policy, trust_level);
        let conditioned = Whitener::condition_fixed(initial_raw);
        let mut pool = EntropyPool::from_seed(&conditioned);
        let drbg = Drbg::from_seed(pool.derive_seed());
        let mut health = HealthMonitor::new();
        let _ = initial_raw.len();
        health.observe(initial_raw);
        let health_ok = health.status() != HealthStatus::Failed;
        gate.record_initial_seeding(health_ok);
        EntropyService {
            source_id,
            pool,
            drbg,
            health,
            gate,
            bytes_generated: 0,
            reseed_count: 0,
            pool_was_well_seeded: false,
        }
    }

    /// A push-mode service: empty pool, DRBG keyed with zeros, healthy monitor.
    pub fn new_push(source_id: u8, trust_level: TrustLevel, policy: SecurityPolicy) -> (s: Self)
        ensures
            s.wf(),
            s@.source_id == source_id,
            s@.gate.policy == policy,
            s@.gate.trust_level == trust_level,
            s@.gate.events == crate::security::initial_events(trust_level),
            s@.gate.simulated_bytes_generated == 0,
            s@.gate.last_health == HealthStatus::Healthy,
            s@.health == HealthMonitorView::initial(),
            s@.pool == (PoolView { state: Seq::new(32, |i: int| 0u8), fill_count: 0, entropy_millibits: 0 }),
            s@.drbg == (DrbgView {
                key: Seq::new(32, |i: int| 0u8),
                generation: 0,
                stream_position: 0,
                bytes_since_reseed: 0,
            }),
            s@.bytes_generated == 0,
            s@.reseed_count == 0,
            !s@.pool_was_well_seeded,
    {
        let gate = SecurityGate::new(policy, trust_level);
        let pool = EntropyPool::new();
        let zero: [u8; 32] = [0u8; 32];
        let drbg = Drbg::from_seed(zero);
        assert(zero@ =~= Seq::new(32, |i: int| 0u8));
        EntropyService {
            source_id,
            pool,
            drbg,
            health: HealthMonitor::new(),
            gate,
            bytes_generated: 0,
            reseed_count: 0,
            pool_was_well_seeded: false,
        }
    }

    /// A push-mode service under the production policy with a hardware source.
    pub fn production_push(source_id: u8) -> (s: Self)
        ensures
            s.wf(),
            s@.source_id == source_id,
            s@.gate.policy == production_policy(),
            s@.gate.trust_level == TrustLevel::Hardware,
            s@.gate.events == crate::security::initial_events(TrustLevel::Hardware),
            s@.gate.simulated_bytes_generated == 0,
            s@.gate.last_health == HealthStatus::Healthy,
            s@.health == HealthMonitorView::initial(),
            s@.pool == (PoolView { state: Seq::new(32, |i: int| 0u8), fill_count: 0, entropy_millibits: 0 }),
            s@.bytes_generated == 0,
            s@.reseed_count == 0,
            !s@.pool_was_well_seeded,
    {
        Self::new_push(source_id, TrustLevel::Hardware, SecurityPolicy::production())
    }

    /// Push entropy bytes from source `source_id` into the pipeline: health check,
    /// then pool mixing with the source's weighted contribution (millibits), as
    /// estimated by the source quality tracker. Empty input changes nothing.
    pub fn ingest(&mut self, source_id: u8, raw: &[u8], contribution_millibits: u64)
        requires
            old(self).wf(),
            old(self)@.can_ingest(raw@.len()),
        ensures
            final(self).wf(),
            final(self)@ == old(self)@.ingested(raw@, contribution_millibits as nat),
    {
        if raw.len() == 0 {
            return;
        }
        self.health.observe(raw);
        self.pool.mix_from_source(raw, contribution_millibits);
        if !self.pool_was_well_seeded && self.pool.is_well_seeded() {
            self.pool_was_well_seeded = true;
            let bits = self.pool.weighted_entropy_millibits();
            self.gate.record_pool_seeded(bits);
        }
    }

    /// Produce `length` random bytes of class `class` through the policy check and DRBG.
    fn pipeline(&mut self, length: usize, class: OutputClass) -> (r: Result<Vec<u8>, EntropyError>)
        requires
            old(self).wf(),
            old(self)@.can_generate(length as nat),
        ensures
            final(self).wf(),
            bytes_result_matches(r, request_outcome(old(self)@, length as nat, class).0),
            final(self)@ == request_outcome(old(self)@, length as nat, class).1,
    {
        if length == 0 {
            return Ok(Vec::new());
        }
        if length > MAX_OUTPUT_LEN {
            return Err(EntropyError::InvalidLength { requested: length, max: MAX_OUTPUT_LEN });
        }
        let status = self.health.status();
        let bits = self.pool.weighted_entropy_millibits();
        let seeded = self.pool.is_well_seeded();
        match self.gate.check_output_allowed(class, length, status, bits, seeded) {
            Err(violation) => {
                return Err(EntropyError::SecurityViolation { violation });
            },
            Ok(()) => {},
        }
        let seed = self.pool.derive_seed();
        self.drbg.reseed(seed);
        self.reseed_count = self.reseed_count + 1;
        let output = match self.drbg.fill(length) {
            Ok(out) => out,
            Err(e) => {
                return Err(e);
            },
        };
        self.bytes_generated = self.bytes_generated + length as u64;
        Ok(output)
    }

    /// Random bytes (lowest security requirement).
    pub fn random_bytes(&mut self, length: usize) -> (r: Result<Vec<u8>, EntropyError>)
        requires
            old(self).wf(),
            old(self)@.can_generate(length as nat),
        ensures
            final(self).wf(),
            bytes_result_matches(r, request_outcome(old(self)@, length as nat, OutputClass::Raw).0),
            final(self)@ == request_outcome(old(self)@, length as nat, OutputClass::Raw).1,
    {
        self.pipeline(length, OutputClass::Raw)
    }

    /// Hex-encoded random bytes.
    pub fn random_hex(&mut self, length: usize) -> (r: Result<String, EntropyError>)
        requires
            old(self).wf(),
            old(self)@.can_generate(length as nat),
        ensures
            final(self).wf(),
            match request_outcome(old(self)@, length as nat, OutputClass::Raw).0 {
                Ok(b) => r is Ok && r->Ok_0@ == hex_lower(b),
                Err(e) => r is Err && r->Err_0@ == e,
            },
            final(self)@ == request_outcome(old(self)@, length as nat, OutputClass::Raw).1,
    {
        match self.random_bytes(length) {
            Ok(bytes) => Ok(CryptoOutput::to_hex(bytes.as_slice())),
            Err(e) => Err(e),
        }
    }

    /// Bytes to read from the source before a request of `length` bytes, in pull mode.
    pub fn pull_len(length: usize) -> (n: Option<usize>)
        ensures
            n == pull_len_spec(length),
    {
        if length == 0 || length > MAX_OUTPUT_LEN {
            None
        } else if length < MIN_PULL_LEN {
            Some(MIN_PULL_LEN)
        } else {
            Some(length)
        }
    }

    /// Random bytes a password request for `config` draws from the pipeline:
    /// enough for twice the expected rejection-sampling attempts and at least
    /// three per character, at most `MAX_OUTPUT_LEN`; `None` for an empty charset.
    pub fn password_raw_len(config: &PasswordConfig) -> (r: Option<usize>)
        requires
            config.spec_charset().len() > 0 ==> password_request_fits(config.length as nat, config.spec_charset().len()),
        ensures
            config.spec_charset().len() == 0 ==> r is None,
            config.spec_charset().len() > 0 ==> r == Some(
                password_request_len(config.length as nat, config.spec_charset().len()) as usize,
            ),
    {
        let charset = config.charset();
        if charset.len() == 0 {
            return None;
        }
        let n = charset.len();
        assert((256int / (n as int)) * (n as int) <= 256 && (256int / (n as int)) * (n as int) > 0) by (nonlinear_arith)
            requires
                n > 0,
                n <= 256,
        ;
        let limit: u64 = ((256 / n) * n) as u64;
        let expected_attempts: u64 = (config.length as u64) * 256 / limit + 1;
        let doubled: usize = (expected_attempts as usize) * 2;
        let tripled: usize = config.length * 3;
        let wanted: usize = if doubled >= tripled { doubled } else { tripled };
        Some(if wanted <= MAX_OUTPUT_LEN { wanted } else { MAX_OUTPUT_LEN })
    }

    /// Whether a password request for `config` stays in machine range: its size
    /// arithmetic, and the service's counters once it is served.
    pub fn can_request_password(&self, config: &PasswordConfig) -> (b: bool)
        ensures
            b == (config.spec_charset().len() > 0 ==> (password_request_fits(
                config.length as nat,
                config.spec_charset().len(),
            ) && self@.can_generate(password_request_len(config.length as nat, config.spec_charset().len())))),
    {
        let charset = config.charset();
        let n = charset.len();
        if n == 0 {
            return true;
        }
        let len = config.length as u128;
        if len * 256 > u64::MAX as u128 || len * 3 > usize::MAX as u128 {
            return false;
        }
        assert((256int / (n as int)) * (n as int) <= 256 && (256int / (n as int)) * (n as int) > 0) by (nonlinear_arith)
            requires
                n > 0,
                n <= 256,
        ;
        let limit: u128 = ((256 / n) * n) as u128;
        let doubled: u128 = (len * 256 / limit + 1) * 2;
        if doubled > usize::MAX as u128 {
            return false;
        }
        let tripled: u128 = len * 3;
        let wanted: u128 = if doubled >= tripled { doubled } else { tripled };
        let raw_len: usize = if wanted <= MAX_OUTPUT_LEN as u128 { wanted as usize } else { MAX_OUTPUT_LEN };
        self.can_generate(raw_len)
    }

    /// A password for `config`, from random bytes drawn under the password class.
    pub fn generate_password(&mut self, config: PasswordConfig) -> (r: Result<String, EntropyError>)
        requires
            old(self).wf(),
            config.spec_charset().len() > 0 ==> password_request_fits(config.length as nat, config.spec_charset().len()),
            config.spec_charset().len() > 0 ==> old(self)@.can_generate(
                password_request_len(config.length as nat, config.spec_charset().len()),
            ),
        ensures
            final(self).wf(),
            config.spec_charset().len() == 0 ==> r is Err && r->Err_0@ == (EntropyErrorView::InvalidLength {
                requested: config.length,
                max: 0,
            }) && final(self)@ == old(self)@,
            config.spec_charset().len() > 0 ==> {
                let o = request_outcome(
                    old(self)@,
                    password_request_len(config.length as nat, config.spec_charset().len()),
                    OutputClass::Password,
                );
                &&& final(self)@ == o.1
                &&& match o.0 {
                    Ok(b) => match password_spec(b, config) {
                        Ok(p) => r is Ok && r->Ok_0@ == p,
                        Err(e) => r is Err && r->Err_0@ == e,
                    },
                    Err(e) => r is Err && r->Err_0@ == e,
                }
            },
    {
        let raw_len = match Self::password_raw_len(&config) {
            Some(n) => n,
            None => {
                return Err(EntropyError::InvalidLength { requested: config.length, max: 0 });
            },
        };
        let bytes = match self.pipeline(raw_len, OutputClass::Password) {
            Ok(b) => b,
            Err(e) => {
                return Err(e);
            },
        };
        CryptoOutput::generate_password(bytes.as_slice(), &config)
    }

    /// An AES-256 key (highest security requirement), hex-encoded.
    pub fn generate_aes_key(&mut self) -> (r: Result<String, EntropyError>)
        requires
            old(self).wf(),
            old(self)@.can_generate(32),
        ensures
            final(self).wf(),
            match request_outcome(old(self)@, 32, OutputClass::CryptoKey).0 {
                Ok(b) => r is Ok && r->Ok_0@ == hex_lower(b),
                Err(e) => r is Err && r->Err_0@ == e,
            },
            final(self)@ == request_outcome(old(self)@, 32, OutputClass::CryptoKey).1,
    {
        let bytes = match self.pipeline(32, OutputClass::CryptoKey) {
            Ok(b) => b,
            Err(e) => {
                return Err(e);
            },
        };
        let key = match CryptoOutput::generate_aes256_key(bytes.as_slice()) {
            Ok(k) => k,
            Err(e) => {
                return Err(e);
            },
        };
        assert(bytes@.take(32) =~= bytes@);
        Ok(CryptoOutput::to_hex(&key))
    }

    /// A session token (high security requirement), hex-encoded.
    pub fn generate_session_token(&mut self) -> (r: Result<String, EntropyError>)
        requires
            old(self).wf(),
            old(self)@.can_generate(32),
        ensures
            final(self).wf(),
            match request_outcome(old(self)@, 32, OutputClass::SessionToken).0 {
                Ok(b) => r is Ok && r->Ok_0@ == hex_lower(b),
                Err(e) => r is Err && r->Err_0@ == e,
            },
            final(self)@ == request_outcome(old(self)@, 32, OutputClass::SessionToken).1,
    {
        let bytes = match self.pipeline(32, OutputClass::SessionToken) {
            Ok(b) => b,
            Err(e) => {
                return Err(e);
            },
        };
        Ok(CryptoOutput::generate_session_token(bytes.as_slice()))
    }

    /// Current health status of the source.
    pub fn get_entropy_integrity(&self) -> (h: HealthStatus)
        ensures
            h == self@.health.status,
    {
        self.health.status()
    }

    /// Current health status of the source.
    pub fn health_report(&self) -> (h: HealthStatus)
        ensures
            h == self@.health.status,
    {
        self.health.status()
    }

    /// Whether the engine runs on a simulated (non-hardware) source.
    pub fn is_simulated(&self) -> (b: bool)
        ensures
            b == (self@.gate.trust_level == TrustLevel::Simulated),
    {
        self.gate.is_simulated()
    }

    /// Drain security events for logging or forwarding to the frontend.
    pub fn drain_security_events(&mut self) -> (events: Vec<SecurityEvent>)
        requires
            old(self).wf(),
        ensures
            final(self).wf(),
            events_view(events@) == old(self)@.gate.events,
            final(self)@ == (ServiceView {
                gate: SecurityGateView { events: Seq::empty(), ..old(self)@.gate },
                ..old(self)@
            }),
    {
        self.gate.drain_events()
    }

    /// The active trust level.
    pub fn trust_level(&self) -> (t: TrustLevel)
        ensures
            t == self@.gate.trust_level,
    {
        self.gate.trust_level()
    }

    /// Number of pool mixes so far.
    pub fn pool_fills(&self) -> (n: u64)
        ensures
            n == self@.pool.fill_count,
    {
        self.pool.fill_count()
    }

    /// Total output bytes produced.
    pub fn bytes_generated(&self) -> (n: u64)
        ensures
            n == self@.bytes_generated,
    {
        self.bytes_generated
    }

    /// Number of DRBG reseeds.
    pub fn reseed_count(&self) -> (n: u64)
        ensures
            n == self@.reseed_count,
    {
        self.reseed_count
    }

    /// Bytes the DRBG has drawn since its last reseed.
    pub fn drbg_bytes_since_reseed(&self) -> (n: u64)
        ensures
            n == self@.drbg.bytes_since_reseed,
    {
        self.drbg.bytes_since_reseed()
    }

    /// Weighted pool entropy estimate in millibits.
    pub fn pool_entropy_millibits(&self) -> (m: u64)
        ensures
            m == self@.pool.entropy_millibits,
    {
        self.pool.weighted_entropy_millibits()
    }

    /// Whether the pool holds at least 256 bits of weighted entropy.
    pub fn pool_well_seeded(&self) -> (b: bool)
        ensures
            b == self@.pool.well_seeded(),
    {
        self.pool.is_well_seeded()
    }

    /// Whether another `ingest` of `len` bytes keeps the counters in range.
    pub fn can_ingest(&self, len: usize) -> (b: bool)
        requires
            self.wf(),
        ensures
            b == self@.can_ingest(len as nat),
    {
        self.health.can_observe(len) && self.pool.fill_count() < u64::MAX
    }

    /// Whether a request of `length` bytes keeps the counters in range.
    pub fn can_generate(&self, length: usize) -> (b: bool)
        ensures
            b == self@.can_generate(length as nat),
    {
        (self.bytes_generated as u128) + (length as u128) <= u64::MAX as u128 && self.reseed_count < u64::MAX
    }
}

/// No output leaves the service unless the security policy check allowed it: a
/// non-empty successful request means the policy check's verdict on the state before
/// the request, the class, the health status and the pool estimate was `Ok`.
pub proof fn lemma_output_only_when_allowed(s: ServiceView, length: nat, class: OutputClass)
    requires
        length > 0,
        request_outcome(s, length, class).0 is Ok,
    ensures
        s.gate.decide(
            class,
            length as usize,
            s.health.status,
            s.pool.entropy_millibits as u64,
            s.pool.well_seeded(),
        ) is Ok,
        s.health.status != HealthStatus::Failed,
{
}

/// A failed health status blocks every non-empty request, under every policy.
pub proof fn lemma_failed_health_blocks(s: ServiceView, length: nat, class: OutputClass)
    requires
        0 < length <= MAX_OUTPUT_LEN,
        s.health.status == HealthStatus::Failed,
    ensures
        request_outcome(s, length, class).0 is Err,
{
}

/// Under the production policy nothing is produced until the pool is well-seeded.
pub proof fn lemma_production_needs_seeded_pool(s: ServiceView, length: nat, class: OutputClass)
    requires
        0 < length <= MAX_OUTPUT_LEN,
        s.gate.policy == production_policy(),
        !s.pool.well_seeded(),
    ensures
        request_outcome(s, length, class).0 is Err,
{
}

/// Ingesting nothing changes nothing.
pub proof fn lemma_empty_ingest_is_noop(s: ServiceView, contribution_millibits: nat)
    ensures
        s.ingested(Seq::empty(), contribution_millibits) == s,
{
}

/// Every output is keyed by the pool: a successful request reseeds the DRBG with
/// the pool's derived seed, so the new key is SHA-256(old key || SHA-256(domain ||
/// pool state)) and the nonce is the next generation; the output is the start of
/// that keystream, the next 32 keystream bytes become the key, and the pool's
/// estimate decays to three quarters while its state is kept.
pub proof fn lemma_output_keyed_by_pool(s: ServiceView, length: nat, class: OutputClass)
    requires
        0 < length <= MAX_OUTPUT_LEN,
        request_outcome(s, length, class).0 is Ok,
    ensures
        ({
            let key = sha256(s.drbg.key + sha256(drbg_seed_domain() + s.pool.state));
            let generation: u64 = if s.drbg.generation == u64::MAX { 0 } else { (s.drbg.generation + 1) as u64 };
            let stream = keystream(key, generation_nonce(generation), 0, length + 32);
            let (out, next) = request_outcome(s, length, class);
            &&& out->Ok_0 == stream.take(length as int)
            &&& next.drbg.key == stream.subrange(length as int, length as int + 32)
            &&& next.drbg.generation == generation
            &&& next.drbg.stream_position == length + 32
            &&& next.drbg.bytes_since_reseed == length + 32
            &&& next.pool.state == s.pool.state
            &&& next.pool.entropy_millibits == s.pool.entropy_millibits * 3 / 4
            &&& next.reseed_count == s.reseed_count + 1
            &&& next.bytes_generated == s.bytes_generated + length
        }),
{
}

} // verus!
