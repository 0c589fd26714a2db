//! Trust levels, output classes, the security policy and the policy check that enforces it.
//!
//! Every output generation call passes through the policy check before any bytes leave
//! the DRBG. Pool estimates reach the check in millibits, and the policy
//! thresholds are whole numbers of bits; reports show estimates in bits with one
//! decimal.
use vstd::prelude::*;

use crate::health::HealthStatus;
use crate::text::{decimal, digit_char, push_char, push_decimal, push_str, string_of};

verus! {

/// A whole number of bits written with one decimal (`{:.1}`), as reports show thresholds.
pub open spec fn bits_text(bits: u64) -> Seq<char> {
    decimal(bits as nat) + ".0"@
}

fn push_bits(s: &mut String, bits: u64)
    ensures
        final(s)@ == old(s)@ + bits_text(bits),
{
    push_decimal(s, bits);
    push_str(s, ".0");
    assert(s@ =~= old(s)@ + bits_text(bits));
}

/// An estimate in millibits, in tenths of a bit rounded to the nearest (halves up).
pub open spec fn tenths_of(millibits: u64) -> nat {
    (millibits / 100) as nat + if millibits % 100 >= 50 { 1nat } else { 0nat }
}

/// An estimate in millibits written in bits with one decimal (`{:.1}`), as
/// reports show estimates.
pub open spec fn tenths_text(millibits: u64) -> Seq<char> {
    decimal(tenths_of(millibits) / 10) + "."@ + seq![digit_char(tenths_of(millibits) % 10)]
}

fn push_tenths(s: &mut String, millibits: u64)
    ensures
        final(s)@ == old(s)@ + tenths_text(millibits),
{
    let t: u64 = millibits / 100 + if millibits % 100 >= 50 { 1 } else { 0 };
    push_decimal(s, t / 10);
    push_str(s, ".");
    push_char(s, (((t % 10) as u8) + 48) as char);
    assert(s@ =~= old(s)@ + tenths_text(millibits));
}


/// How much we trust an entropy source.
#[derive(Debug, Clone, Copy, PartialEq, Eq, Structural)]
pub enum TrustLevel {
    /// Physical noise source (MOSFET electronic noise via the MYOSA ADC).
    Hardware,
    /// Timing jitter; supplemental only.
    Timing,
    /// Simulated source; never trusted for production output.
    Simulated,
}

/// Text of `TrustLevel::label`.
pub open spec fn trust_label(t: TrustLevel) -> Seq<char> {
    match t {
        TrustLevel::Hardware => "hardware"@,
        TrustLevel::Timing => "timing"@,
        TrustLevel::Simulated => "simulated"@,
    }
}

impl TrustLevel {
    /// Lower-case name ("hardware", "timing", "simulated").
    pub fn label(&self) -> (s: &'static str)
        ensures
            s@ == trust_label(*self),
    {
        match self {
            TrustLevel::Hardware => "hardware",
            TrustLevel::Timing => "timing",
            TrustLevel::Simulated => "simulated",
        }
    }
}

/// Classification of output by security requirement.
#[derive(Debug, Clone, Copy, PartialEq, Eq, Structural)]
pub enum OutputClass {
    /// AES keys, HMAC keys, master secrets.
    CryptoKey,
    /// Session tokens, API keys.
    SessionToken,
    /// Passwords.
    Password,
    /// Raw random bytes, hex strings.
    Raw,
}

/// Text of `OutputClass::label`.
pub open spec fn class_label(c: OutputClass) -> Seq<char> {
    match c {
        OutputClass::CryptoKey => "cryptographic key"@,
        OutputClass::SessionToken => "session token"@,
        OutputClass::Password => "password"@,
        OutputClass::Raw => "random bytes"@,
    }
}

impl OutputClass {
    /// Human-readable label for error messages.
    pub fn label(&self) -> (s: &'static str)
        ensures
            s@ == class_label(*self),
    {
        match self {
            OutputClass::CryptoKey => "cryptographic key",
            OutputClass::SessionToken => "session token",
            OutputClass::Password => "password",
            OutputClass::Raw => "random bytes",
        }
    }
}

/// Security policy: the minimum conditions for generating output.
/// Entropy thresholds are whole bits of weighted pool entropy.
#[derive(Debug, Clone, Copy, PartialEq, Eq, Structural)]
pub struct SecurityPolicy {
    pub min_entropy_crypto_key: u64,
    pub min_entropy_session_token: u64,
    pub min_entropy_password: u64,
    pub min_entropy_raw: u64,
    /// Whether simulated sources may produce keys and session tokens.
    pub allow_simulated_crypto: bool,
    /// Whether output is allowed while health is `Warning` (`Failed` always blocks).
    pub allow_warning_output: bool,
    /// Maximum total bytes a simulated source may produce.
    pub simulated_output_limit: u64,
    /// Whether the pool must be well-seeded before any output.
    pub require_pool_ready: bool,
}

/// Minimum entropy threshold of `policy` for `class`.
pub open spec fn min_entropy(policy: SecurityPolicy, class: OutputClass) -> u64 {
    match class {
        OutputClass::CryptoKey => policy.min_entropy_crypto_key,
        OutputClass::SessionToken => policy.min_entropy_session_token,
        OutputClass::Password => policy.min_entropy_password,
        OutputClass::Raw => policy.min_entropy_raw,
    }
}

/// The strict production policy.
pub open spec fn production_policy() -> SecurityPolicy {
    SecurityPolicy {
        min_entropy_crypto_key: 256,
        min_entropy_session_token: 192,
        min_entropy_password: 128,
        min_entropy_raw: 64,
        allow_simulated_crypto: false,
        allow_warning_output: false,
        simulated_output_limit: 0,
        require_pool_ready: true,
    }
}

/// The permissive development policy.
pub open spec fn development_policy() -> SecurityPolicy {
    SecurityPolicy {
        min_entropy_crypto_key: 0,
        min_entropy_session_token: 0,
        min_entropy_password: 0,
        min_entropy_raw: 0,
        allow_simulated_crypto: true,
        allow_warning_output: true,
        simulated_output_limit: u64::MAX,
        require_pool_ready: false,
    }
}

impl SecurityPolicy {
    /// Strict production policy: hardware entropy and a well-seeded pool required.
    pub fn production() -> (p: Self)
        ensures
            p == production_policy(),
    {
        SecurityPolicy {
            min_entropy_crypto_key: 256,
            min_entropy_session_token: 192,
            min_entropy_password: 128,
            min_entropy_raw: 64,
            allow_simulated_crypto: false,
            allow_warning_output: false,
            simulated_output_limit: 0,
            require_pool_ready: true,
        }
    }

    /// Permissive development policy: allows simulated sources.
    pub fn development() -> (p: Self)
        ensures
            p == development_policy(),
    {
        SecurityPolicy {
            min_entropy_crypto_key: 0,
            min_entropy_session_token: 0,
            min_entropy_password: 0,
            min_entropy_raw: 0,
            allow_simulated_crypto: true,
            allow_warning_output: true,
            simulated_output_limit: u64::MAX,
            require_pool_ready: false,
        }
    }

    /// Minimum entropy threshold (bits) for an output class.
    pub fn min_entropy_for(&self, class: OutputClass) -> (bits: u64)
        ensures
            bits == min_entropy(*self, class),
    {
        match class {
            OutputClass::CryptoKey => self.min_entropy_crypto_key,
            OutputClass::SessionToken => self.min_entropy_session_token,
            OutputClass::Password => self.min_entropy_password,
            OutputClass::Raw => self.min_entropy_raw,
        }
    }
}

impl Default for SecurityPolicy {
    /// The development policy; production deployments must choose `production()`.
    fn default() -> (p: Self)
        ensures
            p == development_policy(),
    {
        SecurityPolicy::development()
    }
}

/// Auditable security event.
#[derive(Debug, Clone)]
pub enum SecurityEvent {
    SourceRegistered { source_id: u8, trust_level: TrustLevel },
    HealthStateChange { from: HealthStatus, to: HealthStatus },
    PolicyViolation { output_class: String, reason: String },
    OutputGenerated { output_class: String, bytes: usize, pool_entropy_millibits: u64 },
    PoolSeeded { entropy_millibits: u64 },
    SimulatedModeActive,
    SimulatedLimitReached { bytes_generated: u64, limit: u64 },
    InitialSeedingComplete { trust_level: TrustLevel, health_ok: bool },
}

/// Abstract value of a `SecurityEvent`: text fields as character sequences.
pub enum SecurityEventView {
    SourceRegistered { source_id: u8, trust_level: TrustLevel },
    HealthStateChange { from: HealthStatus, to: HealthStatus },
    PolicyViolation { output_class: Seq<char>, reason: Seq<char> },
    OutputGenerated { output_class: Seq<char>, bytes: usize, pool_entropy_millibits: u64 },
    PoolSeeded { entropy_millibits: u64 },
    SimulatedModeActive,
    SimulatedLimitReached { bytes_generated: u64, limit: u64 },
    InitialSeedingComplete { trust_level: TrustLevel, health_ok: bool },
}

impl View for SecurityEvent {
    type V = SecurityEventView;

    open spec fn view(&self) -> SecurityEventView {
        match self {
            SecurityEvent::SourceRegistered { source_id, trust_level } => SecurityEventView::SourceRegistered {
                source_id: *source_id,
                trust_level: *trust_level,
            },
            SecurityEvent::HealthStateChange { from, to } => SecurityEventView::HealthStateChange { from: *from, to: *to },
            SecurityEvent::PolicyViolation { output_class, reason } => SecurityEventView::PolicyViolation {
                output_class: output_class@,
                reason: reason@,
            },
            SecurityEvent::OutputGenerated { output_class, bytes, pool_entropy_millibits } => SecurityEventView::OutputGenerated {
                output_class: output_class@,
                bytes: *bytes,
                pool_entropy_millibits: *pool_entropy_millibits,
            },
            SecurityEvent::PoolSeeded { entropy_millibits } => SecurityEventView::PoolSeeded { entropy_millibits: *entropy_millibits },
            SecurityEvent::SimulatedModeActive => SecurityEventView::SimulatedModeActive,
            SecurityEvent::SimulatedLimitReached { bytes_generated, limit } => SecurityEventView::SimulatedLimitReached {
                bytes_generated: *bytes_generated,
                limit: *limit,
            },
            SecurityEvent::InitialSeedingComplete { trust_level, health_ok } => SecurityEventView::InitialSeedingComplete {
                trust_level: *trust_level,
                health_ok: *health_ok,
            },
        }
    }
}

/// Views of a sequence of events.
pub open spec fn events_view(events: Seq<SecurityEvent>) -> Seq<SecurityEventView> {
    events.map_values(|e: SecurityEvent| e@)
}

/// Specific reason why the policy check blocked output generation.
#[derive(Debug, Clone, Copy, PartialEq, Eq, Structural)]
pub enum SecurityViolation {
    PoolNotReady { pool_entropy_millibits: u64 },
    HealthFailed,
    HealthWarning,
    SimulatedSourceBlocked { output_class: OutputClass },
    SimulatedLimitExceeded { generated: u64, limit: u64 },
    InsufficientEntropy { output_class: OutputClass, have_millibits: u64, need_bits: u64 },
}

/// Text of `SecurityViolation::message`.
pub open spec fn violation_text(v: SecurityViolation) -> Seq<char> {
    match v {
        SecurityViolation::PoolNotReady { pool_entropy_millibits } => "pool not yet well-seeded ("@ + tenths_text(pool_entropy_millibits) + " bits) \u{2014} refusing output until sufficient entropy accumulated"@,
        SecurityViolation::HealthFailed => "entropy source health check failed"@,
        SecurityViolation::HealthWarning => "entropy source health warning (strict policy)"@,
        SecurityViolation::SimulatedSourceBlocked { output_class } => "simulated source cannot produce "@
            + class_label(output_class),
        SecurityViolation::SimulatedLimitExceeded { generated, limit } => "simulated output limit exceeded: "@
            + decimal(generated as nat) + " bytes generated, limit "@ + decimal(limit as nat),
        SecurityViolation::InsufficientEntropy { output_class, have_millibits, need_bits } => "insufficient entropy for "@
            + class_label(output_class) + ": have "@ + tenths_text(have_millibits) + " bits, need "@ + bits_text(need_bits),
    }
}

impl SecurityViolation {
    /// Human-readable description of the violation.
    pub fn message(&self) -> (s: String)
        ensures
            s@ == violation_text(*self),
    {
        match self {
            SecurityViolation::PoolNotReady { pool_entropy_millibits } => {
                let mut s = string_of("pool not yet well-seeded (");
                push_tenths(&mut s, *pool_entropy_millibits);
                push_str(&mut s, " bits) \u{2014} refusing output until sufficient entropy accumulated");
                s
            },
            SecurityViolation::HealthFailed => string_of("entropy source health check failed"),
            SecurityViolation::HealthWarning => string_of("entropy source health warning (strict policy)"),
            SecurityViolation::SimulatedSourceBlocked { output_class } => {
                let mut s = string_of("simulated source cannot produce ");
                push_str(&mut s, output_class.label());
                s
            },
            SecurityViolation::SimulatedLimitExceeded { generated, limit } => {
                let mut s = string_of("simulated output limit exceeded: ");
                push_decimal(&mut s, *generated);
                push_str(&mut s, " bytes generated, limit ");
                push_decimal(&mut s, *limit);
                s
            },
            SecurityViolation::InsufficientEntropy { output_class, have_millibits, need_bits } => {
                let mut s = string_of("insufficient entropy for ");
                push_str(&mut s, output_class.label());
                push_str(&mut s, ": have ");
                push_tenths(&mut s, *have_millibits);
                push_str(&mut s, " bits, need ");
                push_bits(&mut s, *need_bits);
                s
            },
        }
    }
}

/// The policy check's verdict on an output request.
pub open spec fn gate_decision(
    policy: SecurityPolicy,
    trust: TrustLevel,
    class: OutputClass,
    bytes: usize,
    health: HealthStatus,
    pool_entropy_millibits: u64,
    pool_well_seeded: bool,
    simulated_generated: nat,
) -> Result<(), SecurityViolation> {
    if policy.require_pool_ready && !pool_well_seeded {
        Err(SecurityViolation::PoolNotReady { pool_entropy_millibits })
    } else if health == HealthStatus::Failed {
        Err(SecurityViolation::HealthFailed)
    } else if health == HealthStatus::Warning && !policy.allow_warning_output {
        Err(SecurityViolation::HealthWarning)
    } else if trust == TrustLevel::Simulated && !policy.allow_simulated_crypto && (class
        == OutputClass::CryptoKey || class == OutputClass::SessionToken) {
        Err(SecurityViolation::SimulatedSourceBlocked { output_class: class })
    } else if trust == TrustLevel::Simulated && simulated_generated + bytes
        > policy.simulated_output_limit {
        Err(
            SecurityViolation::SimulatedLimitExceeded {
                generated: simulated_generated as u64,
                limit: policy.simulated_output_limit,
            },
        )
    } else if pool_entropy_millibits < min_entropy(policy, class) * 1000 {
        Err(
            SecurityViolation::InsufficientEntropy {
                output_class: class,
                have_millibits: pool_entropy_millibits,
                need_bits: min_entropy(policy, class),
            },
        )
    } else {
        Ok(())
    }
}

/// Reason recorded in the event log when the policy check refuses a request of class `class`.
pub open spec fn refusal_reason(v: SecurityViolation, class: OutputClass) -> Seq<char> {
    match v {
        SecurityViolation::PoolNotReady { pool_entropy_millibits } => "pool not yet well-seeded ("@ + tenths_text(pool_entropy_millibits) + " bits) \u{2014} refusing "@ + class_label(class) + " generation"@,
        SecurityViolation::HealthFailed => "entropy source health check failed"@,
        SecurityViolation::HealthWarning => "entropy source health warning (strict policy)"@,
        SecurityViolation::SimulatedSourceBlocked { output_class } => "simulated source cannot produce "@
            + class_label(output_class) + " (policy: allow_simulated_crypto=false)"@,
        SecurityViolation::SimulatedLimitExceeded { .. } => Seq::empty(),
        SecurityViolation::InsufficientEntropy { output_class, have_millibits, need_bits } => "insufficient pool entropy for "@
            + class_label(output_class) + ": have "@ + tenths_text(have_millibits) + " bits, need "@ + bits_text(need_bits)
            + " bits"@,
    }
}

/// The event a decision adds to the log (after any health transition event).
pub open spec fn decision_event(class: OutputClass, bytes: usize, pool_entropy_millibits: u64, d: Result<(), SecurityViolation>) -> SecurityEventView {
    match d {
        Ok(()) => SecurityEventView::OutputGenerated {
            output_class: class_label(class),
            bytes,
            pool_entropy_millibits,
        },
        Err(SecurityViolation::SimulatedLimitExceeded { generated, limit }) => SecurityEventView::SimulatedLimitReached {
            bytes_generated: generated,
            limit,
        },
        Err(v) => SecurityEventView::PolicyViolation {
            output_class: class_label(class),
            reason: refusal_reason(v, class),
        },
    }
}

/// Abstract state of a `SecurityGate`.
pub struct SecurityGateView {
    pub policy: SecurityPolicy,
    pub trust_level: TrustLevel,
    pub events: Seq<SecurityEventView>,
    pub last_health: HealthStatus,
    pub simulated_bytes_generated: nat,
}

impl SecurityGateView {
    /// The policy check's verdict on a request in this state.
    pub open spec fn decide(
        self,
        class: OutputClass,
        bytes: usize,
        health: HealthStatus,
        pool_entropy_millibits: u64,
        pool_well_seeded: bool,
    ) -> Result<(), SecurityViolation> {
        gate_decision(
            self.policy,
            self.trust_level,
            class,
            bytes,
            health,
            pool_entropy_millibits,
            pool_well_seeded,
            self.simulated_bytes_generated,
        )
    }

    /// Events appended by a request: a health transition (when the health differs
    /// from the last one seen), then the decision's own event.
    pub open spec fn request_events(
        self,
        class: OutputClass,
        bytes: usize,
        health: HealthStatus,
        pool_entropy_millibits: u64,
        pool_well_seeded: bool,
    ) -> Seq<SecurityEventView> {
        let transition = if health != self.last_health {
            seq![SecurityEventView::HealthStateChange { from: self.last_health, to: health }]
        } else {
            Seq::empty()
        };
        transition.push(
            decision_event(class, bytes, pool_entropy_millibits, self.decide(class, bytes, health, pool_entropy_millibits, pool_well_seeded)),
        )
    }

    /// The state after a request.
    pub open spec fn after_request(
        self,
        class: OutputClass,
        bytes: usize,
        health: HealthStatus,
        pool_entropy_millibits: u64,
        pool_well_seeded: bool,
    ) -> SecurityGateView {
        let ok = self.decide(class, bytes, health, pool_entropy_millibits, pool_well_seeded) is Ok;
        SecurityGateView {
            events: self.events + self.request_events(class, bytes, health, pool_entropy_millibits, pool_well_seeded),
            last_health: health,
            simulated_bytes_generated: if ok && self.trust_level == TrustLevel::Simulated {
                self.simulated_bytes_generated + (bytes as nat)
            } else {
                self.simulated_bytes_generated
            },
            ..self
        }
    }

    /// Simulated output never exceeds the policy's limit; other sources count nothing.
    pub open spec fn within_limit(self) -> bool {
        if self.trust_level == TrustLevel::Simulated {
            self.simulated_bytes_generated <= self.policy.simulated_output_limit
        } else {
            self.simulated_bytes_generated == 0
        }
    }
}

/// Events recorded by a freshly created policy check.
pub open spec fn initial_events(trust: TrustLevel) -> Seq<SecurityEventView> {
    let registered = seq![SecurityEventView::SourceRegistered { source_id: 0, trust_level: trust }];
    if trust == TrustLevel::Simulated {
        registered.push(SecurityEventView::SimulatedModeActive)
    } else {
        registered
    }
}

/// The security policy check: enforces the policy, tracks trust context, records events.
pub struct SecurityGate {
    policy: SecurityPolicy,
    trust_level: TrustLevel,
    events: Vec<SecurityEvent>,
    last_health: HealthStatus,
    simulated_bytes_generated: u64,
}

impl View for SecurityGate {
    type V = SecurityGateView;

    closed spec fn view(&self) -> SecurityGateView {
        SecurityGateView {
            policy: self.policy,
            trust_level: self.trust_level,
            events: events_view(self.events@),
            last_health: self.last_health,
            simulated_bytes_generated: self.simulated_bytes_generated as nat,
        }
    }
}

impl SecurityGate {
    /// Internal consistency: simulated output stays within the policy limit.
    pub closed spec fn wf(&self) -> bool {
        self@.within_limit()
    }

    /// A policy check for `policy` and `trust_level`; records the source registration
    /// and, for simulated sources, that simulated mode is active.
    pub fn new(policy: SecurityPolicy, trust_level: TrustLevel) -> (gate: Self)
        ensures
            gate.wf(),
            gate@ == (SecurityGateView {
                policy,
                trust_level,
                events: initial_events(trust_level),
                last_health: HealthStatus::Healthy,
                simulated_bytes_generated: 0,
            }),
    {
        let mut gate = SecurityGate {
            policy,
            trust_level,
            events: Vec::new(),
            last_health: HealthStatus::Healthy,
            simulated_bytes_generated: 0,
        };
        gate.events.push(SecurityEvent::SourceRegistered { source_id: 0, trust_level });
        if trust_level == TrustLevel::Simulated {
            gate.events.push(SecurityEvent::SimulatedModeActive);
        }
        assert(events_view(gate.events@) =~= initial_events(trust_level));
        gate
    }

    fn record(&mut self, event: SecurityEvent)
        ensures
            final(self)@ == (SecurityGateView { events: old(self)@.events.push(event@), ..old(self)@ }),
    {
        let ghost before = self.events@;
        self.events.push(event);
        assert(events_view(self.events@) =~= events_view(before).push(event@));
    }

    fn refuse(&mut self, class: OutputClass, reason: String)
        ensures
            final(self)@ == (SecurityGateView {
                events: old(self)@.events.push(
                    SecurityEventView::PolicyViolation { output_class: class_label(class), reason: reason@ },
                ),
                ..old(self)@
            }),
    {
        self.record(SecurityEvent::PolicyViolation { output_class: string_of(class.label()), reason });
    }

    /// Check whether generating `bytes` bytes of output of class `class` is allowed,
    /// given the health status and the pool's weighted entropy estimate in millibits.
    ///
    /// Returns `Ok(())` when the policy permits, or the violation that blocks it.
    pub fn check_output_allowed(
        &mut self,
        class: OutputClass,
        bytes: usize,
        health: HealthStatus,
        pool_entropy_millibits: u64,
        pool_well_seeded: bool,
    ) -> (r: Result<(), SecurityViolation>)
        requires
            old(self).wf(),
        ensures
            final(self).wf(),
            r == old(self)@.decide(class, bytes, health, pool_entropy_millibits, pool_well_seeded),
            final(self)@ == old(self)@.after_request(class, bytes, health, pool_entropy_millibits, pool_well_seeded),
    {
        let ghost start = self@;
        if health != self.last_health {
            let from = self.last_health;
            self.record(SecurityEvent::HealthStateChange { from, to: health });
            self.last_health = health;
        }
        let ghost mid = self@;
        assert(mid.events == start.events + (if health != start.last_health {
            seq![SecurityEventView::HealthStateChange { from: start.last_health, to: health }]
        } else {
            Seq::empty()
        }));

        // Step 0: startup entropy safety.
        if self.policy.require_pool_ready && !pool_well_seeded {
            let mut reason = string_of("pool not yet well-seeded (");
            push_tenths(&mut reason, pool_entropy_millibits);
            push_str(&mut reason, " bits) \u{2014} refusing ");
            push_str(&mut reason, class.label());
            push_str(&mut reason, " generation");
            self.refuse(class, reason);
            assert(self@.events =~= start.after_request(class, bytes, health, pool_entropy_millibits, pool_well_seeded).events);
            return Err(SecurityViolation::PoolNotReady { pool_entropy_millibits });
        }
        // Step 1: health status.
        if health == HealthStatus::Failed {
            self.refuse(class, string_of("entropy source health check failed"));
            assert(self@.events =~= start.after_request(class, bytes, health, pool_entropy_millibits, pool_well_seeded).events);
            return Err(SecurityViolation::HealthFailed);
        }
        if health == HealthStatus::Warning && !self.policy.allow_warning_output {
            self.refuse(class, string_of("entropy source health warning (strict policy)"));
            assert(self@.events =~= start.after_request(class, bytes, health, pool_entropy_millibits, pool_well_seeded).events);
            return Err(SecurityViolation::HealthWarning);
        }
        // Step 2: simulated source restrictions.
        if self.trust_level == TrustLevel::Simulated {
            let key_like = match class {
                OutputClass::CryptoKey => true,
                OutputClass::SessionToken => true,
                _ => false,
            };
            if !self.policy.allow_simulated_crypto && key_like {
                let mut reason = string_of("simulated source cannot produce ");
                push_str(&mut reason, class.label());
                push_str(&mut reason, " (policy: allow_simulated_crypto=false)");
                self.refuse(class, reason);
                assert(self@.events =~= start.after_request(class, bytes, health, pool_entropy_millibits, pool_well_seeded).events);
                return Err(SecurityViolation::SimulatedSourceBlocked { output_class: class });
            }
            if (self.simulated_bytes_generated as u128) + (bytes as u128) > (self.policy.simulated_output_limit as u128) {
                let generated = self.simulated_bytes_generated;
                let limit = self.policy.simulated_output_limit;
                self.record(SecurityEvent::SimulatedLimitReached { bytes_generated: generated, limit });
                assert(self@.events =~= start.after_request(class, bytes, health, pool_entropy_millibits, pool_well_seeded).events);
                return Err(SecurityViolation::SimulatedLimitExceeded { generated, limit });
            }
        }
        // Step 3: minimum entropy threshold.
        let required = self.policy.min_entropy_for(class);
        if (pool_entropy_millibits as u128) < (required as u128) * 1000 {
            let mut reason = string_of("insufficient pool entropy for ");
            push_str(&mut reason, class.label());
            push_str(&mut reason, ": have ");
            push_tenths(&mut reason, pool_entropy_millibits);
            push_str(&mut reason, " bits, need ");
            push_bits(&mut reason, required);
            push_str(&mut reason, " bits");
            self.refuse(class, reason);
            assert(self@.events =~= start.after_request(class, bytes, health, pool_entropy_millibits, pool_well_seeded).events);
            return Err(
                SecurityViolation::InsufficientEntropy {
                    output_class: class,
                    have_millibits: pool_entropy_millibits,
                    need_bits: required,
                },
            );
        }
        // All gates passed.
        if self.trust_level == TrustLevel::Simulated {
            self.simulated_bytes_generated = self.simulated_bytes_generated + bytes as u64;
        }
        self.record(
            SecurityEvent::OutputGenerated {
                output_class: string_of(class.label()),
                bytes,
                pool_entropy_millibits,
            },
        );
        assert(self@.events =~= start.after_request(class, bytes, health, pool_entropy_millibits, pool_well_seeded).events);
        Ok(())
    }

    /// Record that initial seeding completed.
    pub fn record_initial_seeding(&mut self, health_ok: bool)
        requires
            old(self).wf(),
        ensures
            final(self).wf(),
            final(self)@ == (SecurityGateView {
                events: old(self)@.events.push(
                    SecurityEventView::InitialSeedingComplete { trust_level: old(self)@.trust_level, health_ok },
                ),
                ..old(self)@
            }),
    {
        let trust_level = self.trust_level;
        self.record(SecurityEvent::InitialSeedingComplete { trust_level, health_ok });
    }

    /// Record that the pool crossed the well-seeded threshold, with its estimate in millibits.
    pub fn record_pool_seeded(&mut self, entropy_millibits: u64)
        requires
            old(self).wf(),
        ensures
            final(self).wf(),
            final(self)@ == (SecurityGateView {
                events: old(self)@.events.push(SecurityEventView::PoolSeeded { entropy_millibits }),
                ..old(self)@
            }),
    {
        self.record(SecurityEvent::PoolSeeded { entropy_millibits });
    }

    /// The trust level of the gated source.
    pub fn trust_level(&self) -> (t: TrustLevel)
        ensures
            t == self@.trust_level,
    {
        self.trust_level
    }

    /// The enforced policy.
    pub fn policy(&self) -> (p: &SecurityPolicy)
        ensures
            *p == self@.policy,
    {
        &self.policy
    }

    /// Drain all recorded events (for forwarding to a log or the frontend).
    pub fn drain_events(&mut self) -> (events: Vec<SecurityEvent>)
        requires
            old(self).wf(),
        ensures
            final(self).wf(),
            events_view(events@) == old(self)@.events,
            final(self)@ == (SecurityGateView { events: Seq::empty(), ..old(self)@ }),
    {
        let mut drained: Vec<SecurityEvent> = Vec::new();
        std::mem::swap(&mut drained, &mut self.events);
        assert(events_view(self.events@) =~= Seq::<SecurityEventView>::empty());
        drained
    }

    /// Recorded events, without draining.
    pub fn events(&self) -> (events: &[SecurityEvent])
        ensures
            events_view(events@) == self@.events,
    {
        self.events.as_slice()
    }

    /// Whether the gated source is simulated.
    pub fn is_simulated(&self) -> (b: bool)
        ensures
            b == (self@.trust_level == TrustLevel::Simulated),
    {
        self.trust_level == TrustLevel::Simulated
    }
}

/// Under the production policy a simulated source never yields cryptographic
/// keys or session tokens, whatever the health, pool and counters.
pub proof fn lemma_production_blocks_simulated_secrets(
    class: OutputClass,
    bytes: usize,
    health: HealthStatus,
    pool_entropy_millibits: u64,
    pool_well_seeded: bool,
    simulated_generated: nat,
)
    requires
        class == OutputClass::CryptoKey || class == OutputClass::SessionToken,
    ensures
        gate_decision(
            production_policy(),
            TrustLevel::Simulated,
            class,
            bytes,
            health,
            pool_entropy_millibits,
            pool_well_seeded,
            simulated_generated,
        ) is Err,
{
}

/// A failed health status blocks every request under every policy and trust level.
pub proof fn lemma_failed_health_always_blocks(
    policy: SecurityPolicy,
    trust: TrustLevel,
    class: OutputClass,
    bytes: usize,
    pool_entropy_millibits: u64,
    pool_well_seeded: bool,
    simulated_generated: nat,
)
    ensures
        gate_decision(
            policy,
            trust,
            class,
            bytes,
            HealthStatus::Failed,
            pool_entropy_millibits,
            pool_well_seeded,
            simulated_generated,
        ) is Err,
{
}

/// The production thresholds fall with the output class: keys need more entropy
/// than session tokens, tokens more than passwords, passwords more than raw bytes.
pub proof fn lemma_production_thresholds_ordered()
    ensures
        min_entropy(production_policy(), OutputClass::CryptoKey) > min_entropy(
            production_policy(),
            OutputClass::SessionToken,
        ),
        min_entropy(production_policy(), OutputClass::SessionToken) > min_entropy(
            production_policy(),
            OutputClass::Password,
        ),
        min_entropy(production_policy(), OutputClass::Password) > min_entropy(
            production_policy(),
            OutputClass::Raw,
        ),
{
}

/// Every request keeps simulated output within the policy's limit: the running
/// total of simulated bytes never passes it, and other sources count nothing.
pub proof fn lemma_simulated_limit_kept(
    g: SecurityGateView,
    class: OutputClass,
    bytes: usize,
    health: HealthStatus,
    pool_entropy_millibits: u64,
    pool_well_seeded: bool,
)
    requires
        g.within_limit(),
    ensures
        g.after_request(class, bytes, health, pool_entropy_millibits, pool_well_seeded).within_limit(),
{
}

/// The threshold each class is judged against is the policy's own field for that
/// class. Once the earlier checks pass (pool ready where required, health not
/// failed and not a warning the policy refuses, and for a simulated source the
/// key rule and the output limit), a request is refused exactly when the pool
/// holds less than that many bits, with `InsufficientEntropy` naming the class,
/// the pool's estimate and that threshold; otherwise it is allowed.
pub proof fn lemma_threshold_per_class(
    policy: SecurityPolicy,
    trust: TrustLevel,
    class: OutputClass,
    bytes: usize,
    health: HealthStatus,
    pool_entropy_millibits: u64,
    pool_well_seeded: bool,
    simulated_generated: nat,
)
    requires
        !policy.require_pool_ready || pool_well_seeded,
        health == HealthStatus::Healthy || (health == HealthStatus::Warning && policy.allow_warning_output),
        trust == TrustLevel::Simulated ==> {
            &&& policy.allow_simulated_crypto || (class != OutputClass::CryptoKey && class
                != OutputClass::SessionToken)
            &&& simulated_generated + bytes <= policy.simulated_output_limit
        },
    ensures
        ({
            let need: u64 = match class {
                OutputClass::CryptoKey => policy.min_entropy_crypto_key,
                OutputClass::SessionToken => policy.min_entropy_session_token,
                OutputClass::Password => policy.min_entropy_password,
                OutputClass::Raw => policy.min_entropy_raw,
            };
            gate_decision(
                policy,
                trust,
                class,
                bytes,
                health,
                pool_entropy_millibits,
                pool_well_seeded,
                simulated_generated,
            ) == if pool_entropy_millibits < need * 1000 {
                Err(
                    SecurityViolation::InsufficientEntropy {
                        output_class: class,
                        have_millibits: pool_entropy_millibits,
                        need_bits: need,
                    },
                )
            } else {
                Ok(())
            }
        }),
{
}

} // verus!
