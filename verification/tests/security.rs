use entropy_engine::health::HealthStatus;
use entropy_engine::security::{
    OutputClass, SecurityEvent, SecurityGate, SecurityPolicy, SecurityViolation, TrustLevel,
};

#[test]
fn dev_policy_allows_simulated_output() {
    let mut gate = SecurityGate::new(SecurityPolicy::development(), TrustLevel::Simulated);
    let result = gate.check_output_allowed(OutputClass::CryptoKey, 32, HealthStatus::Healthy, 0, true);
    assert!(result.is_ok());
}

#[test]
fn production_policy_blocks_simulated_keys() {
    let mut gate = SecurityGate::new(SecurityPolicy::production(), TrustLevel::Simulated);
    let result = gate.check_output_allowed(OutputClass::CryptoKey, 32, HealthStatus::Healthy, 1_000_000, true);
    assert!(matches!(result, Err(SecurityViolation::SimulatedSourceBlocked { .. })));
}

#[test]
fn production_policy_blocks_insufficient_entropy() {
    let mut gate = SecurityGate::new(SecurityPolicy::production(), TrustLevel::Hardware);
    let result = gate.check_output_allowed(OutputClass::CryptoKey, 32, HealthStatus::Healthy, 100_000, true);
    assert!(matches!(result, Err(SecurityViolation::InsufficientEntropy { .. })));
}

#[test]
fn production_policy_allows_sufficient_entropy() {
    let mut gate = SecurityGate::new(SecurityPolicy::production(), TrustLevel::Hardware);
    let result = gate.check_output_allowed(OutputClass::CryptoKey, 32, HealthStatus::Healthy, 300_000, true);
    assert!(result.is_ok());
}

#[test]
fn health_failed_always_blocks() {
    let mut gate = SecurityGate::new(SecurityPolicy::development(), TrustLevel::Hardware);
    let result = gate.check_output_allowed(OutputClass::Raw, 32, HealthStatus::Failed, 1_000_000, true);
    assert!(matches!(result, Err(SecurityViolation::HealthFailed)));
}

#[test]
fn production_blocks_warning_strict_blocks_dev_allows() {
    let mut prod = SecurityGate::new(SecurityPolicy::production(), TrustLevel::Hardware);
    let result = prod.check_output_allowed(OutputClass::Raw, 32, HealthStatus::Warning, 1_000_000, true);
    assert!(matches!(result, Err(SecurityViolation::HealthWarning)));

    let mut dev = SecurityGate::new(SecurityPolicy::development(), TrustLevel::Hardware);
    let result = dev.check_output_allowed(OutputClass::Raw, 32, HealthStatus::Warning, 0, true);
    assert!(result.is_ok());
}

#[test]
fn simulated_output_limit_enforced() {
    let mut policy = SecurityPolicy::development();
    policy.simulated_output_limit = 100;
    let mut gate = SecurityGate::new(policy, TrustLevel::Simulated);
    assert!(gate
        .check_output_allowed(OutputClass::Raw, 64, HealthStatus::Healthy, 0, true)
        .is_ok());
    let result = gate.check_output_allowed(OutputClass::Raw, 64, HealthStatus::Healthy, 0, true);
    assert!(matches!(result, Err(SecurityViolation::SimulatedLimitExceeded { .. })));
}

#[test]
fn events_are_recorded() {
    let mut gate = SecurityGate::new(SecurityPolicy::development(), TrustLevel::Simulated);
    gate.check_output_allowed(OutputClass::Raw, 16, HealthStatus::Healthy, 0, true)
        .unwrap();
    let events = gate.drain_events();
    // SourceRegistered, SimulatedModeActive, OutputGenerated
    assert!(events.len() >= 3);
}

#[test]
fn health_transition_recorded() {
    let mut gate = SecurityGate::new(SecurityPolicy::development(), TrustLevel::Hardware);
    gate.check_output_allowed(OutputClass::Raw, 16, HealthStatus::Healthy, 0, true)
        .unwrap();
    gate.check_output_allowed(OutputClass::Raw, 16, HealthStatus::Warning, 0, true)
        .unwrap();
    let events = gate.drain_events();
    let transitions: Vec<_> = events
        .iter()
        .filter(|e| matches!(e, SecurityEvent::HealthStateChange { .. }))
        .collect();
    assert_eq!(transitions.len(), 1);
}

#[test]
fn production_blocks_when_pool_not_ready() {
    let mut gate = SecurityGate::new(SecurityPolicy::production(), TrustLevel::Hardware);
    let result = gate.check_output_allowed(OutputClass::Raw, 32, HealthStatus::Healthy, 100_000, false);
    assert!(
        matches!(result, Err(SecurityViolation::PoolNotReady { .. })),
        "production policy must block output when pool not ready"
    );
}

#[test]
fn dev_allows_when_pool_not_ready() {
    let mut gate = SecurityGate::new(SecurityPolicy::development(), TrustLevel::Simulated);
    let result = gate.check_output_allowed(OutputClass::CryptoKey, 32, HealthStatus::Healthy, 0, false);
    assert!(result.is_ok(), "dev policy should allow output even when pool not ready");
}

#[test]
fn lower_output_class_has_lower_threshold() {
    let policy = SecurityPolicy::production();
    assert!(policy.min_entropy_for(OutputClass::CryptoKey) > policy.min_entropy_for(OutputClass::Password));
    assert!(policy.min_entropy_for(OutputClass::Password) > policy.min_entropy_for(OutputClass::Raw));
}

#[test]
fn production_thresholds_and_messages() {
    let policy = SecurityPolicy::production();
    assert_eq!(policy.min_entropy_for(OutputClass::CryptoKey), 256);
    assert_eq!(policy.min_entropy_for(OutputClass::SessionToken), 192);
    assert_eq!(policy.min_entropy_for(OutputClass::Password), 128);
    assert_eq!(policy.min_entropy_for(OutputClass::Raw), 64);
    let mut gate = SecurityGate::new(policy, TrustLevel::Hardware);
    let v = gate
        .check_output_allowed(OutputClass::Password, 8, HealthStatus::Healthy, 100_000, true)
        .unwrap_err();
    assert_eq!(
        v,
        SecurityViolation::InsufficientEntropy { output_class: OutputClass::Password, have_millibits: 100_000, need_bits: 128 }
    );
    assert_eq!(v.message(), "insufficient entropy for password: have 100.0 bits, need 128.0");
}

#[test]
fn refusal_is_recorded_as_policy_violation() {
    let mut gate = SecurityGate::new(SecurityPolicy::production(), TrustLevel::Hardware);
    let _ = gate.drain_events();
    assert!(gate
        .check_output_allowed(OutputClass::Raw, 8, HealthStatus::Failed, 500_000, true)
        .is_err());
    let events = gate.drain_events();
    assert!(events.iter().any(|e| matches!(e, SecurityEvent::PolicyViolation { .. })));
    assert!(!events.iter().any(|e| matches!(e, SecurityEvent::OutputGenerated { .. })));
    assert!(gate.drain_events().is_empty());
}

#[test]
fn labels() {
    assert_eq!(OutputClass::CryptoKey.label(), "cryptographic key");
    assert_eq!(TrustLevel::Hardware.label(), "hardware");
    assert!(SecurityGate::new(SecurityPolicy::development(), TrustLevel::Simulated).is_simulated());
}

#[test]
fn pool_not_ready_message_and_event() {
    let mut gate = SecurityGate::new(SecurityPolicy::production(), TrustLevel::Hardware);
    let _ = gate.drain_events();
    let v = gate
        .check_output_allowed(OutputClass::SessionToken, 8, HealthStatus::Healthy, 17_000, false)
        .unwrap_err();
    assert_eq!(
        v.message(),
        "pool not yet well-seeded (17.0 bits) — refusing output until sufficient entropy accumulated"
    );
    let events = gate.drain_events();
    match &events[..] {
        [SecurityEvent::PolicyViolation { output_class, reason }] => {
            assert_eq!(output_class, "session token");
            assert_eq!(reason, "pool not yet well-seeded (17.0 bits) — refusing session token generation");
        }
        other => panic!("unexpected events {:?}", other),
    }
}

#[test]
fn estimates_are_shown_to_the_nearest_tenth() {
    let v = SecurityViolation::PoolNotReady { pool_entropy_millibits: 17_049 };
    assert!(v.message().starts_with("pool not yet well-seeded (17.0 bits)"));
    let v = SecurityViolation::PoolNotReady { pool_entropy_millibits: 17_050 };
    assert!(v.message().starts_with("pool not yet well-seeded (17.1 bits)"));
    let v = SecurityViolation::InsufficientEntropy {
        output_class: OutputClass::Raw,
        have_millibits: 63_999,
        need_bits: 64,
    };
    assert_eq!(v.message(), "insufficient entropy for random bytes: have 64.0 bits, need 64.0");
}

#[test]
fn threshold_compares_millibits() {
    let mut gate = SecurityGate::new(SecurityPolicy::production(), TrustLevel::Hardware);
    assert!(gate
        .check_output_allowed(OutputClass::Raw, 8, HealthStatus::Healthy, 63_999, true)
        .is_err());
    assert!(gate
        .check_output_allowed(OutputClass::Raw, 8, HealthStatus::Healthy, 64_000, true)
        .is_ok());
}
