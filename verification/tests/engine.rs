use entropy_engine::api::{EntropyService, MAX_OUTPUT_LEN};
use entropy_engine::errors::EntropyError;
use entropy_engine::health::HealthStatus;
use entropy_engine::models::PasswordConfig;
use entropy_engine::security::{SecurityEvent, SecurityPolicy, SecurityViolation, TrustLevel};
use entropy_engine::serial::SerialSource;

/// Weighted contribution (millibits) credited to one ingested sample; the
/// quality tracker that estimates it runs outside the service.
const SAMPLE_MILLIBITS: u64 = 64_000;

// --- Push mode (MQTT) ---

#[test]
fn push_mode_ingest_and_generate() {
    let mut service = EntropyService::new_push(0x01, TrustLevel::Simulated, SecurityPolicy::development());
    let good_data: Vec<u8> = (0..=255).cycle().take(512).collect();
    for _ in 0..20 {
        service.ingest(0x01, &good_data, SAMPLE_MILLIBITS);
    }
    let hex = service.random_hex(32).unwrap();
    assert_eq!(hex.len(), 64);
    assert!(hex.chars().all(|c| c.is_ascii_hexdigit()));
}

#[test]
fn push_mode_successive_outputs_differ() {
    let mut service = EntropyService::new_push(0x01, TrustLevel::Simulated, SecurityPolicy::development());
    let data: Vec<u8> = (0..=255).cycle().take(512).collect();
    for _ in 0..20 {
        service.ingest(0x01, &data, SAMPLE_MILLIBITS);
    }
    let a = service.random_bytes(32).unwrap();
    let b = service.random_bytes(32).unwrap();
    assert_ne!(a, b);
}

#[test]
fn push_mode_aes_key_generation() {
    let mut service = EntropyService::new_push(0x01, TrustLevel::Simulated, SecurityPolicy::development());
    let data: Vec<u8> = (0..=255).cycle().take(512).collect();
    for _ in 0..20 {
        service.ingest(0x01, &data, SAMPLE_MILLIBITS);
    }
    let key = service.generate_aes_key().unwrap();
    assert_eq!(key.len(), 64);
}

#[test]
fn push_mode_stats_track_ingestion() {
    let mut service = EntropyService::new_push(0x01, TrustLevel::Simulated, SecurityPolicy::development());
    let data: Vec<u8> = (0..=255).cycle().take(256).collect();
    for _ in 0..10 {
        service.ingest(0x01, &data, SAMPLE_MILLIBITS);
    }
    assert!(service.pool_fills() > 0);
    assert!(service.pool_entropy_millibits() > 0);
}

#[test]
fn push_mode_production_blocks_before_enough_entropy() {
    let mut service = EntropyService::production_push(0x01);
    let result = service.random_bytes(32);
    assert!(result.is_err(), "should block with no entropy ingested");
}

#[test]
fn push_mode_empty_ingest_is_safe() {
    let mut service = EntropyService::new_push(0x01, TrustLevel::Simulated, SecurityPolicy::development());
    service.ingest(0x01, &[], SAMPLE_MILLIBITS);
    assert_eq!(service.pool_fills(), 0);
    assert_eq!(service.pool_entropy_millibits(), 0);
}

// --- Services seeded from the simulated source ---

fn simulated_service(policy: SecurityPolicy) -> EntropyService {
    let mut source = SerialSource::simulated_from(12345);
    let initial = source.read_raw(256).unwrap();
    EntropyService::new(&initial, 0x01, TrustLevel::Simulated, policy)
}

#[test]
fn seeded_service_generates_under_dev_policy() {
    let mut service = simulated_service(SecurityPolicy::development());
    assert_eq!(service.get_entropy_integrity(), HealthStatus::Healthy);
    assert!(service.is_simulated());
    assert_eq!(service.trust_level(), TrustLevel::Simulated);
    let key = service.generate_aes_key().unwrap();
    assert_eq!(key.len(), 64);
    assert!(key.chars().all(|c| c.is_ascii_hexdigit()));
    let token = service.generate_session_token().unwrap();
    assert_eq!(token.len(), 64);
    let pw = service.generate_password(PasswordConfig::default()).unwrap();
    assert_eq!(pw.len(), 20);
    assert_eq!(service.bytes_generated(), 32 + 32 + 60);
    assert_eq!(service.reseed_count(), 3);
}

#[test]
fn pool_seeding_is_reported_once() {
    let mut service = EntropyService::production_push(0x07);
    let data: Vec<u8> = (0..=255).collect();
    service.ingest(0x07, &data, 200_000);
    assert!(!service.pool_well_seeded());
    service.ingest(0x07, &data, 100_000);
    assert!(service.pool_well_seeded());
    service.ingest(0x07, &data, 100_000);
    let events = service.drain_security_events();
    let seeded: Vec<_> = events.iter().filter(|e| matches!(e, SecurityEvent::PoolSeeded { .. })).collect();
    assert_eq!(seeded.len(), 1);
    assert!(matches!(seeded[0], SecurityEvent::PoolSeeded { entropy_millibits: 300_000 }));
}

#[test]
fn production_hardware_generates_once_seeded() {
    let mut service = EntropyService::production_push(0x01);
    let data: Vec<u8> = (0..=255).collect();
    service.ingest(0x01, &data, 400_000);
    let key = service.generate_aes_key().unwrap();
    assert_eq!(key.len(), 64);
    // Drawing the key decayed the estimate to 300 bits, still enough for a token.
    assert_eq!(service.pool_entropy_millibits(), 300_000);
    assert!(service.generate_session_token().is_ok());
    // 225 bits now: below the 256 needed for a key.
    match service.generate_aes_key() {
        Err(EntropyError::SecurityViolation { violation }) => {
            assert!(matches!(violation, SecurityViolation::PoolNotReady { .. }));
        }
        other => panic!("expected a violation, got {:?}", other),
    }
}

#[test]
fn failed_health_blocks_every_output() {
    let mut service = EntropyService::new_push(0x01, TrustLevel::Hardware, SecurityPolicy::development());
    service.ingest(0x01, &vec![0u8; 64], 1_000);
    assert_eq!(service.health_report(), HealthStatus::Failed);
    match service.random_bytes(8) {
        Err(EntropyError::SecurityViolation { violation }) => assert_eq!(violation, SecurityViolation::HealthFailed),
        other => panic!("expected HealthFailed, got {:?}", other),
    }
    assert!(service.generate_password(PasswordConfig::default()).is_err());
}

// --- The same, with the pull-mode step: read from the source before each request ---

fn simulated_source_and_service_with(policy: SecurityPolicy) -> (SerialSource, EntropyService) {
    let mut source = SerialSource::simulated_from(987_654_321);
    let initial = source.read_raw(256).unwrap();
    let service = EntropyService::new(&initial, 0x01, TrustLevel::Simulated, policy);
    (source, service)
}

fn simulated_source_and_service() -> (SerialSource, EntropyService) {
    simulated_source_and_service_with(SecurityPolicy::development())
}

fn pull(service: &mut EntropyService, source: &mut SerialSource, length: usize) {
    if let Some(n) = EntropyService::pull_len(length) {
        let raw = source.read_raw(n).unwrap();
        service.ingest(0x01, &raw, SAMPLE_MILLIBITS);
    }
}

#[test]
fn pull_lengths() {
    assert_eq!(EntropyService::pull_len(0), None);
    assert_eq!(EntropyService::pull_len(1), Some(64));
    assert_eq!(EntropyService::pull_len(64), Some(64));
    assert_eq!(EntropyService::pull_len(100), Some(100));
    assert_eq!(EntropyService::pull_len(MAX_OUTPUT_LEN), Some(MAX_OUTPUT_LEN));
    assert_eq!(EntropyService::pull_len(MAX_OUTPUT_LEN + 1), None);
}

#[test]
fn stats_track_generation() {
    let (mut source, mut service) = simulated_source_and_service();
    pull(&mut service, &mut source, 64);
    service.random_bytes(64).unwrap();
    pull(&mut service, &mut source, 64);
    service.random_bytes(64).unwrap();
    assert_eq!(service.bytes_generated(), 128);
    assert!(service.reseed_count() >= 2);
    assert!(service.pool_fills() >= 2);
}

#[test]
fn generate_password_custom_config() {
    let (mut source, mut service) = simulated_source_and_service();
    let config = PasswordConfig { length: 32, uppercase: true, lowercase: true, digits: true, symbols: false };
    pull(&mut service, &mut source, EntropyService::password_raw_len(&config).unwrap());
    let pw = service.generate_password(config).unwrap();
    assert_eq!(pw.len(), 32);
    assert!(pw.chars().all(|c| c.is_ascii_alphanumeric()));
}

#[test]
fn password_minimum_length_enforced() {
    let (mut source, mut service) = simulated_source_and_service();
    let config = PasswordConfig { length: 1, uppercase: true, lowercase: true, digits: true, symbols: true };
    pull(&mut service, &mut source, EntropyService::password_raw_len(&config).unwrap());
    let pw = service.generate_password(config).unwrap();
    assert_eq!(pw.len(), 1);
}

#[test]
fn random_hex_correct_length() {
    let (mut source, mut service) = simulated_source_and_service();
    pull(&mut service, &mut source, 32);
    let hex = service.random_hex(32).unwrap();
    assert_eq!(hex.len(), 64);
    assert!(hex.chars().all(|c| c.is_ascii_hexdigit()));
}

#[test]
fn random_bytes_correct_length() {
    let (mut source, mut service) = simulated_source_and_service();
    pull(&mut service, &mut source, 128);
    let bytes = service.random_bytes(128).unwrap();
    assert_eq!(bytes.len(), 128);
}

#[test]
fn generate_password_default_config() {
    let (mut source, mut service) = simulated_source_and_service();
    let config = PasswordConfig::default();
    pull(&mut service, &mut source, EntropyService::password_raw_len(&config).unwrap());
    let pw = service.generate_password(config).unwrap();
    assert_eq!(pw.len(), 20);
}

#[test]
fn generate_aes_key_is_64_hex_chars() {
    let (mut source, mut service) = simulated_source_and_service();
    pull(&mut service, &mut source, 32);
    let key = service.generate_aes_key().unwrap();
    assert_eq!(key.len(), 64);
    assert!(key.chars().all(|c| c.is_ascii_hexdigit()));
}

#[test]
fn generate_session_token_is_hex() {
    let (mut source, mut service) = simulated_source_and_service();
    pull(&mut service, &mut source, 32);
    let token = service.generate_session_token().unwrap();
    assert_eq!(token.len(), 64);
    assert!(token.chars().all(|c| c.is_ascii_hexdigit()));
}

#[test]
fn health_starts_healthy() {
    let (_source, service) = simulated_source_and_service();
    assert_eq!(service.get_entropy_integrity(), HealthStatus::Healthy);
}

#[test]
fn successive_outputs_differ() {
    let (mut source, mut service) = simulated_source_and_service();
    pull(&mut service, &mut source, 32);
    let a = service.random_bytes(32).unwrap();
    pull(&mut service, &mut source, 32);
    let b = service.random_bytes(32).unwrap();
    assert_ne!(a, b);
}

#[test]
fn production_policy_blocks_simulated_crypto_keys() {
    let (mut source, mut service) = simulated_source_and_service_with(SecurityPolicy::production());
    pull(&mut service, &mut source, 32);
    let result = service.generate_aes_key();
    assert!(result.is_err(), "production policy must block simulated AES keys");
}

#[test]
fn production_policy_blocks_simulated_session_tokens() {
    let (mut source, mut service) = simulated_source_and_service_with(SecurityPolicy::production());
    pull(&mut service, &mut source, 32);
    let result = service.generate_session_token();
    assert!(result.is_err(), "production policy must block simulated session tokens");
}

#[test]
fn demo_reports_simulated_trust_level() {
    let (_source, service) = simulated_source_and_service();
    assert!(service.is_simulated());
    assert_eq!(service.trust_level(), TrustLevel::Simulated);
}

#[test]
fn security_events_are_recorded() {
    let (mut source, mut service) = simulated_source_and_service();
    pull(&mut service, &mut source, 32);
    service.random_bytes(32).unwrap();
    let events = service.drain_security_events();
    assert!(!events.is_empty(), "should have security events");
    assert!(events.iter().any(|e| matches!(e, SecurityEvent::OutputGenerated { bytes: 32, .. })));
}

#[test]
fn zero_length_request_returns_empty() {
    let (mut source, mut service) = simulated_source_and_service();
    pull(&mut service, &mut source, 0);
    let bytes = service.random_bytes(0).unwrap();
    assert!(bytes.is_empty());
}

#[test]
fn max_output_length_succeeds() {
    let (mut source, mut service) = simulated_source_and_service();
    pull(&mut service, &mut source, 1 << 16);
    let bytes = service.random_bytes(1 << 16).unwrap();
    assert_eq!(bytes.len(), 1 << 16);
}

#[test]
fn over_max_output_length_is_rejected() {
    let (mut source, mut service) = simulated_source_and_service();
    pull(&mut service, &mut source, (1 << 16) + 1);
    match service.random_bytes((1 << 16) + 1) {
        Err(EntropyError::InvalidLength { requested, max }) => {
            assert_eq!(requested, MAX_OUTPUT_LEN + 1);
            assert_eq!(max, MAX_OUTPUT_LEN);
        }
        other => panic!("must reject requests exceeding 64 KiB, got {:?}", other),
    }
}

#[test]
fn many_successive_generations_all_differ() {
    let (mut source, mut service) = simulated_source_and_service();
    let mut previous: Vec<Vec<u8>> = Vec::new();
    for _ in 0..20 {
        pull(&mut service, &mut source, 32);
        let output = service.random_bytes(32).unwrap();
        assert!(!previous.contains(&output), "repeated output detected in 20 successive generations");
        previous.push(output);
    }
}

#[test]
fn entropy_stats_report_pool_seeded_state() {
    let (mut source, mut service) = simulated_source_and_service();
    for _ in 0..10 {
        pull(&mut service, &mut source, 64);
        let _ = service.random_bytes(64);
    }
    assert_eq!(service.pool_well_seeded(), service.pool_entropy_millibits() >= 256_000);
}

#[test]
fn constructor_returns_result() {
    let mut source = SerialSource::simulated();
    let initial = source.read_raw(256);
    assert!(initial.is_ok(), "simulated source should succeed");
    let service = EntropyService::new(&initial.unwrap(), 0x01, TrustLevel::Simulated, SecurityPolicy::development());
    assert_eq!(service.pool_fills(), 1);
    assert_eq!(service.reseed_count(), 0);
}
