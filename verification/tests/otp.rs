use entropy_engine::otp::{clock_text_of, otp_code, OtpService, MAX_HISTORY, MAX_NUMBERS};
use sha2::{Digest, Sha256};

fn expected_otp(number: u16, micros: u128) -> String {
    let mut hasher = Sha256::new();
    hasher.update(number.to_be_bytes());
    hasher.update(micros.to_be_bytes());
    let digest = hasher.finalize();
    // The whole digest as a big-endian number, modulo 1,000,000.
    let value = digest.iter().fold(0u64, |acc, &b| (acc * 256 + b as u64) % 1_000_000);
    format!("{:06}", value)
}

#[test]
fn csv_numbers_are_stored() {
    let mut svc = OtpService::new();
    svc.ingest_numbers("4716,5636,2202,5006");
    assert_eq!(svc.random_numbers.iter().copied().collect::<Vec<_>>(), vec![4716, 5636, 2202, 5006]);
}

#[test]
fn csv_fields_are_trimmed_and_filtered() {
    let mut svc = OtpService::new();
    svc.ingest_numbers(" 12 ,abc,10000,,+7,9999, -3");
    assert_eq!(svc.random_numbers.iter().copied().collect::<Vec<_>>(), vec![12, 7, 9999]);
}

#[test]
fn only_latest_numbers_are_kept() {
    let mut svc = OtpService::new();
    let csv: Vec<String> = (0..MAX_NUMBERS + 5).map(|i| (i % 10_000).to_string()).collect();
    svc.ingest_numbers(&csv.join(","));
    assert_eq!(svc.random_numbers.len(), MAX_NUMBERS);
    assert_eq!(svc.random_numbers[0], 5);
}

#[test]
fn first_mac_is_kept() {
    let mut svc = OtpService::new();
    assert!(svc.ingest_mac("4C:C3:82:36:81:04"));
    assert!(!svc.ingest_mac("00:00:00:00:00:00"));
    assert_eq!(svc.mac_address.as_deref(), Some("4C:C3:82:36:81:04"));
    assert_eq!(svc.mac_validated, None);
}

#[test]
fn invalid_mac_discards_and_blocks_numbers() {
    let mut svc = OtpService::new();
    svc.ingest_numbers("1,2,3");
    svc.set_mac_validated(false);
    assert!(svc.random_numbers.is_empty());
    svc.ingest_numbers("4,5");
    assert!(svc.random_numbers.is_empty());
}

#[test]
fn valid_mac_keeps_numbers() {
    let mut svc = OtpService::new();
    svc.ingest_numbers("1,2,3");
    svc.set_mac_validated(true);
    svc.ingest_numbers("4");
    assert_eq!(svc.random_numbers.len(), 4);
}

#[test]
fn params_ignore_empty_strings() {
    let mut svc = OtpService::new();
    svc.ingest_params("");
    svc.ingest_params("temp=21.5");
    assert_eq!(svc.sensor_params.iter().cloned().collect::<Vec<_>>(), vec!["temp=21.5".to_string()]);
}

#[test]
fn otp_needs_numbers() {
    let mut svc = OtpService::new();
    assert_eq!(
        svc.generate_otp().unwrap_err(),
        "No random numbers available yet. Wait for MQTT data."
    );
    assert!(svc.otp_history.is_empty());
}

#[test]
fn otp_is_hash_of_number_and_time() {
    let mut svc = OtpService::new();
    svc.ingest_numbers("1111,2222,3333");
    let rec = svc.generate_otp_at(1_000_001, "now".to_string()).unwrap();
    // index 1_000_001 mod 3 = 2
    assert_eq!(rec.source_number, 3333);
    assert_eq!(rec.timestamp_micros, 1_000_001);
    assert_eq!(rec.otp, expected_otp(3333, 1_000_001));
    assert_eq!(rec.otp.len(), 6);
    assert_eq!(rec.created_at, "now");
    assert_eq!(svc.otp_history.len(), 1);
    assert_eq!(svc.otp_history[0].otp, rec.otp);
}

#[test]
fn otp_code_matches_reference() {
    assert_eq!(otp_code(4716, 1_700_000_000_123_456), expected_otp(4716, 1_700_000_000_123_456));
    assert_eq!(otp_code(0, 0), expected_otp(0, 0));
}

#[test]
fn history_keeps_latest_first() {
    let mut svc = OtpService::new();
    svc.ingest_numbers("42");
    for t in 0..(MAX_HISTORY as u128 + 3) {
        svc.generate_otp_at(t, String::new()).unwrap();
    }
    assert_eq!(svc.otp_history.len(), MAX_HISTORY);
    assert_eq!(svc.otp_history[0].timestamp_micros, MAX_HISTORY as u128 + 2);
    let live = svc.generate_otp().unwrap();
    assert_eq!(live.otp.len(), 6);
    assert_eq!(live.source_number, 42);
}

#[test]
fn clock_text_is_time_of_day() {
    assert_eq!(clock_text_of(0), "2025-01-01T00:00:00Z");
    assert_eq!(clock_text_of(86_400 + 3 * 3600 + 4 * 60 + 5), "2025-01-01T03:04:05Z");
}

#[test]
fn otp_reduces_whole_digest() {
    // SHA-256 of be16(1) || be128(2), reduced as a 256-bit big-endian number.
    let mut hasher = Sha256::new();
    hasher.update(1u16.to_be_bytes());
    hasher.update(2u128.to_be_bytes());
    let digest = hasher.finalize();
    let mut limbs = [0u128; 2];
    limbs[0] = u128::from_be_bytes(digest[..16].try_into().unwrap());
    limbs[1] = u128::from_be_bytes(digest[16..].try_into().unwrap());
    // (hi * 2^128 + lo) mod 10^6, with 2^128 mod 10^6 computed by repeated doubling.
    let mut pow = 1u128;
    for _ in 0..128 {
        pow = pow * 2 % 1_000_000;
    }
    let value = ((limbs[0] % 1_000_000) * pow + limbs[1] % 1_000_000) % 1_000_000;
    assert_eq!(otp_code(1, 2), format!("{:06}", value));
}
