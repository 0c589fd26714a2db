use entropy_engine::health::HealthStatus;
use entropy_engine::server::{integrity_label, now_iso, password_request_config, timestamp_for};

#[test]
fn timestamps_count_seconds_from_epoch() {
    assert_eq!(timestamp_for(0), "1970-01-01T00:00:00Z+0");
    assert_eq!(timestamp_for(1_700_000_000), "1970-01-01T00:00:00Z+1700000000");
    assert!(now_iso().starts_with("1970-01-01T00:00:00Z+"));
}

#[test]
fn integrity_labels() {
    assert_eq!(integrity_label(HealthStatus::Healthy), "Integrity healthy");
    assert_eq!(integrity_label(HealthStatus::Warning), "Integrity warning");
    assert_eq!(integrity_label(HealthStatus::Failed), "Integrity failed");
}

#[test]
fn password_length_is_clamped() {
    assert_eq!(password_request_config(None).length, 24);
    assert_eq!(password_request_config(Some(1)).length, 12);
    assert_eq!(password_request_config(Some(12)).length, 12);
    assert_eq!(password_request_config(Some(50)).length, 50);
    assert_eq!(password_request_config(Some(96)).length, 96);
    assert_eq!(password_request_config(Some(10_000)).length, 96);
    let c = password_request_config(Some(30));
    assert!(c.uppercase && c.lowercase && c.digits && c.symbols);
}
