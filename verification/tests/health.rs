use entropy_engine::quality::QualityTier;
use entropy_engine::health::{HealthMonitor, HealthStatus, RECOVERY_THRESHOLD};

#[test]
fn healthy_on_diverse_input() {
    let mut monitor = HealthMonitor::new();
    let sample: Vec<u8> = (0..=255).collect();
    monitor.observe(&sample);
    assert_eq!(monitor.status(), HealthStatus::Healthy);
}

#[test]
fn fails_on_per_byte_repetition() {
    let mut monitor = HealthMonitor::new();
    // 20+ identical consecutive bytes trigger failure.
    let sample = vec![0xAA; 64];
    monitor.observe(&sample);
    assert_eq!(monitor.status(), HealthStatus::Failed);
}

#[test]
fn warns_on_low_diversity() {
    let mut monitor = HealthMonitor::new();
    let sample: Vec<u8> = (0..128).map(|i| if i % 2 == 0 { 0 } else { 1 }).collect();
    monitor.observe(&sample);
    assert!(monitor.status() != HealthStatus::Healthy);
}

#[test]
fn recovery_requires_sustained_healthy_observations() {
    let mut monitor = HealthMonitor::new();

    let bad = vec![0xBB; 64];
    monitor.observe(&bad);
    assert_eq!(monitor.status(), HealthStatus::Failed);

    // One good observation: still Failed.
    let good: Vec<u8> = (0..=255).collect();
    monitor.observe(&good);
    assert_eq!(
        monitor.status(),
        HealthStatus::Failed,
        "must not recover after single good observation"
    );

    for _ in 0..RECOVERY_THRESHOLD {
        monitor.observe(&good);
    }
    assert_eq!(monitor.status(), HealthStatus::Healthy);
}

#[test]
fn empty_sample_does_not_panic() {
    let mut monitor = HealthMonitor::new();
    monitor.observe(&[]);
    assert_eq!(monitor.status(), HealthStatus::Healthy);
}

#[test]
fn single_byte_sample_does_not_panic() {
    let mut monitor = HealthMonitor::new();
    monitor.observe(&[0x42]);
    assert_eq!(monitor.status(), HealthStatus::Healthy);
}

#[test]
fn large_sample_does_not_oom() {
    let mut monitor = HealthMonitor::new();
    let big = vec![0xAB; 100_000];
    monitor.observe(&big);
    assert_eq!(monitor.status(), HealthStatus::Failed);
}

#[test]
fn nineteen_repeats_do_not_fail() {
    let mut monitor = HealthMonitor::new();
    let mut sample: Vec<u8> = (0..=255).collect();
    sample.extend(vec![0x33; 19]);
    monitor.observe(&sample);
    assert_eq!(monitor.status(), HealthStatus::Healthy);
    assert!(monitor.is_healthy());
}

#[test]
fn twenty_repeats_fail() {
    let mut monitor = HealthMonitor::new();
    let mut sample: Vec<u8> = (0..=255).collect();
    sample.extend(vec![0x33; 20]);
    monitor.observe(&sample);
    assert_eq!(monitor.status(), HealthStatus::Failed);
    assert!(!monitor.is_healthy());
}

#[test]
fn recovery_takes_exactly_the_threshold() {
    let mut monitor = HealthMonitor::new();
    monitor.observe(&vec![0xCC; 64]);
    let good: Vec<u8> = (0..=255).collect();
    for _ in 0..RECOVERY_THRESHOLD - 1 {
        monitor.observe(&good);
        assert_eq!(monitor.status(), HealthStatus::Failed);
    }
    monitor.observe(&good);
    assert_eq!(monitor.status(), HealthStatus::Healthy);
}

#[test]
fn status_labels() {
    assert_eq!(HealthStatus::Healthy.label(), "healthy");
    assert_eq!(HealthStatus::Warning.label(), "warning");
    assert_eq!(HealthStatus::Failed.label(), "failed");
}

#[test]
fn exactly_half_share_passes_proportion_test() {
    // A 2048-byte window alternating two values: each makes up exactly 50%,
    // which does not exceed the cutoff; only the low diversity is flagged.
    let mut monitor = HealthMonitor::new();
    let sample: Vec<u8> = (0..2048).map(|i| (i % 2) as u8).collect();
    monitor.observe(&sample);
    assert_eq!(monitor.status(), HealthStatus::Warning);
}

#[test]
fn dominant_value_fails_proportion_test() {
    let mut monitor = HealthMonitor::new();
    // 2048 bytes, value 0 in 1025 of them (never 20 in a row), the rest diverse.
    let mut sample: Vec<u8> = Vec::new();
    let mut other: u8 = 1;
    for i in 0..2048 {
        if i % 2 == 0 || i == 2047 {
            sample.push(0);
        } else {
            sample.push(other);
            other = if other == 255 { 1 } else { other + 1 };
        }
    }
    assert!(sample.iter().filter(|&&b| b == 0).count() * 100 > 2048 * 50);
    monitor.observe(&sample);
    assert_eq!(monitor.status(), HealthStatus::Failed);
}

#[test]
fn degradation_needs_a_quarter_of_byte_values() {
    // 64 bytes over 16 values: degraded.
    let mut monitor = HealthMonitor::new();
    let sample: Vec<u8> = (0..64).map(|i| (i % 16) as u8).collect();
    monitor.observe(&sample);
    assert_eq!(monitor.status(), HealthStatus::Warning);

    // 1024 bytes over 128 values: not degraded.
    let mut monitor = HealthMonitor::new();
    let sample: Vec<u8> = (0..1024).map(|i| (i % 128) as u8).collect();
    monitor.observe(&sample);
    assert_eq!(monitor.status(), HealthStatus::Healthy);

    // Exactly 64 values passes, 63 does not.
    let mut monitor = HealthMonitor::new();
    monitor.observe(&(0..64).collect::<Vec<u8>>());
    assert_eq!(monitor.status(), HealthStatus::Healthy);
    let mut monitor = HealthMonitor::new();
    monitor.observe(&(0..64).map(|i| (i % 63) as u8).collect::<Vec<u8>>());
    assert_eq!(monitor.status(), HealthStatus::Warning);
}

#[test]
fn quality_tier_labels() {
    assert_eq!(QualityTier::Excellent.label(), "excellent");
    assert_eq!(QualityTier::Unknown.label(), "unknown");
}
