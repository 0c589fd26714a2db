use entropy_engine::mqtt::MqttConfig;
use entropy_engine::otp::OtpService;
use entropy_engine::otp_mqtt::{mac_accepted, MacCheck, OtpMqttConfig, OtpTopic};

#[test]
fn mqtt_defaults() {
    let c = MqttConfig::default();
    assert_eq!(c.broker_host, "localhost");
    assert_eq!(c.broker_port, 1883);
    assert_eq!(c.topic, "entropy-vault/raw");
    assert_eq!(c.source_id, 0x01);
    assert_eq!(c.client_id, "entropy-vault-engine");
    assert!(c.username.is_none() && c.password.is_none());
    assert!(c.credentials().is_none());
}

#[test]
fn credentials_need_both_parts() {
    let mut c = MqttConfig::default();
    c.username = Some("u".to_string());
    assert!(c.credentials().is_none());
    c.password = Some("p".to_string());
    assert_eq!(c.credentials(), Some(("u".to_string(), "p".to_string())));
}

#[test]
fn otp_mqtt_defaults_and_topics() {
    let c = OtpMqttConfig::default();
    assert_eq!(c.broker_host, "localhost");
    assert_eq!(c.broker_port, 1883);
    assert_eq!(c.client_id, "entropy-vault-otp");
    assert_eq!(c.classify(&"random/numbers".to_string()), OtpTopic::Numbers);
    assert_eq!(c.classify(&"random/params".to_string()), OtpTopic::Params);
    assert_eq!(c.classify(&"random/MAC".to_string()), OtpTopic::Mac);
    assert_eq!(c.classify(&"random/mac".to_string()), OtpTopic::Other);
    assert!(c.credentials().is_none());
}

#[test]
fn publishes_are_dispatched() {
    let mut svc = OtpService::new();
    assert_eq!(svc.handle_publish(OtpTopic::Numbers, "1,2"), (true, None));
    assert_eq!(svc.handle_publish(OtpTopic::Params, "p=1"), (true, None));
    assert_eq!(svc.handle_publish(OtpTopic::Other, "3"), (false, None));
    assert_eq!(svc.handle_publish(OtpTopic::Mac, "{}"), (true, None));
    assert_eq!(svc.handle_publish(OtpTopic::Mac, "not json"), (true, None));
    assert_eq!(svc.handle_publish(OtpTopic::Mac, "{\"mac\":42}"), (true, None));
    assert!(svc.mac_address.is_none());
    assert_eq!(
        svc.handle_publish(OtpTopic::Mac, "{\"mac\":\"4C:C3:82:36:81:04\"}"),
        (true, Some("4C:C3:82:36:81:04".to_string()))
    );
    assert_eq!(svc.handle_publish(OtpTopic::Mac, "{\"mac\":\"CC:DD\"}"), (true, None));
    assert_eq!(svc.random_numbers.len(), 2);
    assert_eq!(svc.sensor_params.len(), 1);
    assert_eq!(svc.mac_address.as_deref(), Some("4C:C3:82:36:81:04"));
}

#[test]
fn mac_checks_decide_acceptance() {
    assert!(mac_accepted(&MacCheck::Skipped));
    assert!(mac_accepted(&MacCheck::Checked(Ok(true))));
    assert!(!mac_accepted(&MacCheck::Checked(Ok(false))));
    assert!(!mac_accepted(&MacCheck::Checked(Err("down".to_string()))));

    let mut svc = OtpService::new();
    svc.ingest_numbers("5,6");
    svc.record_mac_check(&MacCheck::Checked(Err("timeout".to_string())));
    assert_eq!(svc.mac_validated, Some(false));
    assert!(svc.random_numbers.is_empty());
}
