use esp32_led_flasher::device::{chip_id, device_topic, mqtt_client_id, SHARED_CONTROL_TOPIC};
use esp32_led_flasher::mqtt::{backoff_secs, ConnectionStep, ConnectionTracker, MqttStatus};
use esp32_led_flasher::wifi::{ipv4_text, mac_text, WifiCredentials, WifiError};

#[test]
fn mac_and_ip_texts() {
    assert_eq!(mac_text([0x24, 0x0a, 0xc4, 0x12, 0x34, 0x56]), "24:0a:c4:12:34:56");
    assert_eq!(mac_text([0xff, 0, 0xab, 1, 2, 0x10]), "ff:00:ab:01:02:10");
    assert_eq!(ipv4_text([192, 168, 1, 119]), "192.168.1.119");
    assert_eq!(ipv4_text([0, 0, 0, 0]), "0.0.0.0");
}

#[test]
fn device_identity() {
    let id = chip_id([0x24, 0x0a, 0xc4, 0x12, 0x34, 0x56]);
    assert_eq!(id, "24:0a:c4:12:34:56");
    assert_eq!(mqtt_client_id(&id), "esp32-led-240ac4123456");
    assert_eq!(device_topic(&id, "control"), "istorrs/led/24:0a:c4:12:34:56/control");
    assert_eq!(device_topic(&id, "event/config"), "istorrs/led/24:0a:c4:12:34:56/event/config");
    assert_eq!(SHARED_CONTROL_TOPIC, "istorrs/led/control");
}

#[test]
fn credentials_must_fit() {
    let c = WifiCredentials::new("home", "secret").unwrap();
    assert_eq!(c.ssid.as_str(), "home");
    assert_eq!(c.password.as_str(), "secret");
    let long_ssid = "s".repeat(33);
    assert_eq!(
        WifiCredentials::new(&long_ssid, "x").err(),
        Some(WifiError::SsidTooLong)
    );
    let long_pw = "p".repeat(65);
    assert_eq!(
        WifiCredentials::new("home", &long_pw).err(),
        Some(WifiError::PasswordTooLong)
    );
    assert!(WifiCredentials::new(&"s".repeat(32), &"p".repeat(64)).is_ok());
    assert_eq!(WifiError::SsidTooLong.message(), "SSID too long");
    assert_eq!(
        WifiError::PasswordTooLong.limit_message(),
        "Password too long (max 64 chars)"
    );
}

#[test]
fn reconnect_uses_stored_credentials_unless_given() {
    let c = WifiCredentials::new("home", "secret").unwrap();
    let d = c.reconnect_with(None, None).unwrap();
    assert_eq!(d.ssid.as_str(), "home");
    assert_eq!(d.password.as_str(), "secret");
    let e = c.reconnect_with(Some("work"), None).unwrap();
    assert_eq!(e.ssid.as_str(), "work");
    assert_eq!(e.password.as_str(), "secret");
    assert_eq!(c.ssid_str(), "home");
    assert_eq!(
        c.reconnect_with(None, Some(&"p".repeat(70))).err(),
        Some(WifiError::PasswordTooLong)
    );
}

#[test]
fn subscriptions_are_unique() {
    let mut s = MqttStatus::new("mqtt://b", "id");
    s.add_subscription("a");
    s.add_subscription("b");
    s.add_subscription("a");
    assert_eq!(s.subscriptions, vec!["a".to_string(), "b".to_string()]);
    s.remove_subscription("a");
    assert_eq!(s.subscriptions, vec!["b".to_string()]);
    s.remove_subscription("zzz");
    assert_eq!(s.subscriptions, vec!["b".to_string()]);
}

#[test]
fn received_messages_are_recorded_when_text() {
    let mut s = MqttStatus::new("mqtt://b", "id");
    s.record_received("t", b"hello");
    assert_eq!(s.last_received_topic, "t");
    assert_eq!(s.last_received_message, "hello");
    assert_eq!(s.receive_count, 1);
    s.record_received("u", &[0xff, 0xfe]);
    assert_eq!(s.last_received_topic, "t");
    assert_eq!(s.receive_count, 1);
}

#[test]
fn backoff_schedule() {
    let waits: Vec<u64> = (1..=8).map(backoff_secs).collect();
    assert_eq!(waits, vec![1, 2, 5, 10, 30, 60, 300, 300]);
}

#[test]
fn connection_tracker_exits_on_repeated_invalid_state() {
    let mut t = ConnectionTracker::new();
    assert_eq!(t.on_error("ESP_ERR_INVALID_STATE"), ConnectionStep::Retry(1));
    assert_eq!(t.on_error("ESP_ERR_INVALID_STATE"), ConnectionStep::Retry(2));
    assert_eq!(t.on_error("ESP_ERR_INVALID_STATE"), ConnectionStep::Exit);
    assert_eq!(t.consecutive_errors(), 3);
    assert_eq!(t.on_connected(), ConnectionStep::Continue);
    assert_eq!(t.consecutive_errors(), 0);
    assert_eq!(t.on_error("timeout"), ConnectionStep::Retry(1));
    assert_eq!(t.on_disconnected(), ConnectionStep::Exit);
}

#[test]
fn messages_with_a_topic_are_recorded_and_delivered() {
    let mut s = MqttStatus::new("mqtt://b", "id");
    assert!(s.on_message(Some("t"), b"on"));
    assert_eq!(s.receive_count, 1);
    assert_eq!(s.last_received_message, "on");
    assert!(!s.on_message(None, b"x"));
    assert_eq!(s.receive_count, 1);
    assert!(s.on_message(Some("u"), &[0xff]));
    assert_eq!(s.receive_count, 1);
    assert_eq!(s.last_received_topic, "t");
}
