use esp32_led_flasher::cli::commands::completed_led_reply;
use esp32_led_flasher::cli::commands::apply_led_action;
use esp32_led_flasher::led::{LedState, LedStatus};
use esp32_led_flasher::cli::commands::PublishQos;
use esp32_led_flasher::cli::commands::{
    duration_text, mqtt_publish_text, pulse_set_text, scan_text, uptime_string,
    wifi_connect_text, wifi_reconnect_text, wifi_status_text, CommandAction, CommandHandler,
    HELP_TEXT, VERSION_TEXT,
};
use esp32_led_flasher::cli::CliCommand;
use esp32_led_flasher::led::PulseConfig;
use esp32_led_flasher::mqtt::MqttStatus;
use esp32_led_flasher::wifi::AccessPoint;

type Handler = CommandHandler<(), (), ()>;

fn full() -> Handler {
    Handler::new()
        .with_led(())
        .with_wifi(())
        .with_mqtt(())
        .with_event_topics("cfg".to_string(), "err".to_string())
}

#[test]
fn uptime_formats_hours_minutes_seconds() {
    assert_eq!(uptime_string(0), "Uptime: 0s");
    assert_eq!(uptime_string(59), "Uptime: 59s");
    assert_eq!(uptime_string(61), "Uptime: 1m 1s");
    assert_eq!(uptime_string(3600), "Uptime: 1h 0m 0s");
    assert_eq!(uptime_string(3725), "Uptime: 1h 2m 5s");
}

#[test]
fn fixed_replies() {
    let mut h = Handler::new();
    assert_eq!(h.decide(CliCommand::Help, 0, 0).response, HELP_TEXT);
    assert_eq!(h.decide(CliCommand::Version, 0, 0).response, VERSION_TEXT);
    assert_eq!(h.decide(CliCommand::Clear, 0, 0).response, "Screen cleared");
    assert_eq!(h.decide(CliCommand::Empty, 0, 0).response, "");
    assert_eq!(h.decide(CliCommand::Echo("hi".to_string()), 0, 0).response, "hi");
    assert_eq!(h.decide(CliCommand::Uptime, 0, 3725).response, "Uptime: 1h 2m 5s");
    let r = h.decide(CliCommand::Reset, 0, 0);
    assert_eq!(r.response, "Resetting system...");
    assert!(matches!(r.action, CommandAction::Reset));
}

#[test]
fn devices_missing_are_reported() {
    let mut h = Handler::new();
    assert_eq!(h.decide(CliCommand::LedOn, 0, 0).response, "LED not initialized");
    assert_eq!(h.decide(CliCommand::LedStatus, 0, 0).response, "LED not initialized");
    assert_eq!(
        h.decide(CliCommand::WifiReconnect, 0, 0).response,
        "❌ WiFi not initialized"
    );
    assert_eq!(
        h.decide(CliCommand::WifiStatus, 0, 0).response,
        "WiFi Status: Not initialized"
    );
    assert_eq!(h.decide(CliCommand::WifiScan, 0, 0).response, "WiFi not initialized");
    assert_eq!(
        h.decide(CliCommand::MqttStatus, 0, 0).response,
        "MQTT Status: Not initialized"
    );
    assert_eq!(
        h.decide(CliCommand::MqttEnable, 0, 0).response,
        "MQTT not initialized - cannot enable publishing"
    );
    assert!(!h.publishing_enabled());
}

#[test]
fn led_on_publishes_config_event_when_enabled() {
    let mut h = full();
    let r = h.decide(CliCommand::LedOn, 1700000000, 0);
    assert_eq!(r.response, "LED turned ON");
    assert!(matches!(r.action, CommandAction::LedOn));
    assert!(r.event.is_none());

    let r = h.decide(CliCommand::MqttEnable, 0, 0);
    assert_eq!(r.response, "MQTT publishing enabled");
    assert!(h.publishing_enabled());

    let r = h.decide(CliCommand::LedOff, 1700000000, 0);
    let e = r.event.expect("event");
    assert_eq!(e.topic, "cfg");
    assert_eq!(
        e.payload,
        r#"{"timestamp":1700000000,"source":"cli","event":"config_changed","config":{"state":"off"}}"#
    );

    let r = h.decide(CliCommand::MqttDisable, 0, 0);
    assert_eq!(r.response, "MQTT publishing disabled");
    assert!(!h.publishing_enabled());
    assert!(h.decide(CliCommand::LedOn, 5, 0).event.is_none());
}

#[test]
fn pulse_is_validated() {
    let mut h = full();
    h.decide(CliCommand::MqttEnable, 0, 0);
    let r = h.decide(CliCommand::LedPulse(500, 5000, 40), 12, 0);
    match r.action {
        CommandAction::LedPulse(c) => assert_eq!(c, PulseConfig::new(500, 5000, 40).unwrap()),
        _ => panic!("expected a pulse"),
    }
    assert_eq!(
        r.event.expect("event").payload,
        r#"{"timestamp":12,"source":"cli","event":"config_changed","config":{"state":"pulsing","duration_us":500,"period_us":5000,"brightness_percent":40}}"#
    );
    let r = h.decide(CliCommand::LedPulse(5000, 500, 40), 12, 0);
    assert_eq!(
        r.response,
        "Invalid pulse configuration: Duration (5000us) must be less than period (500us)"
    );
    assert!(matches!(r.action, CommandAction::Nothing));
}

#[test]
fn unknown_command_publishes_error_with_quotes_replaced() {
    let mut h = full();
    h.decide(CliCommand::MqttEnable, 0, 0);
    let r = h.decide(CliCommand::Unknown("say\"hi\"".to_string()), 7, 0);
    assert_eq!(
        r.response,
        "Unknown Command: say\"hi\". Type 'help' for available commands."
    );
    let e = r.event.expect("event");
    assert_eq!(e.topic, "err");
    assert_eq!(
        e.payload,
        r#"{"timestamp":7,"source":"cli","event":"unknown_command","error":"say'hi'"}"#
    );
    let r = h.decide(CliCommand::InvalidSyntax("bad".to_string()), 8, 0);
    assert_eq!(r.response, "Invalid Command Syntax: bad");
    assert_eq!(
        r.event.expect("event").payload,
        r#"{"timestamp":8,"source":"cli","event":"invalid_syntax","error":"bad"}"#
    );
}

#[test]
fn blink_reply() {
    let mut h = full();
    let r = h.decide(CliCommand::LedBlink(3), 0, 0);
    assert_eq!(r.response, "LED blink set to 3 Hz");
    assert!(matches!(r.action, CommandAction::LedBlink(3)));
}

#[test]
fn durations_below_a_second() {
    assert_eq!(duration_text(500).as_deref(), Some("500μs"));
    assert_eq!(duration_text(999).as_deref(), Some("999μs"));
    assert_eq!(duration_text(1000).as_deref(), Some("1ms"));
    assert_eq!(duration_text(999_999).as_deref(), Some("999ms"));
    assert_eq!(duration_text(1_000_000), None);
    assert_eq!(
        pulse_set_text("500ms", 75, "5.0s"),
        "LED pulse set: 500ms ON @ 75% / 5.0s period"
    );
}

#[test]
fn wifi_replies() {
    assert_eq!(
        wifi_connect_text(&None, &Ok(())),
        "✅ WiFi reconnected to default network"
    );
    assert_eq!(
        wifi_connect_text(&Some("home".to_string()), &Ok(())),
        "✅ WiFi connected to: home"
    );
    assert_eq!(
        wifi_connect_text(&None, &Err("Timeout".to_string())),
        "❌ WiFi connection failed: Timeout"
    );
    assert_eq!(
        wifi_reconnect_text(&Err("Timeout".to_string())),
        "❌ WiFi reconnect failed: Timeout"
    );
    assert_eq!(
        wifi_status_text(Some(true), Some([192, 168, 1, 119]), Some("home")),
        "WiFi Status: Connected\r\nIP: 192.168.1.119\r\nSSID: home"
    );
    assert_eq!(
        wifi_status_text(Some(true), None, Some("home")),
        "WiFi Status: Connected (IP unavailable)"
    );
    assert_eq!(wifi_status_text(Some(false), None, None), "WiFi Status: Disconnected");
    assert_eq!(
        wifi_status_text(None, None, None),
        "WiFi Status: Error checking connection"
    );
}

#[test]
fn scan_table() {
    assert_eq!(scan_text(&Ok(vec![])), "\r\nNo networks found");
    assert_eq!(scan_text(&Err("busy".to_string())), "\r\nScan failed: busy");
    let aps = vec![
        AccessPoint { ssid: "home".to_string(), signal_strength: -67, channel: 6 },
        AccessPoint {
            ssid: "a-very-long-network-name-that-goes-on".to_string(),
            signal_strength: -5,
            channel: 11,
        },
    ];
    let t = scan_text(&Ok(aps));
    let expected = format!(
        "\r\nFound 2 networks:\r\n\r\nSSID                            | RSSI | Ch\r\n--------------------------------|------|----|\n\r\n{:31} |  -67 |  6\r\n{} |   -5 | 11\r\n",
        "home", "a-very-long-network-name-that-g"
    );
    assert_eq!(t, expected);
}

#[test]
fn mqtt_replies() {
    assert_eq!(
        mqtt_publish_text("a/b", "hello", &Ok(())),
        "Published to a/b: hello"
    );
    assert_eq!(
        mqtt_publish_text("a/b", "hello", &Err("queue full".to_string())),
        "MQTT publish failed: queue full"
    );
    let mut s = MqttStatus::new("mqtt://broker:1883", "esp32-led-1");
    s.add_subscription("x/control");
    s.record_publish("x/status");
    let mut h = full();
    h.decide(CliCommand::MqttEnable, 0, 0);
    let t = h.mqtt_status_text(&s);
    assert_eq!(
        t,
        "MQTT Status:\r\n  Connection: ❌ Disconnected\r\n  Broker: mqtt://broker:1883\r\n  Client ID: esp32-led-1\r\n  Publishing: ✅ Enabled\r\n  Subscriptions (1):\r\n    - x/control\r\n  Published: 1 messages\r\n  Received: 0 messages\r\n  Last published: x/status\r\n"
    );
}

#[test]
fn led_actions_set_the_led() {
    let mut h = full();
    let mut led = LedState::new(0);
    let r = h.decide(CliCommand::LedPulse(500, 5000, 40), 0, 0);
    assert_eq!(apply_led_action(&mut led, &r.action, 10), Some(3276));
    assert_eq!(
        led.get_status(),
        LedStatus::CustomPulse(PulseConfig::new(500, 5000, 40).unwrap())
    );
    let r = h.decide(CliCommand::LedPulse(5000, 500, 40), 0, 0);
    assert_eq!(apply_led_action(&mut led, &r.action, 20), None);
    assert_eq!(led.statistics.config_changed_time, 10);
    let r = h.decide(CliCommand::LedBlink(2), 0, 0);
    apply_led_action(&mut led, &r.action, 30);
    assert_eq!(
        led.get_status(),
        LedStatus::CustomPulse(PulseConfig::new(250_000, 500_000, 100).unwrap())
    );
}

#[test]
fn publish_and_events_carry_their_qos() {
    let mut h = full();
    match h.decide(CliCommand::MqttPublish("t".to_string(), "m".to_string()), 0, 0).action {
        CommandAction::MqttPublish(e) => {
            assert_eq!((e.topic.as_str(), e.payload.as_str()), ("t", "m"));
            assert_eq!(e.qos, PublishQos::AtLeastOnce);
            assert!(!e.retain);
        }
        _ => panic!("expected a publish"),
    }
    h.decide(CliCommand::MqttEnable, 0, 0);
    let e = h.decide(CliCommand::LedOn, 0, 0).event.expect("event");
    assert_eq!(e.qos, PublishQos::AtMostOnce);
    assert!(!e.retain);
}

#[test]
fn pulse_reply_is_completed_from_duration_texts() {
    let mut h = full();
    let r = h.decide(CliCommand::LedPulse(500_000, 5_000_000, 75), 0, 0);
    assert_eq!(
        completed_led_reply(&r, "500ms", "5.0s"),
        "LED pulse set: 500ms ON @ 75% / 5.0s period"
    );
    let r = h.decide(CliCommand::LedOn, 0, 0);
    assert_eq!(completed_led_reply(&r, "", ""), "LED turned ON");
}
