use esp32_led_flasher::cli::meter_commands::{
    meter_status_text, MeterAction, MeterCommand, MeterCommandHandler, METER_VERSION_TEXT,
};
use esp32_led_flasher::meter::config::{MeterConfig, MeterType};
use esp32_led_flasher::mtu::config::UartFraming;
use esp32_led_flasher::uart_format::UartFormat;

#[test]
fn meter_types() {
    assert_eq!(MeterType::Sensus.default_format(), UartFormat::Format7E1);
    assert_eq!(MeterType::Neptune.default_format(), UartFormat::Format7E2);
    assert_eq!(MeterType::Neptune.framing(), UartFraming::SevenE2);
}

#[test]
fn meter_config_default() {
    let c = MeterConfig::default();
    assert_eq!(c.meter_type, MeterType::Sensus);
    assert_eq!(c.uart_format, UartFormat::Format7E1);
    assert_eq!(
        c.response_message.as_str(),
        "V;RB00000200;IB61564400;A1000;Z3214;XT0746;MT0683;RR00000000;GX000000;GN000000\r"
    );
    assert_eq!(c.response_delay_ms, 50);
    assert!(c.enabled);
}

#[test]
fn without_meter_commands_are_refused() {
    let h: MeterCommandHandler<()> = MeterCommandHandler::new();
    assert_eq!(h.decide(MeterCommand::Enable, 0).response, "Meter not configured");
    assert_eq!(h.decide(MeterCommand::Status, 0).response, "Meter not configured");
    assert_eq!(h.decide(MeterCommand::Help, 0).response, "Help displayed");
    assert_eq!(h.decide(MeterCommand::Version, 0).response, METER_VERSION_TEXT);
    assert_eq!(h.decide(MeterCommand::Uptime, 61).response, "Uptime: 1m 1s");
    assert_eq!(h.decide(MeterCommand::Empty, 0).response, "");
}

#[test]
fn meter_commands_ask_for_actions() {
    let h = MeterCommandHandler::new().with_meter(());
    let r = h.decide(MeterCommand::SetType(MeterType::Neptune), 0);
    assert_eq!(
        r.response,
        "Meter type set to: Neptune (7E2: 7 data + even parity + 2 stop)"
    );
    assert!(matches!(r.action, MeterAction::SetType(MeterType::Neptune)));
    let r = h.decide(MeterCommand::SetMessage("V;X".to_string()), 0);
    assert_eq!(r.response, "Meter message set to: 'V;X' (3 characters)");
    match r.action {
        MeterAction::SetMessage(m) => assert_eq!(m.as_str(), "V;X"),
        _ => panic!("expected a message"),
    }
    let r = h.decide(MeterCommand::SetMessage("x".repeat(257)), 0);
    assert_eq!(r.response, "Error: Message too long (max 256 characters)");
    assert!(matches!(r.action, MeterAction::Nothing));
    let r = h.decide(MeterCommand::SetFormat("8n1".to_string()), 0);
    assert_eq!(r.response, "Meter UART format set to: 8n1");
    assert!(matches!(r.action, MeterAction::SetFormat(UartFormat::Format8N1)));
    let r = h.decide(MeterCommand::SetFormat("9x9".to_string()), 0);
    assert_eq!(r.response, "Invalid UART format");
    let r = h.decide(MeterCommand::Disable, 0);
    assert_eq!(r.response, "Meter disabled - will not respond to clock signals");
    assert!(matches!(r.action, MeterAction::Disable));
    let r = h.decide(MeterCommand::Unknown("Unknown command: foo".to_string()), 0);
    assert_eq!(r.response, "Unknown command: foo");
}

#[test]
fn meter_status_report() {
    let c = MeterConfig::default();
    let t = meter_status_text(&c, 120, 110, 1, false);
    assert_eq!(
        t,
        "Meter Status:\r\n  State: Enabled\r\n  Type: Sensus\r\n  UART format: 7E1\r\n  Pins: GPIO4 (clock in), GPIO5 (data out)\r\n  Message: 'V;RB00000200;IB61564400;A1000;Z3214;XT0746;MT0683;RR00000000;GX000000;GN000000\r' (79 chars)\r\n  Statistics:\r\n    Clock pulses: 120\r\n    Bits transmitted: 110\r\n    Messages sent: 1\r\n    Currently transmitting: No"
    );
}
