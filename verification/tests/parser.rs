use esp32_led_flasher::cli::parser::CommandParser;
use esp32_led_flasher::cli::CliCommand;

#[test]
fn parse_duration_units() {
    assert_eq!(CommandParser::parse_duration("500"), Ok(500));
    assert_eq!(CommandParser::parse_duration("500us"), Ok(500));
    assert_eq!(CommandParser::parse_duration("10ms"), Ok(10_000));
    assert_eq!(CommandParser::parse_duration("1s"), Ok(1_000_000));
    assert_eq!(CommandParser::parse_duration("abc"), Err("invalid number".to_string()));
    assert_eq!(CommandParser::parse_duration("ms"), Err("invalid number".to_string()));
}

#[test]
fn blank_lines_are_empty_commands() {
    assert!(matches!(CommandParser::parse_command(""), CliCommand::Empty));
    assert!(matches!(CommandParser::parse_command("   \t "), CliCommand::Empty));
}

#[test]
fn simple_commands_parse() {
    assert!(matches!(CommandParser::parse_command("help"), CliCommand::Help));
    assert!(matches!(CommandParser::parse_command("  version  "), CliCommand::Version));
    assert!(matches!(CommandParser::parse_command("led_on"), CliCommand::LedOn));
    assert!(matches!(CommandParser::parse_command("led_off"), CliCommand::LedOff));
    assert!(matches!(CommandParser::parse_command("mqtt_enable"), CliCommand::MqttEnable));
    assert!(matches!(CommandParser::parse_command("wifi_scan"), CliCommand::WifiScan));
}

#[test]
fn echo_joins_the_rest() {
    match CommandParser::parse_command("echo  hello   world") {
        CliCommand::Echo(t) => assert_eq!(t, "hello world"),
        other => panic!("unexpected {:?}", other),
    }
}

#[test]
fn led_pulse_with_units_and_default_brightness() {
    match CommandParser::parse_command("led_pulse 500us 5ms") {
        CliCommand::LedPulse(d, p, b) => {
            assert_eq!((d, p, b), (500, 5000, 75));
        }
        other => panic!("unexpected {:?}", other),
    }
    match CommandParser::parse_command("led_pulse 10ms 1s 40") {
        CliCommand::LedPulse(d, p, b) => {
            assert_eq!((d, p, b), (10_000, 1_000_000, 40));
        }
        other => panic!("unexpected {:?}", other),
    }
}

#[test]
fn led_pulse_errors_are_invalid_syntax() {
    assert!(matches!(
        CommandParser::parse_command("led_pulse 500"),
        CliCommand::InvalidSyntax(_)
    ));
    assert!(matches!(
        CommandParser::parse_command("led_pulse x 5ms"),
        CliCommand::InvalidSyntax(_)
    ));
}

#[test]
fn unknown_command_is_kept() {
    match CommandParser::parse_command("frobnicate now") {
        CliCommand::Unknown(c) => assert_eq!(c, "frobnicate"),
        other => panic!("unexpected {:?}", other),
    }
}

#[test]
fn mqtt_publish_takes_topic_and_message() {
    match CommandParser::parse_command("mqtt_publish a/b hello there") {
        CliCommand::MqttPublish(t, m) => {
            assert_eq!(t, "a/b");
            assert_eq!(m, "hello there");
        }
        other => panic!("unexpected {:?}", other),
    }
}

#[test]
fn wifi_connect_arguments_are_optional() {
    match CommandParser::parse_command("wifi_connect") {
        CliCommand::WifiConnect(s, p) => {
            assert_eq!(s, None);
            assert_eq!(p, None);
        }
        other => panic!("unexpected {:?}", other),
    }
    match CommandParser::parse_command("wifi_connect home secret") {
        CliCommand::WifiConnect(s, p) => {
            assert_eq!(s.as_deref(), Some("home"));
            assert_eq!(p.as_deref(), Some("secret"));
        }
        other => panic!("unexpected {:?}", other),
    }
}

#[test]
fn autocomplete_filters_by_prefix_in_order() {
    assert_eq!(
        CommandParser::autocomplete("led_"),
        vec!["led_on", "led_off", "led_pulse", "led_status", "led_blink"]
    );
    assert_eq!(CommandParser::autocomplete("wifi_r"), vec!["wifi_reconnect"]);
    assert!(CommandParser::autocomplete("zzz").is_empty());
    assert_eq!(
        CommandParser::autocomplete("").len(),
        CommandParser::get_available_commands().len()
    );
}

#[test]
fn available_commands_start_with_help() {
    let cmds = CommandParser::get_available_commands();
    assert_eq!(cmds.len(), 20);
    assert_eq!(cmds[0], "help");
    assert_eq!(cmds[19], "mqtt_publish");
}

#[test]
fn oversized_durations_are_errors() {
    assert_eq!(CommandParser::parse_duration("5000s"), Err("invalid number".to_string()));
    assert_eq!(CommandParser::parse_duration("4294968ms"), Err("invalid number".to_string()));
    assert_eq!(CommandParser::parse_duration("4294968"), Err("invalid number".to_string()));
    assert_eq!(CommandParser::parse_duration("4294967ms"), Ok(4_294_967_000));
    match CommandParser::parse_command("led_pulse 5000000ms 2ms") {
        CliCommand::InvalidSyntax(m) => assert_eq!(m, "invalid duration: invalid number"),
        other => panic!("unexpected {:?}", other),
    }
}

#[test]
fn mqtt_publish_without_arguments_is_invalid_syntax() {
    match CommandParser::parse_command("mqtt_publish") {
        CliCommand::InvalidSyntax(m) => assert_eq!(m, "mqtt_publish: topic required"),
        other => panic!("unexpected {:?}", other),
    }
    match CommandParser::parse_command("mqtt_publish a/b") {
        CliCommand::InvalidSyntax(m) => assert_eq!(m, "mqtt_publish: message required"),
        other => panic!("unexpected {:?}", other),
    }
}

#[test]
fn every_listed_command_is_known() {
    for name in CommandParser::get_available_commands() {
        assert!(!matches!(CommandParser::parse_command(name), CliCommand::Unknown(_)), "{}", name);
    }
}
