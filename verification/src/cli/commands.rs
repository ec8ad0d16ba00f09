//! The command handler: what each command answers, which device action it
//! asks for, and which event it publishes.  The devices themselves are
//! driven by the caller, which hands their results to the reply builders
//! at the end of this module.
use super::{CliCommand, CliCommandView};
use crate::clock::{elapsed_secs, unix_time_secs};
use crate::led::{
    blink_status, blink_status_of, initial_duty, led_state_wf, pulse_check, pulse_error_text, LedState, LedStatus,
    PulseConfig, PulseError,
};
use crate::mqtt::MqttStatus;
use crate::text::{
    decimal, decimal_string, is_prefix, owned, pad_left, pad_right, push_all, push_decimal,
    push_padded_left, push_padded_right, signed_decimal, signed_decimal_string,
};
use crate::wifi::{dotted_decimal, ipv4_text, AccessPoint};
use vstd::prelude::*;
use vstd::string::StringSliceAdditionalSpecFns;
use vstd::utf8::{decode_utf8, encode_utf8, encode_utf8_decode_utf8, is_char_boundary};

verus! {

pub const HELP_TEXT: &'static str = "Available commands:\r\n  help        - Show this help\r\n  version     - Show firmware version\r\n  status      - Show system status\r\n  uptime      - Show system uptime\r\n  clear       - Clear terminal\r\n  reset       - Reset system\r\n  echo <text> - Echo text back\r\n  led_on      - Turn LED on (solid)\r\n  led_off     - Turn LED off\r\n  led_pulse <duration> <period> [brightness_%] - Set custom pulse\r\n              Supports us/ms/s units (e.g., 500us 5ms, 10ms 1s)\r\n              Range: 100us-2s duration, 500us-1h period\r\n  led_status  - Show LED status and configuration\r\n  led_blink <hz> - Set blink frequency (1-10 Hz)\r\n  wifi_connect [ssid] [password] - Connect to WiFi (no args = default)\r\n  wifi_reconnect - Quick reconnect to default WiFi\r\n  wifi_status - Show WiFi connection status\r\n  wifi_scan   - Scan for available WiFi networks\r\n  mqtt_status - Show MQTT connection status\r\n  mqtt_enable - Enable MQTT publishing from CLI commands\r\n  mqtt_disable - Disable MQTT publishing from CLI commands\r\n  mqtt_publish <topic> <message> - Publish MQTT message\r\n\r\nUse TAB to autocomplete commands\r\nUse UP/DOWN arrows to navigate command history\r\nUse LEFT/RIGHT arrows to move cursor and edit";

pub const VERSION_TEXT: &'static str = "ESP32 LED Flasher v1.0.0\r\nBuilt with ESP-IDF";

pub const STATUS_TEXT: &'static str = "System Status:\r\n  Firmware: ESP32 LED Flasher v1.0.0\r\n  Platform: ESP32 with ESP-IDF\r\n  LED: GPIO2 (built-in LED)\r\n  UART: USB-C (UART0)";

/// What the caller is to do with the devices for a command.
pub enum CommandAction {
    Nothing,
    /// Restart the system.
    Reset,
    LedOn,
    LedOff,
    /// Apply this (validated) pulse; the reply is `pulse_set_text`.
    LedPulse(PulseConfig),
    /// Report the LED's status and statistics.
    LedReport,
    LedBlink(u32),
    /// Connect with these credentials (none: the stored ones); the reply
    /// is `wifi_connect_text`.
    WifiConnect(Option<String>, Option<String>),
    /// The reply is `wifi_reconnect_text`.
    WifiReconnect,
    /// The reply is `wifi_status_text`.
    WifiReport,
    WifiScan,
    /// The reply is `mqtt_status_text`.
    MqttReport,
    /// Publish this message; the reply is `mqtt_publish_text`.
    MqttPublish(MqttEvent),
}

pub enum CommandActionView {
    Nothing,
    Reset,
    LedOn,
    LedOff,
    LedPulse(PulseConfig),
    LedReport,
    LedBlink(u32),
    WifiConnect(Option<Seq<char>>, Option<Seq<char>>),
    WifiReconnect,
    WifiReport,
    WifiScan,
    MqttReport,
    MqttPublish(EventView),
}

impl View for CommandAction {
    type V = CommandActionView;

    open spec fn view(&self) -> CommandActionView {
        match self {
            CommandAction::Nothing => CommandActionView::Nothing,
            CommandAction::Reset => CommandActionView::Reset,
            CommandAction::LedOn => CommandActionView::LedOn,
            CommandAction::LedOff => CommandActionView::LedOff,
            CommandAction::LedPulse(c) => CommandActionView::LedPulse(*c),
            CommandAction::LedReport => CommandActionView::LedReport,
            CommandAction::LedBlink(f) => CommandActionView::LedBlink(*f),
            CommandAction::WifiConnect(s, p) => CommandActionView::WifiConnect(
                super::opt_text(*s),
                super::opt_text(*p),
            ),
            CommandAction::WifiReconnect => CommandActionView::WifiReconnect,
            CommandAction::WifiReport => CommandActionView::WifiReport,
            CommandAction::WifiScan => CommandActionView::WifiScan,
            CommandAction::MqttReport => CommandActionView::MqttReport,
            CommandAction::MqttPublish(e) => CommandActionView::MqttPublish(event_view(*e)),
        }
    }
}

/// The delivery guarantee a message is published with.
#[derive(Debug, Clone, Copy, PartialEq, Eq, Structural)]
pub enum PublishQos {
    AtMostOnce,
    AtLeastOnce,
}

/// A message to publish: topic, payload, delivery guarantee and whether
/// the broker retains it.
pub struct MqttEvent {
    pub topic: String,
    pub payload: String,
    pub qos: PublishQos,
    pub retain: bool,
}

/// A message to publish, with its texts as character sequences.
pub type EventView = (Seq<char>, Seq<char>, PublishQos, bool);

pub open spec fn event_view(e: MqttEvent) -> EventView {
    (e.topic@, e.payload@, e.qos, e.retain)
}

/// The result of handling a command.
pub struct CommandOutcome {
    /// The reply, or the start of it when the action's result completes it.
    pub response: String,
    pub action: CommandAction,
    pub event: Option<MqttEvent>,
}

/// A reply, an action and an event, as character sequences.
pub struct OutcomeView {
    pub response: Seq<char>,
    pub action: CommandActionView,
    pub event: Option<EventView>,
}

pub open spec fn outcome_view(o: CommandOutcome) -> OutcomeView {
    OutcomeView {
        response: o.response@,
        action: o.action@,
        event: match o.event {
            Some(e) => Some(event_view(e)),
            None => None,
        },
    }
}

/// What the handler holds that its replies depend on.
pub struct HandlerState {
    pub has_wifi: bool,
    pub has_mqtt: bool,
    pub has_led: bool,
    pub config_topic: Option<Seq<char>>,
    pub error_topic: Option<Seq<char>>,
    pub publishing: bool,
}

/// "Uptime: " then hours and minutes when non-zero (minutes also when the
/// hours are), then seconds.
pub open spec fn uptime_text(secs: nat) -> Seq<char> {
    let hours = secs / 3600;
    let minutes = (secs % 3600) / 60;
    let seconds = secs % 60;
    "Uptime: "@ + (if hours > 0 {
        decimal(hours) + "h "@
    } else {
        seq![]
    }) + (if minutes > 0 || hours > 0 {
        decimal(minutes) + "m "@
    } else {
        seq![]
    }) + decimal(seconds) + "s"@
}

/// Double quotes turned into single quotes, so the text fits in a JSON string.
pub open spec fn quotes_replaced(s: Seq<char>) -> Seq<char> {
    s.map_values(|c: char| if c == '"' { '\'' } else { c })
}

/// `{"timestamp":T,"source":"cli","event":"config_changed","config":C}`
pub open spec fn config_event_json(t: u64, config: Seq<char>) -> Seq<char> {
    "{\"timestamp\":"@ + decimal(t as nat) + ",\"source\":\"cli\",\"event\":\"config_changed\",\"config\":"@
        + config + "}"@
}

pub open spec fn pulse_config_json(c: PulseConfig) -> Seq<char> {
    "{\"state\":\"pulsing\",\"duration_us\":"@ + decimal(c.duration_us as nat) + ",\"period_us\":"@
        + decimal(c.period_us as nat) + ",\"brightness_percent\":"@ + decimal(
        c.brightness_percent as nat,
    ) + "}"@
}

/// `{"timestamp":T,"source":"cli","event":KIND,"error":"MSG"}` with the
/// message's double quotes made single.
pub open spec fn error_event_json(t: u64, kind: Seq<char>, msg: Seq<char>) -> Seq<char> {
    "{\"timestamp\":"@ + decimal(t as nat) + ",\"source\":\"cli\",\"event\":\""@ + kind
        + "\",\"error\":\""@ + quotes_replaced(msg) + "\"}"@
}

/// A config event, published to the config topic when publishing is on
/// and both MQTT and the topic are there.
pub open spec fn config_event(st: HandlerState, t: u64, config: Seq<char>) -> Option<EventView> {
    if st.publishing && st.has_mqtt && st.config_topic is Some {
        Some((st.config_topic->0, config_event_json(t, config), PublishQos::AtMostOnce, false))
    } else {
        None
    }
}

pub open spec fn error_event(st: HandlerState, t: u64, kind: Seq<char>, msg: Seq<char>) -> Option<EventView> {
    if st.publishing && st.has_mqtt && st.error_topic is Some {
        Some((st.error_topic->0, error_event_json(t, kind, msg), PublishQos::AtMostOnce, false))
    } else {
        None
    }
}

pub open spec fn reply(r: Seq<char>) -> OutcomeView {
    OutcomeView { response: r, action: CommandActionView::Nothing, event: None }
}

pub open spec fn led_outcome(st: HandlerState, o: OutcomeView) -> OutcomeView {
    if st.has_led {
        o
    } else {
        reply("LED not initialized"@)
    }
}

/// What a command answers, asks of the devices and publishes, given the
/// handler's state, the wall-clock time `t` (Unix seconds) and the uptime.
pub open spec fn command_outcome(
    st: HandlerState,
    cmd: CliCommandView,
    t: u64,
    uptime: u64,
) -> OutcomeView {
    match cmd {
        CliCommandView::Empty => reply(seq![]),
        CliCommandView::Help => reply(HELP_TEXT@),
        CliCommandView::Version => reply(VERSION_TEXT@),
        CliCommandView::Status => reply(STATUS_TEXT@),
        CliCommandView::Uptime => reply(uptime_text(uptime as nat)),
        CliCommandView::Clear => reply("Screen cleared"@),
        CliCommandView::Reset => OutcomeView {
            response: "Resetting system..."@,
            action: CommandActionView::Reset,
            event: None,
        },
        CliCommandView::Echo(text) => reply(text),
        CliCommandView::LedOn => led_outcome(
            st,
            OutcomeView {
                response: "LED turned ON"@,
                action: CommandActionView::LedOn,
                event: config_event(st, t, "{\"state\":\"on\"}"@),
            },
        ),
        CliCommandView::LedOff => led_outcome(
            st,
            OutcomeView {
                response: "LED turned OFF"@,
                action: CommandActionView::LedOff,
                event: config_event(st, t, "{\"state\":\"off\"}"@),
            },
        ),
        CliCommandView::LedPulse(d, p, b) => led_outcome(
            st,
            match pulse_check(d, p, b) {
                None => {
                    let c = PulseConfig { duration_us: d, period_us: p, brightness_percent: b };
                    OutcomeView {
                        response: seq![],
                        action: CommandActionView::LedPulse(c),
                        event: config_event(st, t, pulse_config_json(c)),
                    }
                },
                Some(e) => reply("Invalid pulse configuration: "@ + pulse_error_text(d, p, e)),
            },
        ),
        CliCommandView::LedStatus => led_outcome(
            st,
            OutcomeView {
                response: seq![],
                action: CommandActionView::LedReport,
                event: None,
            },
        ),
        CliCommandView::LedBlink(f) => led_outcome(
            st,
            OutcomeView {
                response: "LED blink set to "@ + decimal(f as nat) + " Hz"@,
                action: CommandActionView::LedBlink(f),
                event: None,
            },
        ),
        CliCommandView::WifiConnect(s, p) => if st.has_wifi {
            OutcomeView {
                response: seq![],
                action: CommandActionView::WifiConnect(s, p),
                event: None,
            }
        } else {
            reply("❌ WiFi not initialized"@)
        },
        CliCommandView::WifiReconnect => if st.has_wifi {
            OutcomeView {
                response: seq![],
                action: CommandActionView::WifiReconnect,
                event: None,
            }
        } else {
            reply("❌ WiFi not initialized"@)
        },
        CliCommandView::WifiStatus => if st.has_wifi {
            OutcomeView { response: seq![], action: CommandActionView::WifiReport, event: None }
        } else {
            reply("WiFi Status: Not initialized"@)
        },
        CliCommandView::WifiScan => if st.has_wifi {
            OutcomeView {
                response: "Scanning for WiFi networks...\r\n"@,
                action: CommandActionView::WifiScan,
                event: None,
            }
        } else {
            reply("WiFi not initialized"@)
        },
        CliCommandView::MqttStatus => if st.has_mqtt {
            OutcomeView { response: seq![], action: CommandActionView::MqttReport, event: None }
        } else {
            reply("MQTT Status: Not initialized"@)
        },
        CliCommandView::MqttPublish(topic, msg) => if st.has_mqtt {
            OutcomeView {
                response: seq![],
                action: CommandActionView::MqttPublish(
                    (topic, msg, PublishQos::AtLeastOnce, false),
                ),
                event: None,
            }
        } else {
            reply("MQTT not initialized"@)
        },
        CliCommandView::MqttEnable => if st.has_mqtt {
            reply("MQTT publishing enabled"@)
        } else {
            reply("MQTT not initialized - cannot enable publishing"@)
        },
        CliCommandView::MqttDisable => reply("MQTT publishing disabled"@),
        CliCommandView::InvalidSyntax(msg) => OutcomeView {
            response: "Invalid Command Syntax: "@ + msg,
            action: CommandActionView::Nothing,
            event: error_event(st, t, "invalid_syntax"@, msg),
        },
        CliCommandView::Unknown(c) => OutcomeView {
            response: "Unknown Command: "@ + c + ". Type 'help' for available commands."@,
            action: CommandActionView::Nothing,
            event: error_event(st, t, "unknown_command"@, c),
        },
    }
}

/// Publishing after a command: `mqtt_enable` turns it on when MQTT is
/// there, `mqtt_disable` turns it off, other commands leave it.
pub open spec fn publishing_after(st: HandlerState, cmd: CliCommandView) -> bool {
    match cmd {
        CliCommandView::MqttEnable => if st.has_mqtt {
            true
        } else {
            st.publishing
        },
        CliCommandView::MqttDisable => false,
        _ => st.publishing,
    }
}

pub struct CommandHandler<W, M, L> {
    start_time: std::time::Instant,
    wifi: Option<W>,
    mqtt: Option<M>,
    led: Option<L>,
    event_config_topic: Option<String>,
    event_error_topic: Option<String>,
    mqtt_publishing_enabled: bool,
}

pub fn uptime_string(secs: u64) -> (res: String)
    ensures
        res@ == uptime_text(secs as nat),
{
    let hours = secs / 3600;
    let minutes = (secs % 3600) / 60;
    let seconds = secs % 60;
    let mut res = owned("Uptime: ");
    if hours > 0 {
        push_decimal(&mut res, hours);
        push_all(&mut res, "h ");
    }
    if minutes > 0 || hours > 0 {
        push_decimal(&mut res, minutes);
        push_all(&mut res, "m ");
    }
    push_decimal(&mut res, seconds);
    push_all(&mut res, "s");
    assert(res@ =~= uptime_text(secs as nat));
    res
}

fn push_quotes_replaced(out: &mut String, s: &String)
    ensures
        final(out)@ == old(out)@ + quotes_replaced(s@),
{
    let cs = crate::text::chars_of(s.as_str());
    let mut i: usize = 0;
    while i < cs.len()
        invariant
            i <= cs@.len(),
            cs@ == s@,
            out@ == old(out)@ + quotes_replaced(cs@.take(i as int)),
        decreases cs@.len() - i,
    {
        let c = cs[i];
        out.push(
            if c == '"' {
                '\''
            } else {
                c
            },
        );
        i = i + 1;
        assert(quotes_replaced(cs@.take(i as int)) =~= quotes_replaced(cs@.take(i - 1)).push(
            if c == '"' {
                '\''
            } else {
                c
            },
        ));
    }
    assert(cs@.take(i as int) =~= cs@);
}

fn config_json(t: u64, config: &String) -> (res: String)
    ensures
        res@ == config_event_json(t, config@),
{
    let mut res = owned("{\"timestamp\":");
    push_decimal(&mut res, t);
    push_all(&mut res, ",\"source\":\"cli\",\"event\":\"config_changed\",\"config\":");
    push_all(&mut res, config.as_str());
    push_all(&mut res, "}");
    res
}

fn pulse_json(c: PulseConfig) -> (res: String)
    ensures
        res@ == pulse_config_json(c),
{
    let mut res = owned("{\"state\":\"pulsing\",\"duration_us\":");
    push_decimal(&mut res, c.duration_us as u64);
    push_all(&mut res, ",\"period_us\":");
    push_decimal(&mut res, c.period_us as u64);
    push_all(&mut res, ",\"brightness_percent\":");
    push_decimal(&mut res, c.brightness_percent as u64);
    push_all(&mut res, "}");
    res
}

fn error_json(t: u64, kind: &str, msg: &String) -> (res: String)
    ensures
        res@ == error_event_json(t, kind@, msg@),
{
    let mut res = owned("{\"timestamp\":");
    push_decimal(&mut res, t);
    push_all(&mut res, ",\"source\":\"cli\",\"event\":\"");
    push_all(&mut res, kind);
    push_all(&mut res, "\",\"error\":\"");
    push_quotes_replaced(&mut res, msg);
    push_all(&mut res, "\"}");
    res
}

fn clone_text(s: &Option<String>) -> (res: Option<String>)
    ensures
        super::opt_text(res) == super::opt_text(*s),
{
    match s {
        Some(t) => Some(t.clone()),
        None => None,
    }
}

fn simple(response: String) -> (res: CommandOutcome)
    ensures
        outcome_view(res) == reply(response@),
{
    CommandOutcome { response, action: CommandAction::Nothing, event: None }
}

impl<W, M, L> Default for CommandHandler<W, M, L> {
    fn default() -> (res: Self)
        ensures
            res.state() == (HandlerState {
                has_wifi: false,
                has_mqtt: false,
                has_led: false,
                config_topic: None,
                error_topic: None,
                publishing: false,
            }),
    {
        Self::new()
    }
}

impl<W, M, L> CommandHandler<W, M, L> {
    pub closed spec fn state(&self) -> HandlerState {
        HandlerState {
            has_wifi: self.wifi is Some,
            has_mqtt: self.mqtt is Some,
            has_led: self.led is Some,
            config_topic: super::opt_text(self.event_config_topic),
            error_topic: super::opt_text(self.event_error_topic),
            publishing: self.mqtt_publishing_enabled,
        }
    }

    /// A handler with no devices and publishing off.
    pub fn new() -> (res: Self)
        ensures
            res.state() == (HandlerState {
                has_wifi: false,
                has_mqtt: false,
                has_led: false,
                config_topic: None,
                error_topic: None,
                publishing: false,
            }),
    {
        CommandHandler {
            start_time: std::time::Instant::now(),
            wifi: None,
            mqtt: None,
            led: None,
            event_config_topic: None,
            event_error_topic: None,
            mqtt_publishing_enabled: false,
        }
    }

    pub fn with_wifi(self, wifi: W) -> (res: Self)
        ensures
            res.state() == (HandlerState { has_wifi: true, ..self.state() }),
            res.wifi() == Some(wifi),
    {
        CommandHandler { wifi: Some(wifi), ..self }
    }

    pub fn with_mqtt(self, mqtt: M) -> (res: Self)
        ensures
            res.state() == (HandlerState { has_mqtt: true, ..self.state() }),
            res.mqtt() == Some(mqtt),
    {
        CommandHandler { mqtt: Some(mqtt), ..self }
    }

    pub fn with_led(self, led: L) -> (res: Self)
        ensures
            res.state() == (HandlerState { has_led: true, ..self.state() }),
            res.led() == Some(led),
    {
        CommandHandler { led: Some(led), ..self }
    }

    pub fn with_event_topics(self, config_topic: String, error_topic: String) -> (res: Self)
        ensures
            res.state() == (HandlerState {
                config_topic: Some(config_topic@),
                error_topic: Some(error_topic@),
                ..self.state()
            }),
    {
        CommandHandler {
            event_config_topic: Some(config_topic),
            event_error_topic: Some(error_topic),
            ..self
        }
    }

    pub closed spec fn wifi(&self) -> Option<W> {
        self.wifi
    }

    pub closed spec fn mqtt(&self) -> Option<M> {
        self.mqtt
    }

    pub closed spec fn led(&self) -> Option<L> {
        self.led
    }

    pub fn wifi_ref(&self) -> (res: Option<&W>)
        ensures
            res == match self.wifi() {
                Some(w) => Some(&w),
                None => None,
            },
    {
        self.wifi.as_ref()
    }

    pub fn mqtt_ref(&self) -> (res: Option<&M>)
        ensures
            res == match self.mqtt() {
                Some(m) => Some(&m),
                None => None,
            },
    {
        self.mqtt.as_ref()
    }

    pub fn led_ref(&self) -> (res: Option<&L>)
        ensures
            res == match self.led() {
                Some(l) => Some(&l),
                None => None,
            },
    {
        self.led.as_ref()
    }

    /// Whether CLI commands publish events.
    pub fn publishing_enabled(&self) -> (res: bool)
        ensures
            res == self.state().publishing,
    {
        self.mqtt_publishing_enabled
    }

    /// Handles a command at wall-clock time `now_secs` (Unix seconds) with
    /// the system up for `uptime_secs`.
    pub fn decide(&mut self, command: CliCommand, now_secs: u64, uptime_secs: u64) -> (res:
        CommandOutcome)
        ensures
            outcome_view(res) == command_outcome(old(self).state(), command@, now_secs, uptime_secs),
            final(self).state() == (HandlerState {
                publishing: publishing_after(old(self).state(), command@),
                ..old(self).state()
            }),
            final(self).wifi() == old(self).wifi(),
            final(self).mqtt() == old(self).mqtt(),
            final(self).led() == old(self).led(),
    {
        match command {
            CliCommand::Empty => simple(String::new()),
            CliCommand::Help => simple(owned(HELP_TEXT)),
            CliCommand::Version => simple(owned(VERSION_TEXT)),
            CliCommand::Status => simple(owned(STATUS_TEXT)),
            CliCommand::Uptime => simple(uptime_string(uptime_secs)),
            CliCommand::Clear => simple(owned("Screen cleared")),
            CliCommand::Reset => CommandOutcome {
                response: owned("Resetting system..."),
                action: CommandAction::Reset,
                event: None,
            },
            CliCommand::Echo(text) => simple(text),
            CliCommand::LedOn => {
                if self.led.is_none() {
                    return simple(owned("LED not initialized"));
                }
                let event = self.config_event(now_secs, owned("{\"state\":\"on\"}"));
                CommandOutcome {
                    response: owned("LED turned ON"),
                    action: CommandAction::LedOn,
                    event,
                }
            },
            CliCommand::LedOff => {
                if self.led.is_none() {
                    return simple(owned("LED not initialized"));
                }
                let event = self.config_event(now_secs, owned("{\"state\":\"off\"}"));
                CommandOutcome {
                    response: owned("LED turned OFF"),
                    action: CommandAction::LedOff,
                    event,
                }
            },
            CliCommand::LedPulse(duration_us, period_us, brightness_percent) => {
                if self.led.is_none() {
                    return simple(owned("LED not initialized"));
                }
                match PulseConfig::new(duration_us, period_us, brightness_percent) {
                    Ok(config) => {
                        let event = self.config_event(now_secs, pulse_json(config));
                        CommandOutcome {
                            response: String::new(),
                            action: CommandAction::LedPulse(config),
                            event,
                        }
                    },
                    Err(e) => {
                        let mut r = owned("Invalid pulse configuration: ");
                        push_all(&mut r, e.as_str());
                        simple(r)
                    },
                }
            },
            CliCommand::LedStatus => {
                if self.led.is_none() {
                    return simple(owned("LED not initialized"));
                }
                CommandOutcome {
                    response: String::new(),
                    action: CommandAction::LedReport,
                    event: None,
                }
            },
            CliCommand::LedBlink(frequency_hz) => {
                if self.led.is_none() {
                    return simple(owned("LED not initialized"));
                }
                let mut r = owned("LED blink set to ");
                push_decimal(&mut r, frequency_hz as u64);
                push_all(&mut r, " Hz");
                CommandOutcome { response: r, action: CommandAction::LedBlink(frequency_hz), event: None }
            },
            CliCommand::WifiConnect(ssid, password) => {
                if self.wifi.is_none() {
                    return simple(owned("❌ WiFi not initialized"));
                }
                CommandOutcome {
                    response: String::new(),
                    action: CommandAction::WifiConnect(ssid, password),
                    event: None,
                }
            },
            CliCommand::WifiReconnect => {
                if self.wifi.is_none() {
                    return simple(owned("❌ WiFi not initialized"));
                }
                CommandOutcome {
                    response: String::new(),
                    action: CommandAction::WifiReconnect,
                    event: None,
                }
            },
            CliCommand::WifiStatus => {
                if self.wifi.is_none() {
                    return simple(owned("WiFi Status: Not initialized"));
                }
                CommandOutcome {
                    response: String::new(),
                    action: CommandAction::WifiReport,
                    event: None,
                }
            },
            CliCommand::WifiScan => {
                if self.wifi.is_none() {
                    return simple(owned("WiFi not initialized"));
                }
                CommandOutcome {
                    response: owned("Scanning for WiFi networks...\r\n"),
                    action: CommandAction::WifiScan,
                    event: None,
                }
            },
            CliCommand::MqttStatus => {
                if self.mqtt.is_none() {
                    return simple(owned("MQTT Status: Not initialized"));
                }
                CommandOutcome {
                    response: String::new(),
                    action: CommandAction::MqttReport,
                    event: None,
                }
            },
            CliCommand::MqttPublish(topic, message) => {
                if self.mqtt.is_none() {
                    return simple(owned("MQTT not initialized"));
                }
                CommandOutcome {
                    response: String::new(),
                    action: CommandAction::MqttPublish(
                        MqttEvent {
                            topic,
                            payload: message,
                            qos: PublishQos::AtLeastOnce,
                            retain: false,
                        },
                    ),
                    event: None,
                }
            },
            CliCommand::MqttEnable => {
                if self.mqtt.is_some() {
                    self.mqtt_publishing_enabled = true;
                    simple(owned("MQTT publishing enabled"))
                } else {
                    simple(owned("MQTT not initialized - cannot enable publishing"))
                }
            },
            CliCommand::MqttDisable => {
                self.mqtt_publishing_enabled = false;
                simple(owned("MQTT publishing disabled"))
            },
            CliCommand::InvalidSyntax(msg) => {
                let mut r = owned("Invalid Command Syntax: ");
                push_all(&mut r, msg.as_str());
                let event = self.error_event(now_secs, "invalid_syntax", &msg);
                CommandOutcome { response: r, action: CommandAction::Nothing, event }
            },
            CliCommand::Unknown(cmd) => {
                let mut r = owned("Unknown Command: ");
                push_all(&mut r, cmd.as_str());
                push_all(&mut r, ". Type 'help' for available commands.");
                let event = self.error_event(now_secs, "unknown_command", &cmd);
                CommandOutcome { response: r, action: CommandAction::Nothing, event }
            },
        }
    }

    /// Handles a command now: reads the clocks and decides (see `decide`).
    pub fn execute_command(&mut self, command: CliCommand) -> (res: CommandOutcome)
        ensures
            exists|t: u64, u: u64|
                outcome_view(res) == command_outcome(old(self).state(), command@, t, u),
            final(self).state() == (HandlerState {
                publishing: publishing_after(old(self).state(), command@),
                ..old(self).state()
            }),
    {
        let now_secs = unix_time_secs();
        let uptime_secs = elapsed_secs(&self.start_time);
        self.decide(command, now_secs, uptime_secs)
    }

    fn config_event(&self, t: u64, config: String) -> (res: Option<MqttEvent>)
        ensures
            match res {
                Some(e) => config_event(self.state(), t, config@) == Some(event_view(e)),
                None => config_event(self.state(), t, config@) is None,
            },
    {
        if self.mqtt_publishing_enabled && self.mqtt.is_some() {
            match &self.event_config_topic {
                Some(topic) => Some(
                    MqttEvent {
                        topic: topic.clone(),
                        payload: config_json(t, &config),
                        qos: PublishQos::AtMostOnce,
                        retain: false,
                    },
                ),
                None => None,
            }
        } else {
            None
        }
    }

    fn error_event(&self, t: u64, kind: &str, msg: &String) -> (res: Option<MqttEvent>)
        ensures
            match res {
                Some(e) => error_event(self.state(), t, kind@, msg@) == Some(event_view(e)),
                None => error_event(self.state(), t, kind@, msg@) is None,
            },
    {
        if self.mqtt_publishing_enabled && self.mqtt.is_some() {
            match &self.event_error_topic {
                Some(topic) => Some(
                    MqttEvent {
                        topic: topic.clone(),
                        payload: error_json(t, kind, msg),
                        qos: PublishQos::AtMostOnce,
                        retain: false,
                    },
                ),
                None => None,
            }
        } else {
            None
        }
    }
}

/// The LED status after an action is carried out: an LED action sets the
/// status it names, any other action leaves the status as it was.
pub open spec fn led_after(status: LedStatus, action: CommandActionView) -> LedStatus {
    match action {
        CommandActionView::LedOn => LedStatus::SolidOn,
        CommandActionView::LedOff => LedStatus::Off,
        CommandActionView::LedPulse(c) => LedStatus::CustomPulse(c),
        CommandActionView::LedBlink(f) => blink_status(f),
        _ => status,
    }
}

/// Carries out an action's effect on the LED at `now`: returns the duty to
/// set at once when the status changes.
pub fn apply_led_action(state: &mut LedState, action: &CommandAction, now: u64) -> (res: Option<
    u32,
>)
    ensures
        led_state_wf(*old(state)) ==> led_state_wf(*final(state)),
        final(state).status == led_after(old(state).status, action@),
        final(state).status == old(state).status ==> res is None && *final(state) == *old(state),
        final(state).status != old(state).status ==> res == Some(
            initial_duty(final(state).status),
        ),
{
    let target = match action {
        CommandAction::LedOn => LedStatus::SolidOn,
        CommandAction::LedOff => LedStatus::Off,
        CommandAction::LedPulse(c) => LedStatus::CustomPulse(*c),
        CommandAction::LedBlink(f) => blink_status_of(*f),
        _ => {
            return None;
        },
    };
    state.set_status(target, now)
}

/// A valid pulse command on a handler with an LED sets the LED to that
/// pulse; an invalid one leaves the LED as it was and answers with the
/// reason the configuration was refused.
pub proof fn lemma_pulse_command_sets_pulse(
    st: HandlerState,
    d: u32,
    p: u32,
    b: u8,
    t: u64,
    u: u64,
    status: LedStatus,
)
    requires
        st.has_led,
    ensures
        pulse_check(d, p, b) is None ==> command_outcome(
            st,
            CliCommandView::LedPulse(d, p, b),
            t,
            u,
        ).action == CommandActionView::LedPulse(
            PulseConfig { duration_us: d, period_us: p, brightness_percent: b },
        ),
        pulse_check(d, p, b) is None ==> led_after(
            status,
            command_outcome(st, CliCommandView::LedPulse(d, p, b), t, u).action,
        ) == LedStatus::CustomPulse(
            PulseConfig { duration_us: d, period_us: p, brightness_percent: b },
        ),
        pulse_check(d, p, b) matches Some(e) ==> {
            &&& led_after(status, command_outcome(st, CliCommandView::LedPulse(d, p, b), t, u).action)
                == status
            &&& command_outcome(st, CliCommandView::LedPulse(d, p, b), t, u).response
                == "Invalid pulse configuration: "@ + pulse_error_text(d, p, e)
        },
{
}

/// The reply when the WiFi manager cannot be locked to connect.
pub const WIFI_LOCK_ERROR_TEXT: &'static str = "❌ WiFi manager lock error";

/// The reply when the WiFi manager cannot be locked to report its status.
pub const WIFI_STATUS_LOCK_ERROR_TEXT: &'static str = "WiFi Status: Lock error";

/// The reply when the WiFi manager cannot be locked to scan.
pub const SCAN_LOCK_ERROR_TEXT: &'static str = "WiFi manager lock error";

/// An outcome with its error text as characters.
pub open spec fn result_text(r: Result<(), String>) -> Result<(), Seq<char>> {
    match r {
        Ok(_) => Ok(()),
        Err(e) => Err(e@),
    }
}

/// A duration below one second: whole milliseconds from 1 ms on, else
/// microseconds.
pub open spec fn short_duration_text(us: u32) -> Seq<char> {
    if us >= 1000 {
        decimal((us / 1000) as nat) + "ms"@
    } else {
        decimal(us as nat) + "μs"@
    }
}

/// The text of a duration below one second (`5ms`, `500μs`); none from
/// one second up, where seconds are shown to one decimal place, which
/// takes floating point.
pub fn duration_text(us: u32) -> (res: Option<String>)
    ensures
        res is None <==> us >= 1_000_000,
        res matches Some(s) ==> s@ == short_duration_text(us),
{
    if us >= 1_000_000 {
        None
    } else if us >= 1000 {
        let mut r = decimal_string((us / 1000) as u64);
        push_all(&mut r, "ms");
        Some(r)
    } else {
        let mut r = decimal_string(us as u64);
        push_all(&mut r, "μs");
        Some(r)
    }
}

pub open spec fn pulse_set_reply(duration: Seq<char>, brightness: u8, period: Seq<char>) -> Seq<
    char,
> {
    "LED pulse set: "@ + duration + " ON @ "@ + decimal(brightness as nat) + "% / "@ + period
        + " period"@
}

/// The reply once a pulse is set, from the texts of its duration and period.
pub fn pulse_set_text(duration: &str, brightness_percent: u8, period: &str) -> (res: String)
    ensures
        res@ == pulse_set_reply(duration@, brightness_percent, period@),
{
    let mut r = owned("LED pulse set: ");
    push_all(&mut r, duration);
    push_all(&mut r, " ON @ ");
    push_decimal(&mut r, brightness_percent as u64);
    push_all(&mut r, "% / ");
    push_all(&mut r, period);
    push_all(&mut r, " period");
    r
}

/// `text` is how the reply shows `us` microseconds: below one second it
/// is `short_duration_text(us)`; from one second up it is shown in seconds
/// to one decimal place, which is computed in floating point by the caller.
pub open spec fn duration_shown(us: u32, text: Seq<char>) -> bool {
    us < 1_000_000 ==> text == short_duration_text(us)
}

/// The reply to a command once its LED action has been carried out: for a
/// pulse, the "LED pulse set" line built from the texts of its duration and
/// period; for any other command, the handler's reply as it stands.
pub fn completed_led_reply(outcome: &CommandOutcome, duration: &str, period: &str) -> (res:
    String)
    requires
        outcome.action matches CommandAction::LedPulse(c) ==> duration_shown(
            c.duration_us,
            duration@,
        ) && duration_shown(c.period_us, period@),
    ensures
        outcome.action matches CommandAction::LedPulse(c) ==> res@ == pulse_set_reply(
            duration@,
            c.brightness_percent,
            period@,
        ) && is_prefix("LED pulse set: "@, res@),
        !(outcome.action is LedPulse) ==> res@ == outcome.response@,
{
    match &outcome.action {
        CommandAction::LedPulse(c) => {
            let r = pulse_set_text(duration, c.brightness_percent, period);
            proof {
                let head = "LED pulse set: "@;
                assert(r@.take(head.len() as int) =~= head);
            }
            r
        },
        _ => owned(outcome.response.as_str()),
    }
}

pub open spec fn wifi_connect_reply(ssid: Option<Seq<char>>, result: Result<(), Seq<char>>) -> Seq<
    char,
> {
    match result {
        Ok(_) => match ssid {
            Some(s) => "✅ WiFi connected to: "@ + s,
            None => "✅ WiFi reconnected to default network"@,
        },
        Err(e) => "❌ WiFi connection failed: "@ + e,
    }
}

/// The reply to `wifi_connect` once the connection was tried, the error
/// given as the text it displays as.
pub fn wifi_connect_text(ssid: &Option<String>, result: &Result<(), String>) -> (res: String)
    ensures
        res@ == wifi_connect_reply(super::opt_text(*ssid), result_text(*result)),
{
    match result {
        Ok(_) => match ssid {
            Some(s) => {
                let mut r = owned("✅ WiFi connected to: ");
                push_all(&mut r, s.as_str());
                r
            },
            None => owned("✅ WiFi reconnected to default network"),
        },
        Err(e) => {
            let mut r = owned("❌ WiFi connection failed: ");
            push_all(&mut r, e.as_str());
            r
        },
    }
}

pub open spec fn wifi_reconnect_reply(result: Result<(), Seq<char>>) -> Seq<char> {
    match result {
        Ok(_) => "✅ WiFi reconnected to default network"@,
        Err(e) => "❌ WiFi reconnect failed: "@ + e,
    }
}

/// The reply to `wifi_reconnect` once the connection was tried.
pub fn wifi_reconnect_text(result: &Result<(), String>) -> (res: String)
    ensures
        res@ == wifi_reconnect_reply(result_text(*result)),
{
    match result {
        Ok(_) => owned("✅ WiFi reconnected to default network"),
        Err(e) => {
            let mut r = owned("❌ WiFi reconnect failed: ");
            push_all(&mut r, e.as_str());
            r
        },
    }
}

/// The status reply: `connected` is none when it could not be read; the
/// address and the SSID are none when they could not be read.
pub open spec fn wifi_status_reply(
    connected: Option<bool>,
    ip: Option<Seq<u8>>,
    ssid: Option<Seq<char>>,
) -> Seq<char> {
    match connected {
        None => "WiFi Status: Error checking connection"@,
        Some(false) => "WiFi Status: Disconnected"@,
        Some(true) => match ip {
            Some(a) => "WiFi Status: Connected\r\nIP: "@ + dotted_decimal(a) + match ssid {
                Some(s) => "\r\nSSID: "@ + s,
                None => seq![],
            },
            None => "WiFi Status: Connected (IP unavailable)"@,
        },
    }
}

/// The reply to `wifi_status` from what the WiFi manager reported.
pub fn wifi_status_text(connected: Option<bool>, ip: Option<[u8; 4]>, ssid: Option<&str>) -> (res:
    String)
    ensures
        res@ == wifi_status_reply(
            connected,
            match ip {
                Some(a) => Some(a@),
                None => None,
            },
            match ssid {
                Some(s) => Some(s@),
                None => None,
            },
        ),
{
    match connected {
        None => owned("WiFi Status: Error checking connection"),
        Some(false) => owned("WiFi Status: Disconnected"),
        Some(true) => match ip {
            Some(a) => {
                let mut r = owned("WiFi Status: Connected\r\nIP: ");
                let t = ipv4_text(a);
                push_all(&mut r, t.as_str());
                if let Some(s) = ssid {
                    push_all(&mut r, "\r\nSSID: ");
                    push_all(&mut r, s);
                }
                r
            },
            None => owned("WiFi Status: Connected (IP unavailable)"),
        },
    }
}

/// The SSID as the scan table shows it: its first 31 bytes when it is
/// longer.
pub open spec fn shown_ssid(s: Seq<char>) -> Seq<char> {
    if encode_utf8(s).len() > 31 {
        decode_utf8(encode_utf8(s).subrange(0, 31))
    } else {
        s
    }
}

/// A long SSID can be cut after its 31st byte (and its length in bytes
/// fits in `usize`, as that of any string in memory does).
pub open spec fn ssid_cut_ok(ap: AccessPoint) -> bool {
    &&& encode_utf8(ap.ssid@).len() <= usize::MAX
    &&& encode_utf8(ap.ssid@).len() > 31 ==> is_char_boundary(encode_utf8(ap.ssid@), 31)
}

/// A table row: SSID, signal strength and channel (`{:31} | {:4} | {:2}`).
pub open spec fn scan_row(ap: AccessPoint) -> Seq<char> {
    pad_right(shown_ssid(ap.ssid@), 31) + " | "@ + pad_left(
        signed_decimal(ap.signal_strength as int),
        4,
    ) + " | "@ + pad_left(decimal(ap.channel as nat), 2) + "\r\n"@
}

pub open spec fn scan_rows(aps: Seq<AccessPoint>) -> Seq<char>
    decreases aps.len(),
{
    if aps.len() == 0 {
        seq![]
    } else {
        scan_rows(aps.drop_last()) + scan_row(aps.last())
    }
}

pub const SCAN_HEADER: &'static str = "SSID                            | RSSI | Ch\r\n";

pub const SCAN_RULE: &'static str = "--------------------------------|------|----|\n\r\n";

pub open spec fn scan_reply(result: Result<Seq<AccessPoint>, Seq<char>>) -> Seq<char> {
    match result {
        Err(e) => "\r\nScan failed: "@ + e,
        Ok(aps) => if aps.len() == 0 {
            "\r\nNo networks found"@
        } else {
            "\r\nFound "@ + decimal(aps.len()) + " networks:\r\n\r\n"@ + SCAN_HEADER@ + SCAN_RULE@
                + scan_rows(aps)
        },
    }
}

pub open spec fn scan_view(result: Result<Vec<AccessPoint>, String>) -> Result<
    Seq<AccessPoint>,
    Seq<char>,
> {
    match result {
        Ok(aps) => Ok(aps@),
        Err(e) => Err(e@),
    }
}

fn push_scan_row(out: &mut String, ap: &AccessPoint)
    requires
        ssid_cut_ok(*ap),
    ensures
        final(out)@ == old(out)@ + scan_row(*ap),
{
    let s = ap.ssid.as_str();
    let shown: &str = if s.len() > 31 {
        let (head, _) = s.split_at(31);
        proof {
            encode_utf8_decode_utf8(head@);
            assert(s@ == ap.ssid@);
            assert(head.spec_bytes() == encode_utf8(head@));
            assert(encode_utf8(head@) =~= encode_utf8(ap.ssid@).subrange(0, 31));
            assert(head@ == shown_ssid(ap.ssid@));
        }
        head
    } else {
        proof {
            assert(s@ == ap.ssid@);
            assert(s.spec_bytes().len() <= 31);
        }
        s
    };
    assert(shown@ == shown_ssid(ap.ssid@));
    push_padded_right(out, shown, 31);
    push_all(out, " | ");
    let sig = signed_decimal_string(ap.signal_strength);
    push_padded_left(out, sig.as_str(), 4);
    push_all(out, " | ");
    let ch = decimal_string(ap.channel as u64);
    push_padded_left(out, ch.as_str(), 2);
    push_all(out, "\r\n");
    assert(out@ =~= old(out)@ + scan_row(*ap));
}

/// The reply to `wifi_scan` after its first line, from the scan's
/// outcome, the error given as the text it displays as.
pub fn scan_text(result: &Result<Vec<AccessPoint>, String>) -> (res: String)
    requires
        result matches Ok(aps) ==> forall|i: int|
            0 <= i < aps@.len() ==> ssid_cut_ok(#[trigger] aps@[i]),
    ensures
        res@ == scan_reply(scan_view(*result)),
{
    match result {
        Err(e) => {
            let mut r = owned("\r\nScan failed: ");
            push_all(&mut r, e.as_str());
            r
        },
        Ok(aps) => {
            if aps.len() == 0 {
                return owned("\r\nNo networks found");
            }
            let mut r = owned("\r\nFound ");
            push_decimal(&mut r, aps.len() as u64);
            push_all(&mut r, " networks:\r\n\r\n");
            push_all(&mut r, SCAN_HEADER);
            push_all(&mut r, SCAN_RULE);
            let ghost head = r@;
            let mut i: usize = 0;
            while i < aps.len()
                invariant
                    i <= aps@.len(),
                    forall|k: int| 0 <= k < aps@.len() ==> ssid_cut_ok(#[trigger] aps@[k]),
                    r@ == head + scan_rows(aps@.take(i as int)),
                decreases aps@.len() - i,
            {
                push_scan_row(&mut r, &aps[i]);
                i = i + 1;
                assert(aps@.take(i as int).drop_last() =~= aps@.take(i - 1));
                assert(r@ =~= head + scan_rows(aps@.take(i as int)));
            }
            assert(aps@.take(i as int) =~= aps@);
            r
        },
    }
}

pub open spec fn mqtt_publish_reply(topic: Seq<char>, message: Seq<char>, result: Result<
    (),
    Seq<char>,
>) -> Seq<char> {
    match result {
        Ok(_) => "Published to "@ + topic + ": "@ + message,
        Err(e) => "MQTT publish failed: "@ + e,
    }
}

/// The reply to `mqtt_publish` once the message was handed to the client.
pub fn mqtt_publish_text(topic: &str, message: &str, result: &Result<(), String>) -> (res: String)
    ensures
        res@ == mqtt_publish_reply(topic@, message@, result_text(*result)),
{
    match result {
        Ok(_) => {
            let mut r = owned("Published to ");
            push_all(&mut r, topic);
            push_all(&mut r, ": ");
            push_all(&mut r, message);
            r
        },
        Err(e) => {
            let mut r = owned("MQTT publish failed: ");
            push_all(&mut r, e.as_str());
            r
        },
    }
}

pub open spec fn subscription_lines(subs: Seq<String>) -> Seq<char>
    decreases subs.len(),
{
    if subs.len() == 0 {
        seq![]
    } else {
        subscription_lines(subs.drop_last()) + "    - "@ + subs.last()@ + "\r\n"@
    }
}

pub open spec fn mqtt_status_head(s: MqttStatus, publishing: bool) -> Seq<char> {
    "MQTT Status:\r\n"@ + "  Connection: "@ + (if s.connected {
        "✅ Connected"@
    } else {
        "❌ Disconnected"@
    }) + "\r\n"@ + "  Broker: "@ + s.broker_url@ + "\r\n"@ + "  Client ID: "@ + s.client_id@
        + "\r\n"@ + "  Publishing: "@ + (if publishing {
        "✅ Enabled"@
    } else {
        "❌ Disabled"@
    }) + "\r\n"@ + "  Subscriptions ("@ + decimal(s.subscriptions@.len()) + "):\r\n"@
}

pub open spec fn mqtt_status_tail(s: MqttStatus) -> Seq<char> {
    "  Published: "@ + decimal(s.publish_count as nat) + " messages\r\n"@ + "  Received: "@
        + decimal(s.receive_count as nat) + " messages\r\n"@ + (if s.last_published_topic@.len()
        > 0 {
        "  Last published: "@ + s.last_published_topic@ + "\r\n"@
    } else {
        seq![]
    }) + (if s.last_received_topic@.len() > 0 {
        "  Last received: "@ + s.last_received_topic@ + " = "@ + s.last_received_message@
    } else {
        seq![]
    })
}

/// The MQTT status reply: connection, broker, client id, whether commands
/// publish, the subscriptions one per line, the counts, and the last topics.
pub open spec fn mqtt_status_reply(s: MqttStatus, publishing: bool) -> Seq<char> {
    mqtt_status_head(s, publishing) + subscription_lines(s.subscriptions@) + mqtt_status_tail(s)
}

fn push_mqtt_status_head(out: &mut String, s: &MqttStatus, publishing: bool)
    ensures
        final(out)@ == old(out)@ + mqtt_status_head(*s, publishing),
{
    push_all(out, "MQTT Status:\r\n");
    push_all(out, "  Connection: ");
    push_all(
        out,
        if s.connected {
            "✅ Connected"
        } else {
            "❌ Disconnected"
        },
    );
    push_all(out, "\r\n");
    push_all(out, "  Broker: ");
    push_all(out, s.broker_url.as_str());
    push_all(out, "\r\n");
    push_all(out, "  Client ID: ");
    push_all(out, s.client_id.as_str());
    push_all(out, "\r\n");
    push_all(out, "  Publishing: ");
    push_all(
        out,
        if publishing {
            "✅ Enabled"
        } else {
            "❌ Disabled"
        },
    );
    push_all(out, "\r\n");
    push_all(out, "  Subscriptions (");
    push_decimal(out, s.subscriptions.len() as u64);
    push_all(out, "):\r\n");
    assert(out@ =~= old(out)@ + mqtt_status_head(*s, publishing));
}

fn push_mqtt_status_tail(out: &mut String, s: &MqttStatus)
    ensures
        final(out)@ == old(out)@ + mqtt_status_tail(*s),
{
    push_all(out, "  Published: ");
    push_decimal(out, s.publish_count as u64);
    push_all(out, " messages\r\n");
    push_all(out, "  Received: ");
    push_decimal(out, s.receive_count as u64);
    push_all(out, " messages\r\n");
    let ghost mid = out@;
    if !s.last_published_topic.as_str().is_empty() {
        push_all(out, "  Last published: ");
        push_all(out, s.last_published_topic.as_str());
        push_all(out, "\r\n");
    }
    let ghost mid2 = out@;
    if !s.last_received_topic.as_str().is_empty() {
        push_all(out, "  Last received: ");
        push_all(out, s.last_received_topic.as_str());
        push_all(out, " = ");
        push_all(out, s.last_received_message.as_str());
    }
    assert(out@ =~= old(out)@ + mqtt_status_tail(*s));
}

impl<W, M, L> CommandHandler<W, M, L> {
    /// The reply to `mqtt_status` from the client's status.
    pub fn mqtt_status_text(&self, status: &MqttStatus) -> (res: String)
        ensures
            res@ == mqtt_status_reply(*status, self.state().publishing),
    {
        let mut r = String::new();
        push_mqtt_status_head(&mut r, status, self.mqtt_publishing_enabled);
        let ghost head = r@;
        let mut i: usize = 0;
        while i < status.subscriptions.len()
            invariant
                i <= status.subscriptions@.len(),
                r@ == head + subscription_lines(status.subscriptions@.take(i as int)),
            decreases status.subscriptions@.len() - i,
        {
            push_all(&mut r, "    - ");
            push_all(&mut r, status.subscriptions[i].as_str());
            push_all(&mut r, "\r\n");
            i = i + 1;
            assert(status.subscriptions@.take(i as int).drop_last() =~= status.subscriptions@.take(
                i - 1,
            ));
            assert(r@ =~= head + subscription_lines(status.subscriptions@.take(i as int)));
        }
        assert(status.subscriptions@.take(i as int) =~= status.subscriptions@);
        push_mqtt_status_tail(&mut r, status);
        assert(r@ =~= mqtt_status_reply(*status, self.state().publishing));
        r
    }
}

} // verus!
