//! The command handler of the water-meter simulator: what each command
//! answers and what it asks of the meter, which the caller drives.
use super::commands::{uptime_string, uptime_text};
use crate::bounded::{message_as_str, message_bytes, message_new, message_push_str};
use crate::meter::config::{MeterConfig, MeterType};
use crate::text::{decimal, owned, push_all, push_decimal};
use crate::uart_format::{format_from_name, format_name, UartFormat};
use vstd::prelude::*;
use vstd::string::StringSliceAdditionalSpecFns;
use vstd::utf8::{decode_utf8, encode_utf8, encode_utf8_decode_utf8};

verus! {

/// A command of the meter simulator's command line.
pub enum MeterCommand {
    Empty,
    Help,
    Version,
    Status,
    Uptime,
    Clear,
    Reset,
    Enable,
    Disable,
    SetType(MeterType),
    SetMessage(String),
    SetFormat(String),
    Unknown(String),
}

pub enum MeterCommandView {
    Empty,
    Help,
    Version,
    Status,
    Uptime,
    Clear,
    Reset,
    Enable,
    Disable,
    SetType(MeterType),
    SetMessage(Seq<char>),
    SetFormat(Seq<char>),
    Unknown(Seq<char>),
}

impl View for MeterCommand {
    type V = MeterCommandView;

    open spec fn view(&self) -> MeterCommandView {
        match self {
            MeterCommand::Empty => MeterCommandView::Empty,
            MeterCommand::Help => MeterCommandView::Help,
            MeterCommand::Version => MeterCommandView::Version,
            MeterCommand::Status => MeterCommandView::Status,
            MeterCommand::Uptime => MeterCommandView::Uptime,
            MeterCommand::Clear => MeterCommandView::Clear,
            MeterCommand::Reset => MeterCommandView::Reset,
            MeterCommand::Enable => MeterCommandView::Enable,
            MeterCommand::Disable => MeterCommandView::Disable,
            MeterCommand::SetType(t) => MeterCommandView::SetType(*t),
            MeterCommand::SetMessage(s) => MeterCommandView::SetMessage(s@),
            MeterCommand::SetFormat(s) => MeterCommandView::SetFormat(s@),
            MeterCommand::Unknown(s) => MeterCommandView::Unknown(s@),
        }
    }
}

/// What the caller is to do with the meter.
pub enum MeterAction {
    Nothing,
    /// Restart the system.
    Reset,
    /// Report the meter's status; the reply is `meter_status_text`.
    Report,
    Enable,
    Disable,
    SetType(MeterType),
    SetMessage(heapless::String<256>),
    SetFormat(UartFormat),
}

/// A `MeterAction` with the message as its bytes.
pub enum MeterActionView {
    Nothing,
    Reset,
    Report,
    Enable,
    Disable,
    SetType(MeterType),
    SetMessage(Seq<u8>),
    SetFormat(UartFormat),
}

impl View for MeterAction {
    type V = MeterActionView;

    open spec fn view(&self) -> MeterActionView {
        match self {
            MeterAction::Nothing => MeterActionView::Nothing,
            MeterAction::Reset => MeterActionView::Reset,
            MeterAction::Report => MeterActionView::Report,
            MeterAction::Enable => MeterActionView::Enable,
            MeterAction::Disable => MeterActionView::Disable,
            MeterAction::SetType(t) => MeterActionView::SetType(*t),
            MeterAction::SetMessage(m) => MeterActionView::SetMessage(message_bytes(*m)),
            MeterAction::SetFormat(f) => MeterActionView::SetFormat(*f),
        }
    }
}

/// The reply to a command and the action it asks for.
pub struct MeterOutcome {
    pub response: String,
    pub action: MeterAction,
}

pub const METER_VERSION_TEXT: &'static str = "ESP32 Water Meter Simulator v1.0.0\r\nBuilt with ESP-IDF";

/// How the reply names a meter type.
pub open spec fn meter_type_text(t: MeterType) -> Seq<char> {
    match t {
        MeterType::Sensus => "Sensus (7E1: 7 data + even parity + 1 stop)"@,
        MeterType::Neptune => "Neptune (7E2: 7 data + even parity + 2 stop)"@,
    }
}

pub open spec fn not_configured() -> (Seq<char>, MeterActionView) {
    ("Meter not configured"@, MeterActionView::Nothing)
}

/// The reply and the action of a command, given whether a meter is
/// attached and the uptime in seconds.
pub open spec fn meter_outcome(has_meter: bool, cmd: MeterCommandView, uptime: u64) -> (
    Seq<char>,
    MeterActionView,
) {
    match cmd {
        MeterCommandView::Empty => (seq![], MeterActionView::Nothing),
        MeterCommandView::Help => ("Help displayed"@, MeterActionView::Nothing),
        MeterCommandView::Version => (METER_VERSION_TEXT@, MeterActionView::Nothing),
        MeterCommandView::Status => if has_meter {
            (seq![], MeterActionView::Report)
        } else {
            not_configured()
        },
        MeterCommandView::Uptime => (uptime_text(uptime as nat), MeterActionView::Nothing),
        MeterCommandView::Clear => ("Screen cleared"@, MeterActionView::Nothing),
        MeterCommandView::Reset => ("Resetting system..."@, MeterActionView::Reset),
        MeterCommandView::Enable => if has_meter {
            ("Meter enabled - will respond to clock signals"@, MeterActionView::Enable)
        } else {
            not_configured()
        },
        MeterCommandView::Disable => if has_meter {
            ("Meter disabled - will not respond to clock signals"@, MeterActionView::Disable)
        } else {
            not_configured()
        },
        MeterCommandView::SetType(t) => if has_meter {
            ("Meter type set to: "@ + meter_type_text(t), MeterActionView::SetType(t))
        } else {
            not_configured()
        },
        MeterCommandView::SetMessage(text) => if has_meter {
            let bytes = encode_utf8(text);
            if bytes.len() <= 256 {
                (
                    "Meter message set to: '"@ + text + "' ("@ + decimal(bytes.len()) + " characters)"@,
                    MeterActionView::SetMessage(bytes),
                )
            } else {
                ("Error: Message too long (max 256 characters)"@, MeterActionView::Nothing)
            }
        } else {
            not_configured()
        },
        MeterCommandView::SetFormat(name) => if has_meter {
            match format_from_name(name) {
                Some(f) => ("Meter UART format set to: "@ + name, MeterActionView::SetFormat(f)),
                None => ("Invalid UART format"@, MeterActionView::Nothing),
            }
        } else {
            not_configured()
        },
        MeterCommandView::Unknown(msg) => (msg, MeterActionView::Nothing),
    }
}

/// With a meter attached, `enable` asks for the meter to be enabled and
/// `disable` for it to be disabled, and a new type is handed on as given;
/// without a meter, no command but `reset` asks anything of the devices.
pub proof fn lemma_meter_commands_reach_meter(cmd: MeterCommandView, t: MeterType, u: u64)
    ensures
        meter_outcome(true, MeterCommandView::Enable, u).1 == MeterActionView::Enable,
        meter_outcome(true, MeterCommandView::Disable, u).1 == MeterActionView::Disable,
        meter_outcome(true, MeterCommandView::SetType(t), u).1 == MeterActionView::SetType(t),
        meter_outcome(true, MeterCommandView::Status, u).1 == MeterActionView::Report,
        !(cmd is Reset) ==> meter_outcome(false, cmd, u).1 == MeterActionView::Nothing,
{
}

pub struct MeterCommandHandler<M> {
    start_time: std::time::Instant,
    meter: Option<M>,
}

fn reply(text: &str) -> (res: MeterOutcome)
    ensures
        res.response@ == text@,
        res.action@ == MeterActionView::Nothing,
{
    MeterOutcome { response: owned(text), action: MeterAction::Nothing }
}

impl<M> Default for MeterCommandHandler<M> {
    fn default() -> (res: Self)
        ensures
            res.meter() is None,
    {
        Self::new()
    }
}

impl<M> MeterCommandHandler<M> {
    /// The attached meter.
    pub closed spec fn meter(&self) -> Option<M> {
        self.meter
    }

    /// A handler with no meter attached.
    pub fn new() -> (res: Self)
        ensures
            res.meter() is None,
    {
        MeterCommandHandler { start_time: std::time::Instant::now(), meter: None }
    }

    /// The handler with `meter` attached.
    pub fn with_meter(self, meter: M) -> (res: Self)
        ensures
            res.meter() == Some(meter),
    {
        MeterCommandHandler { meter: Some(meter), ..self }
    }

    pub fn meter_ref(&self) -> (res: Option<&M>)
        ensures
            res == match self.meter() {
                Some(m) => Some(&m),
                None => None,
            },
    {
        self.meter.as_ref()
    }

    /// Handles a command with the system up for `uptime_secs`.
    pub fn decide(&self, command: MeterCommand, uptime_secs: u64) -> (res: MeterOutcome)
        ensures
            (res.response@, res.action@) == meter_outcome(
                self.meter() is Some,
                command@,
                uptime_secs,
            ),
    {
        let has_meter = self.meter.is_some();
        match command {
            MeterCommand::Empty => MeterOutcome {
                response: String::new(),
                action: MeterAction::Nothing,
            },
            MeterCommand::Help => reply("Help displayed"),
            MeterCommand::Version => reply(METER_VERSION_TEXT),
            MeterCommand::Status => {
                if !has_meter {
                    return reply("Meter not configured");
                }
                MeterOutcome { response: String::new(), action: MeterAction::Report }
            },
            MeterCommand::Uptime => MeterOutcome {
                response: uptime_string(uptime_secs),
                action: MeterAction::Nothing,
            },
            MeterCommand::Clear => reply("Screen cleared"),
            MeterCommand::Reset => MeterOutcome {
                response: owned("Resetting system..."),
                action: MeterAction::Reset,
            },
            MeterCommand::Enable => {
                if !has_meter {
                    return reply("Meter not configured");
                }
                MeterOutcome {
                    response: owned("Meter enabled - will respond to clock signals"),
                    action: MeterAction::Enable,
                }
            },
            MeterCommand::Disable => {
                if !has_meter {
                    return reply("Meter not configured");
                }
                MeterOutcome {
                    response: owned("Meter disabled - will not respond to clock signals"),
                    action: MeterAction::Disable,
                }
            },
            MeterCommand::SetType(meter_type) => {
                if !has_meter {
                    return reply("Meter not configured");
                }
                let type_str = match meter_type {
                    MeterType::Sensus => "Sensus (7E1: 7 data + even parity + 1 stop)",
                    MeterType::Neptune => "Neptune (7E2: 7 data + even parity + 2 stop)",
                };
                let mut r = owned("Meter type set to: ");
                push_all(&mut r, type_str);
                MeterOutcome { response: r, action: MeterAction::SetType(meter_type) }
            },
            MeterCommand::SetMessage(text) => {
                if !has_meter {
                    return reply("Meter not configured");
                }
                let mut msg = message_new();
                if message_push_str(&mut msg, text.as_str()).is_ok() {
                    let mut r = owned("Meter message set to: '");
                    push_all(&mut r, text.as_str());
                    push_all(&mut r, "' (");
                    push_decimal(&mut r, text.as_str().len() as u64);
                    push_all(&mut r, " characters)");
                    assert(message_bytes(msg) =~= encode_utf8(text@));
                    MeterOutcome { response: r, action: MeterAction::SetMessage(msg) }
                } else {
                    reply("Error: Message too long (max 256 characters)")
                }
            },
            MeterCommand::SetFormat(format_str) => {
                if !has_meter {
                    return reply("Meter not configured");
                }
                match UartFormat::from_str(format_str.as_str()) {
                    Some(format) => {
                        let mut r = owned("Meter UART format set to: ");
                        push_all(&mut r, format_str.as_str());
                        MeterOutcome { response: r, action: MeterAction::SetFormat(format) }
                    },
                    None => reply("Invalid UART format"),
                }
            },
            MeterCommand::Unknown(msg) => MeterOutcome {
                response: msg,
                action: MeterAction::Nothing,
            },
        }
    }

    /// Handles a command now (see `decide`).
    pub fn execute_command(&self, command: MeterCommand) -> (res: MeterOutcome)
        ensures
            exists|u: u64|
                (res.response@, res.action@) == #[trigger] meter_outcome(
                    self.meter() is Some,
                    command@,
                    u,
                ),
    {
        let uptime_secs = crate::clock::elapsed_secs(&self.start_time);
        self.decide(command, uptime_secs)
    }
}

/// How the status reply names a meter type (`{:?}`).
pub open spec fn meter_type_name(t: MeterType) -> Seq<char> {
    match t {
        MeterType::Sensus => "Sensus"@,
        MeterType::Neptune => "Neptune"@,
    }
}

/// The meter's status: its state, type, UART format, pins, message and
/// counts.
pub open spec fn meter_status_reply(
    config: MeterConfig,
    pulses: u64,
    bits: u64,
    messages: u64,
    transmitting: bool,
) -> Seq<char> {
    "Meter Status:\r\n"@ + "  State: "@ + (if config.enabled {
        "Enabled"@
    } else {
        "Disabled"@
    }) + "\r\n"@ + "  Type: "@ + meter_type_name(config.meter_type) + "\r\n"@ + "  UART format: "@
        + format_name(config.uart_format) + "\r\n"@
        + "  Pins: GPIO4 (clock in), GPIO5 (data out)\r\n"@ + "  Message: '"@ + decode_utf8(
        message_bytes(config.response_message),
    ) + "' ("@ + decimal(message_bytes(config.response_message).len()) + " chars)\r\n"@
        + "  Statistics:\r\n"@ + "    Clock pulses: "@ + decimal(pulses as nat) + "\r\n"@
        + "    Bits transmitted: "@ + decimal(bits as nat) + "\r\n"@ + "    Messages sent: "@
        + decimal(messages as nat) + "\r\n"@ + "    Currently transmitting: "@ + (if transmitting {
        "Yes"@
    } else {
        "No"@
    })
}

/// The reply to `status` from the meter's configuration and counts.
pub fn meter_status_text(
    config: &MeterConfig,
    pulses: u64,
    bits: u64,
    messages: u64,
    transmitting: bool,
) -> (res: String)
    ensures
        res@ == meter_status_reply(*config, pulses, bits, messages, transmitting),
{
    let mut r = owned("Meter Status:\r\n");
    push_all(&mut r, "  State: ");
    push_all(
        &mut r,
        if config.enabled {
            "Enabled"
        } else {
            "Disabled"
        },
    );
    push_all(&mut r, "\r\n");
    push_all(&mut r, "  Type: ");
    push_all(
        &mut r,
        match config.meter_type {
            MeterType::Sensus => "Sensus",
            MeterType::Neptune => "Neptune",
        },
    );
    push_all(&mut r, "\r\n");
    push_all(&mut r, "  UART format: ");
    push_all(&mut r, config.uart_format.as_str());
    push_all(&mut r, "\r\n");
    push_all(&mut r, "  Pins: GPIO4 (clock in), GPIO5 (data out)\r\n");
    push_all(&mut r, "  Message: '");
    let m = message_as_str(&config.response_message);
    proof {
        encode_utf8_decode_utf8(m@);
    }
    push_all(&mut r, m);
    push_all(&mut r, "' (");
    push_decimal(&mut r, m.len() as u64);
    push_all(&mut r, " chars)\r\n");
    push_all(&mut r, "  Statistics:\r\n");
    push_all(&mut r, "    Clock pulses: ");
    push_decimal(&mut r, pulses);
    push_all(&mut r, "\r\n");
    push_all(&mut r, "    Bits transmitted: ");
    push_decimal(&mut r, bits);
    push_all(&mut r, "\r\n");
    push_all(&mut r, "    Messages sent: ");
    push_decimal(&mut r, messages);
    push_all(&mut r, "\r\n");
    push_all(&mut r, "    Currently transmitting: ");
    push_all(
        &mut r,
        if transmitting {
            "Yes"
        } else {
            "No"
        },
    );
    assert(r@ =~= meter_status_reply(*config, pulses, bits, messages, transmitting));
    r
}

} // verus!
