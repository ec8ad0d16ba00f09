//! Command-line interface: the command type, its parser, the line editor
//! and the command handlers.
use vstd::prelude::*;

pub mod commands;
pub mod line_editor;
pub mod meter_commands;
pub mod parser;

verus! {

/// Capacity of the line buffer, the terminating position included.
pub const CLI_BUFFER_SIZE: usize = 128;

/// Number of commands the history keeps.
pub const MAX_HISTORY_SIZE: usize = 10;

#[derive(Debug, Clone)]
pub enum CliCommand {
    // System commands
    Help,
    Version,
    Status,
    Uptime,
    Clear,
    Reset,
    Echo(String),
    // LED commands
    LedOn,
    LedOff,
    /// duration_us, period_us, brightness_percent
    LedPulse(u32, u32, u8),
    LedStatus,
    /// frequency_hz
    LedBlink(u32),
    // WiFi commands
    /// ssid, password (no value = use the stored default)
    WifiConnect(Option<String>, Option<String>),
    WifiStatus,
    /// Reconnect using stored credentials
    WifiReconnect,
    /// Scan for available WiFi networks
    WifiScan,
    // MQTT commands
    MqttStatus,
    /// topic, message
    MqttPublish(String, String),
    MqttEnable,
    MqttDisable,
    // Other
    Empty,
    /// Invalid parameters/syntax for a known command
    InvalidSyntax(String),
    /// Completely unknown command
    Unknown(String),
}

/// A `CliCommand` with its texts as character sequences.
pub enum CliCommandView {
    Help,
    Version,
    Status,
    Uptime,
    Clear,
    Reset,
    Echo(Seq<char>),
    LedOn,
    LedOff,
    LedPulse(u32, u32, u8),
    LedStatus,
    LedBlink(u32),
    WifiConnect(Option<Seq<char>>, Option<Seq<char>>),
    WifiStatus,
    WifiReconnect,
    WifiScan,
    MqttStatus,
    MqttPublish(Seq<char>, Seq<char>),
    MqttEnable,
    MqttDisable,
    Empty,
    InvalidSyntax(Seq<char>),
    Unknown(Seq<char>),
}

pub open spec fn opt_text(s: Option<String>) -> Option<Seq<char>> {
    match s {
        Some(t) => Some(t@),
        None => None,
    }
}

impl View for CliCommand {
    type V = CliCommandView;

    open spec fn view(&self) -> CliCommandView {
        match self {
            CliCommand::Help => CliCommandView::Help,
            CliCommand::Version => CliCommandView::Version,
            CliCommand::Status => CliCommandView::Status,
            CliCommand::Uptime => CliCommandView::Uptime,
            CliCommand::Clear => CliCommandView::Clear,
            CliCommand::Reset => CliCommandView::Reset,
            CliCommand::Echo(s) => CliCommandView::Echo(s@),
            CliCommand::LedOn => CliCommandView::LedOn,
            CliCommand::LedOff => CliCommandView::LedOff,
            CliCommand::LedPulse(d, p, b) => CliCommandView::LedPulse(*d, *p, *b),
            CliCommand::LedStatus => CliCommandView::LedStatus,
            CliCommand::LedBlink(f) => CliCommandView::LedBlink(*f),
            CliCommand::WifiConnect(s, p) => CliCommandView::WifiConnect(
                opt_text(*s),
                opt_text(*p),
            ),
            CliCommand::WifiStatus => CliCommandView::WifiStatus,
            CliCommand::WifiReconnect => CliCommandView::WifiReconnect,
            CliCommand::WifiScan => CliCommandView::WifiScan,
            CliCommand::MqttStatus => CliCommandView::MqttStatus,
            CliCommand::MqttPublish(t, m) => CliCommandView::MqttPublish(t@, m@),
            CliCommand::MqttEnable => CliCommandView::MqttEnable,
            CliCommand::MqttDisable => CliCommandView::MqttDisable,
            CliCommand::Empty => CliCommandView::Empty,
            CliCommand::InvalidSyntax(s) => CliCommandView::InvalidSyntax(s@),
            CliCommand::Unknown(s) => CliCommandView::Unknown(s@),
        }
    }
}

#[derive(Debug, Clone, Copy, PartialEq, Eq, Structural)]
pub enum CliError {
    InvalidCommand,
    InvalidArgument,
    UartError,
    BufferFull,
}

pub open spec fn cli_error_text(e: CliError) -> Seq<char> {
    match e {
        CliError::InvalidCommand => "Invalid command"@,
        CliError::InvalidArgument => "Invalid argument"@,
        CliError::UartError => "UART error"@,
        CliError::BufferFull => "Buffer full"@,
    }
}

impl CliError {
    /// The text the error displays as.
    pub fn message(&self) -> (res: &'static str)
        ensures
            res@ == cli_error_text(*self),
    {
        match self {
            CliError::InvalidCommand => "Invalid command",
            CliError::InvalidArgument => "Invalid argument",
            CliError::UartError => "UART error",
            CliError::BufferFull => "Buffer full",
        }
    }
}

} // verus!

