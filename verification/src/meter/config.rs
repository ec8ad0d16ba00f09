use crate::bounded::{message_bytes, message_new, message_push_str};
use crate::mtu::config::{UartFraming, DEFAULT_METER_MESSAGE};
use crate::uart_format::UartFormat;
use vstd::prelude::*;
use vstd::string::StringSliceAdditionalSpecFns;

verus! {

#[derive(Debug, Clone, Copy, PartialEq, Eq, Structural)]
pub enum MeterType {
    Sensus,
    Neptune,
}

pub open spec fn meter_default_format(t: MeterType) -> UartFormat {
    match t {
        MeterType::Sensus => UartFormat::Format7E1,
        MeterType::Neptune => UartFormat::Format7E2,
    }
}

impl MeterType {
    /// Get default UART format for this meter type
    pub fn default_format(&self) -> (res: UartFormat)
        ensures
            res == meter_default_format(*self),
    {
        match self {
            MeterType::Sensus => UartFormat::Format7E1,
            MeterType::Neptune => UartFormat::Format7E2,
        }
    }

    /// The frame layout of this meter type (superseded by `default_format`).
    pub fn framing(&self) -> (res: UartFraming)
        ensures
            res == match *self {
                MeterType::Sensus => UartFraming::SevenE1,
                MeterType::Neptune => UartFraming::SevenE2,
            },
    {
        match self {
            MeterType::Sensus => UartFraming::SevenE1,
            MeterType::Neptune => UartFraming::SevenE2,
        }
    }
}

#[derive(Debug, Clone)]
pub struct MeterConfig {
    pub meter_type: MeterType,
    /// UART frame format (7E1, 7E2, 8N1, 8E1, 7O1, 8N2)
    pub uart_format: UartFormat,
    pub response_message: heapless::String<256>,
    pub response_delay_ms: u64,
    pub enabled: bool,
}

impl Default for MeterConfig {
    /// A Sensus meter in 7E1 replying the default message after 50 ms,
    /// enabled.
    fn default() -> (res: Self)
        ensures
            res.meter_type == MeterType::Sensus,
            res.uart_format == UartFormat::Format7E1,
            message_bytes(res.response_message) == (if DEFAULT_METER_MESSAGE.spec_bytes().len()
                <= 256 {
                DEFAULT_METER_MESSAGE.spec_bytes()
            } else {
                Seq::<u8>::empty()
            }),
            res.response_delay_ms == 50,
            res.enabled,
    {
        let mut default_message = message_new();
        let _ = message_push_str(&mut default_message, DEFAULT_METER_MESSAGE);
        let meter_type = MeterType::Sensus;
        MeterConfig {
            meter_type,
            uart_format: meter_type.default_format(),
            response_message: default_message,
            response_delay_ms: 50,
            enabled: true,
        }
    }
}

} // verus!
