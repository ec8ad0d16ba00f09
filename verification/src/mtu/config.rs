use crate::bounded::{message_bytes, message_new, message_push_str};
use crate::uart_format::UartFormat;
use vstd::prelude::*;
use vstd::string::StringSliceAdditionalSpecFns;

verus! {

/// The reply a meter gives by default, which the reader expects.
pub const DEFAULT_METER_MESSAGE: &'static str =
    "V;RB00000200;IB61564400;A1000;Z3214;XT0746;MT0683;RR00000000;GX000000;GN000000\r";

#[derive(Debug, Clone)]
pub struct MtuConfig {
    /// Baud rate for communication
    pub baud_rate: u32,
    /// Power-up delay before starting clock cycles (ms)
    pub power_up_delay_ms: u64,
    /// Bit timeout for incomplete frames (ms)
    pub bit_timeout_ms: u64,
    /// Maximum runtime for MTU operation (seconds)
    pub runtime_secs: u64,
    /// UART framing configuration (7E1, 7E2, 8N1, 8E1, 7O1, 8N2)
    pub uart_format: UartFormat,
    /// Expected message for testing (default is meter's default response)
    pub expected_message: heapless::String<256>,
    /// Running count of successful message reads
    pub successful_reads: u32,
    /// Running count of corrupted/failed message reads
    pub corrupted_reads: u32,
}

/// Frame layouts of the two meter families (superseded by `UartFormat`).
#[derive(Debug, Clone, Copy, PartialEq, Eq, Structural)]
pub enum UartFraming {
    /// 7 data bits, even parity, 1 stop bit (Sensus Standard)
    SevenE1,
    /// 7 data bits, even parity, 2 stop bits (Neptune)
    SevenE2,
}

impl UartFraming {
    pub fn bits_per_frame(self) -> (res: usize)
        ensures
            res == match self {
                UartFraming::SevenE1 => 10usize,
                UartFraming::SevenE2 => 11usize,
            },
    {
        match self {
            UartFraming::SevenE1 => 10,  // 1 start + 7 data + 1 parity + 1 stop
            UartFraming::SevenE2 => 11,  // 1 start + 7 data + 1 parity + 2 stop
        }
    }
}

impl MtuConfig {
    /// Calculate bit duration in microseconds from baud rate
    pub fn bit_duration_micros(&self) -> (res: u64)
        requires
            self.baud_rate > 0,
        ensures
            res == 1_000_000u64 / (self.baud_rate as u64),
    {
        1_000_000 / self.baud_rate as u64
    }

    /// Calculate bit duration in milliseconds
    pub fn bit_duration_millis(&self) -> (res: u64)
        requires
            self.baud_rate > 0,
        ensures
            res == 1_000u64 / (self.baud_rate as u64),
    {
        1_000 / self.baud_rate as u64
    }
}

impl Default for MtuConfig {
    /// 1200 baud, 7E1, 10 ms power-up, 2 s bit timeout, 30 s runtime, the
    /// meter's default reply expected, no reads counted.
    fn default() -> (res: Self)
        ensures
            res.baud_rate == 1200,
            res.power_up_delay_ms == 10,
            res.bit_timeout_ms == 2000,
            res.runtime_secs == 30,
            res.uart_format == UartFormat::Format7E1,
            message_bytes(res.expected_message) == (if DEFAULT_METER_MESSAGE.spec_bytes().len()
                <= 256 {
                DEFAULT_METER_MESSAGE.spec_bytes()
            } else {
                Seq::<u8>::empty()
            }),
            res.successful_reads == 0,
            res.corrupted_reads == 0,
    {
        let mut expected_message = message_new();
        let _ = message_push_str(&mut expected_message, DEFAULT_METER_MESSAGE);
        MtuConfig {
            baud_rate: 1200,
            power_up_delay_ms: 10,
            bit_timeout_ms: 2000,
            runtime_secs: 30,
            uart_format: UartFormat::Format7E1,
            expected_message,
            successful_reads: 0,
            corrupted_reads: 0,
        }
    }
}

} // verus!
