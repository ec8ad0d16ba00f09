//! The decisions of the reader's worker thread: which command to carry
//! out, how the clock timer is set, what each timer phase does, and how a
//! finished read is counted.
use super::config::MtuConfig;
use super::error::MtuResult;
use crate::uart_format::UartFormat;
use vstd::prelude::*;

verus! {

/// Commands that can be sent to the MTU background thread
#[derive(Debug, Clone, Copy, PartialEq, Eq, Structural)]
pub enum MtuCommand {
    /// Start MTU operation for specified duration in seconds
    Start { duration_secs: u64 },
    /// Stop MTU operation immediately
    Stop,
    /// Set MTU baud rate (must be stopped to change)
    SetBaudRate { baud_rate: u32 },
    /// Set UART frame format (must be stopped to change)
    SetUartFormat { format: UartFormat },
}

/// Highest baud rate the reader accepts.
pub const MAX_BAUD_RATE: u32 = 115200;

/// What the worker does for a command.
#[derive(Debug, Clone, Copy, PartialEq, Eq, Structural)]
pub enum MtuPlan {
    /// Run a read for this many seconds.
    Run(u64),
    /// Stop the running read and power the meter off.
    Halt,
    /// Store this baud rate.
    ApplyBaudRate(u32),
    /// Store this frame format.
    ApplyFormat(UartFormat),
    /// Refuse: settings cannot change while a read runs.
    RefuseWhileRunning,
    /// Refuse: the baud rate is outside 1..=115200.
    RefuseBaudRate(u32),
}

pub open spec fn command_plan(cmd: MtuCommand, running: bool) -> MtuPlan {
    match cmd {
        MtuCommand::Start { duration_secs } => MtuPlan::Run(duration_secs),
        MtuCommand::Stop => MtuPlan::Halt,
        MtuCommand::SetBaudRate { baud_rate } => if running {
            MtuPlan::RefuseWhileRunning
        } else if 1 <= baud_rate <= MAX_BAUD_RATE {
            MtuPlan::ApplyBaudRate(baud_rate)
        } else {
            MtuPlan::RefuseBaudRate(baud_rate)
        },
        MtuCommand::SetUartFormat { format } => if running {
            MtuPlan::RefuseWhileRunning
        } else {
            MtuPlan::ApplyFormat(format)
        },
    }
}

/// Settings change only while no read runs: a format change is carried
/// out exactly when the reader is stopped and refused exactly when a read
/// runs; a baud rate change is carried out exactly when the reader is
/// stopped and the rate lies in 1..=115200.  Starting and stopping are
/// always carried out.
pub proof fn lemma_settings_change_only_when_stopped(
    format: UartFormat,
    baud_rate: u32,
    running: bool,
    duration_secs: u64,
)
    ensures
        (command_plan(MtuCommand::SetUartFormat { format }, running) == MtuPlan::ApplyFormat(format))
            <==> !running,
        (command_plan(MtuCommand::SetUartFormat { format }, running) == MtuPlan::RefuseWhileRunning)
            <==> running,
        (command_plan(MtuCommand::SetBaudRate { baud_rate }, running) == MtuPlan::ApplyBaudRate(
            baud_rate,
        )) <==> (!running && 1 <= baud_rate <= 115200),
        running ==> command_plan(MtuCommand::SetBaudRate { baud_rate }, running)
            == MtuPlan::RefuseWhileRunning,
        command_plan(MtuCommand::Start { duration_secs }, running) == MtuPlan::Run(duration_secs),
        command_plan(MtuCommand::Stop, running) == MtuPlan::Halt,
{
}

/// The worker's decision for a command, given whether a read is running.
pub fn plan_command(cmd: MtuCommand, running: bool) -> (res: MtuPlan)
    ensures
        res == command_plan(cmd, running),
{
    match cmd {
        MtuCommand::Start { duration_secs } => MtuPlan::Run(duration_secs),
        MtuCommand::Stop => MtuPlan::Halt,
        MtuCommand::SetBaudRate { baud_rate } => {
            if running {
                MtuPlan::RefuseWhileRunning
            } else if 1 <= baud_rate && baud_rate <= MAX_BAUD_RATE {
                MtuPlan::ApplyBaudRate(baud_rate)
            } else {
                MtuPlan::RefuseBaudRate(baud_rate)
            }
        },
        MtuCommand::SetUartFormat { format } => {
            if running {
                MtuPlan::RefuseWhileRunning
            } else {
                MtuPlan::ApplyFormat(format)
            }
        },
    }
}

/// Carries out a plan's effect on the configuration: an accepted baud
/// rate or format is stored; other plans leave it unchanged.
pub fn apply_plan(config: &mut MtuConfig, plan: MtuPlan)
    ensures
        final(config).baud_rate == (match plan {
            MtuPlan::ApplyBaudRate(b) => b,
            _ => old(config).baud_rate,
        }),
        final(config).uart_format == (match plan {
            MtuPlan::ApplyFormat(f) => f,
            _ => old(config).uart_format,
        }),
        final(config).successful_reads == old(config).successful_reads,
        final(config).corrupted_reads == old(config).corrupted_reads,
        final(config).power_up_delay_ms == old(config).power_up_delay_ms,
        final(config).runtime_secs == old(config).runtime_secs,
{
    match plan {
        MtuPlan::ApplyBaudRate(b) => {
            config.baud_rate = b;
        },
        MtuPlan::ApplyFormat(f) => {
            config.uart_format = f;
        },
        _ => {},
    }
}

/// Timer ticks between alarms: four alarms per bit (clock high, wait,
/// clock low, sample), so the alarm rate is four times the baud rate.
pub fn alarm_ticks(tick_hz: u64, baud_rate: u32) -> (res: u64)
    requires
        baud_rate > 0,
        baud_rate * 4 <= u32::MAX,
    ensures
        res == tick_hz / ((baud_rate * 4) as u64),
{
    let timer_freq_hz = baud_rate * 4;
    tick_hz / timer_freq_hz as u64
}

/// What the GPIO task does at each timer phase.
#[derive(Debug, Clone, Copy, PartialEq, Eq, Structural)]
pub enum PhaseAction {
    /// Phase 0: clock high (rising edge).
    ClockHigh,
    /// Phase 1: middle of the high phase, nothing to do.
    Wait,
    /// Phase 2: clock low (falling edge).
    ClockLow,
    /// Phase 3: sample the data line.
    Sample,
}

pub open spec fn phase_action_of(phase: u32) -> Option<PhaseAction> {
    if phase == 0 {
        Some(PhaseAction::ClockHigh)
    } else if phase == 1 {
        Some(PhaseAction::Wait)
    } else if phase == 2 {
        Some(PhaseAction::ClockLow)
    } else if phase == 3 {
        Some(PhaseAction::Sample)
    } else {
        None
    }
}

/// The phase the timer interrupt signals for its `cycle`-th alarm: the
/// notification value `cycle % 4 + 1`, which the task maps back to a phase.
pub fn notification_for_cycle(cycle: usize) -> (res: u32)
    ensures
        res == (cycle % 4) + 1,
        1 <= res <= 4,
{
    ((cycle % 4) as u32) + 1
}

/// The action for a notification value (phase + 1) received by the task.
pub fn phase_action(notification: u32) -> (res: Option<PhaseAction>)
    requires
        notification >= 1,
    ensures
        res == phase_action_of((notification - 1) as u32),
{
    let phase = notification - 1;
    if phase == 0 {
        Some(PhaseAction::ClockHigh)
    } else if phase == 1 {
        Some(PhaseAction::Wait)
    } else if phase == 2 {
        Some(PhaseAction::ClockLow)
    } else if phase == 3 {
        Some(PhaseAction::Sample)
    } else {
        None
    }
}

/// The bit a data-line level stands for.
pub fn sample_bit(level_high: bool) -> (res: u8)
    ensures
        res == (if level_high {
            1u8
        } else {
            0u8
        }),
{
    if level_high {
        1
    } else {
        0
    }
}

/// Counts a finished read: a message received without frame errors is a
/// successful read; frame errors or no message make a corrupted read.
pub fn record_outcome(config: &mut MtuConfig, frame_errors: usize, message_received: bool)
    requires
        old(config).successful_reads < u32::MAX,
        old(config).corrupted_reads < u32::MAX,
    ensures
        (message_received && frame_errors == 0) ==> final(config).successful_reads == old(
            config,
        ).successful_reads + 1 && final(config).corrupted_reads == old(config).corrupted_reads,
        !(message_received && frame_errors == 0) ==> final(config).corrupted_reads == old(
            config,
        ).corrupted_reads + 1 && final(config).successful_reads == old(config).successful_reads,
        final(config).baud_rate == old(config).baud_rate,
        final(config).uart_format == old(config).uart_format,
{
    let is_corrupted = frame_errors > 0 || !message_received;
    if message_received {
        if is_corrupted {
            config.corrupted_reads = config.corrupted_reads + 1;
        } else {
            config.successful_reads = config.successful_reads + 1;
        }
    } else {
        config.corrupted_reads = config.corrupted_reads + 1;
    }
}

/// Ends a read.  When the read ran to its end with `(message,
/// frame_errors)` as its framing outcome, the reader is no longer running,
/// the outcome is counted (see `record_outcome`) and a received message
/// becomes the last message; when it failed part-way, nothing is counted
/// and the running flag is left as the failed read left it.
pub fn end_read(
    config: &mut MtuConfig,
    running: &mut bool,
    last_message: &mut Option<heapless::String<256>>,
    outcome: MtuResult<(Option<heapless::String<256>>, usize)>,
)
    requires
        old(config).successful_reads < u32::MAX,
        old(config).corrupted_reads < u32::MAX,
    ensures
        outcome is Ok ==> !*final(running),
        outcome is Err ==> *final(running) == *old(running),
        final(config).baud_rate == old(config).baud_rate,
        final(config).uart_format == old(config).uart_format,
        match outcome {
            Ok((message, frame_errors)) => {
                &&& (message is Some && frame_errors == 0) ==> final(config).successful_reads == old(
                    config,
                ).successful_reads + 1 && final(config).corrupted_reads == old(
                    config,
                ).corrupted_reads
                &&& !(message is Some && frame_errors == 0) ==> final(config).corrupted_reads
                    == old(config).corrupted_reads + 1 && final(config).successful_reads == old(
                    config,
                ).successful_reads
                &&& *final(last_message) == (if message is Some {
                    message
                } else {
                    *old(last_message)
                })
            },
            Err(_) => {
                &&& final(config).successful_reads == old(config).successful_reads
                &&& final(config).corrupted_reads == old(config).corrupted_reads
                &&& *final(last_message) == *old(last_message)
            },
        },
{
    if let Ok((message, frame_errors)) = outcome {
        *running = false;
        record_outcome(config, frame_errors, message.is_some());
        if message.is_some() {
            *last_message = message;
        }
    }
}

/// Clears the read counters.
pub fn reset_counts(config: &mut MtuConfig)
    ensures
        final(config).successful_reads == 0,
        final(config).corrupted_reads == 0,
        final(config).baud_rate == old(config).baud_rate,
        final(config).uart_format == old(config).uart_format,
{
    config.successful_reads = 0;
    config.corrupted_reads = 0;
}

} // verus!
