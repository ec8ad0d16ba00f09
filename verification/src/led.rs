//! LED pulse patterns: their validation, the per-tick pulse generator that
//! the hardware timer drives, and the status and statistics that a change
//! of pattern resets.  Timestamps are microseconds of a monotonic clock.
use crate::text::{decimal, owned, push_all, push_decimal};
use vstd::prelude::*;

verus! {

/// LED pulse configuration with validation
#[derive(Debug, Clone, Copy, PartialEq, Eq, Structural)]
pub struct PulseConfig {
    /// Duration LED stays ON in microseconds (100us-2s)
    pub duration_us: u32,
    /// Period between pulse starts in microseconds (500us-1h)
    pub period_us: u32,
    /// LED brightness percentage (0-100%)
    pub brightness_percent: u8,
}

/// Minimum pulse duration (100us)
pub const MIN_DURATION_US: u32 = 100;

/// Maximum pulse duration (2 seconds)
pub const MAX_DURATION_US: u32 = 2_000_000;

/// Minimum period (500us)
pub const MIN_PERIOD_US: u32 = 500;

/// Maximum period (1 hour)
pub const MAX_PERIOD_US: u32 = 3_600_000_000;

/// Default brightness (75%)
pub const DEFAULT_BRIGHTNESS: u8 = 75;

/// Full-scale duty of the 13-bit PWM.
pub const MAX_DUTY: u32 = 8191;

/// Resolution of the pulse timer, in microseconds per tick.
pub const TICK_US: u32 = 100;

/// Why a pulse configuration was refused.
#[derive(Debug, Clone, Copy, PartialEq, Eq, Structural)]
pub enum PulseError {
    DurationOutOfRange,
    PeriodOutOfRange,
    DurationNotBelowPeriod,
    BrightnessOutOfRange,
}

/// The message `PulseConfig::new` returns for a refused configuration.
pub open spec fn pulse_error_text(duration_us: u32, period_us: u32, e: PulseError) -> Seq<char> {
    match e {
        PulseError::DurationOutOfRange => "Duration must be between 100us and 2000000us (0ms-2s)"@,
        PulseError::PeriodOutOfRange => "Period must be between 500us and 3600000000us (0ms-1h)"@,
        PulseError::DurationNotBelowPeriod => "Duration ("@ + decimal(duration_us as nat)
            + "us) must be less than period ("@ + decimal(period_us as nat) + "us)"@,
        PulseError::BrightnessOutOfRange => "Brightness must be between 0 and 100%"@,
    }
}

/// The first rule a configuration breaks, checked in order: duration
/// range, period range, duration below period, brightness at most 100.
/// The values are taken as plain integers, so that values from a wider
/// range (such as milliseconds scaled up) are checked the same way.
pub open spec fn pulse_check_values(duration_us: int, period_us: int, brightness_percent: u8) -> Option<
    PulseError,
> {
    if duration_us < MIN_DURATION_US || duration_us > MAX_DURATION_US {
        Some(PulseError::DurationOutOfRange)
    } else if period_us < MIN_PERIOD_US || period_us > MAX_PERIOD_US {
        Some(PulseError::PeriodOutOfRange)
    } else if duration_us >= period_us {
        Some(PulseError::DurationNotBelowPeriod)
    } else if brightness_percent > 100 {
        Some(PulseError::BrightnessOutOfRange)
    } else {
        None
    }
}

/// The first rule a configuration breaks (see `pulse_check_values`).
pub open spec fn pulse_check(duration_us: u32, period_us: u32, brightness_percent: u8) -> Option<
    PulseError,
> {
    pulse_check_values(duration_us as int, period_us as int, brightness_percent)
}

/// A configuration that `PulseConfig::new` accepts.
pub open spec fn pulse_valid(c: PulseConfig) -> bool {
    pulse_check(c.duration_us, c.period_us, c.brightness_percent) is None
}

impl PulseConfig {
    /// Default configuration (500ms / 5s @ 75% brightness)
    pub fn default_config() -> (res: Self)
        ensures
            res == (PulseConfig {
                duration_us: 500_000,
                period_us: 5_000_000,
                brightness_percent: DEFAULT_BRIGHTNESS,
            }),
            pulse_valid(res),
    {
        PulseConfig {
            duration_us: 500_000,
            period_us: 5_000_000,
            brightness_percent: DEFAULT_BRIGHTNESS,
        }
    }

    /// Create new pulse configuration with validation (microseconds)
    pub fn new(duration_us: u32, period_us: u32, brightness_percent: u8) -> (res: Result<
        Self,
        String,
    >)
        ensures
            match res {
                Ok(c) => pulse_check(duration_us, period_us, brightness_percent) is None && c == (
                PulseConfig { duration_us, period_us, brightness_percent }),
                Err(msg) => match pulse_check(duration_us, period_us, brightness_percent) {
                    Some(e) => msg@ == pulse_error_text(duration_us, period_us, e),
                    None => false,
                },
            },
    {
        if duration_us < MIN_DURATION_US || duration_us > MAX_DURATION_US {
            return Err(owned("Duration must be between 100us and 2000000us (0ms-2s)"));
        }
        if period_us < MIN_PERIOD_US || period_us > MAX_PERIOD_US {
            return Err(owned("Period must be between 500us and 3600000000us (0ms-1h)"));
        }
        if duration_us >= period_us {
            let mut msg = owned("Duration (");
            push_decimal(&mut msg, duration_us as u64);
            push_all(&mut msg, "us) must be less than period (");
            push_decimal(&mut msg, period_us as u64);
            push_all(&mut msg, "us)");
            return Err(msg);
        }
        if brightness_percent > 100 {
            return Err(owned("Brightness must be between 0 and 100%"));
        }
        Ok(PulseConfig { duration_us, period_us, brightness_percent })
    }

    /// Helper: Create from milliseconds (for backward compatibility).
    /// The values are scaled to microseconds without overflow, so a value
    /// too large for microseconds is refused by the range checks.
    pub fn new_ms(duration_ms: u32, period_ms: u32, brightness_percent: u8) -> (res: Result<
        Self,
        String,
    >)
        ensures
            match res {
                Ok(c) => pulse_check_values(
                    duration_ms * 1000,
                    period_ms * 1000,
                    brightness_percent,
                ) is None && c == (PulseConfig {
                    duration_us: (duration_ms * 1000) as u32,
                    period_us: (period_ms * 1000) as u32,
                    brightness_percent,
                }),
                Err(msg) => match pulse_check_values(
                    duration_ms * 1000,
                    period_ms * 1000,
                    brightness_percent,
                ) {
                    Some(e) => msg@ == pulse_error_text(
                        (duration_ms * 1000) as u32,
                        (period_ms * 1000) as u32,
                        e,
                    ),
                    None => false,
                },
            },
    {
        let d = duration_ms as u64 * 1000;
        let p = period_ms as u64 * 1000;
        if d < MIN_DURATION_US as u64 || d > MAX_DURATION_US as u64 {
            return Err(owned("Duration must be between 100us and 2000000us (0ms-2s)"));
        }
        if p < MIN_PERIOD_US as u64 || p > MAX_PERIOD_US as u64 {
            return Err(owned("Period must be between 500us and 3600000000us (0ms-1h)"));
        }
        Self::new(d as u32, p as u32, brightness_percent)
    }
}

/// LED status patterns
#[derive(Debug, Clone, Copy, PartialEq, Eq, Structural)]
pub enum LedStatus {
    /// LED off - Idle state
    Off,
    /// Solid on - Always on
    SolidOn,
    /// Custom pulse pattern with configurable timing
    CustomPulse(PulseConfig),
    /// Slow blink (1 Hz)
    SlowBlink,
    /// Fast blink (5 Hz)
    FastBlink,
}

impl Default for LedStatus {
    fn default() -> (res: Self)
        ensures
            res == LedStatus::CustomPulse(
                PulseConfig {
                    duration_us: 500_000,
                    period_us: 5_000_000,
                    brightness_percent: DEFAULT_BRIGHTNESS,
                },
            ),
    {
        LedStatus::CustomPulse(PulseConfig::default_config())
    }
}

/// The duration, period and brightness the pulse timer runs with for a
/// status.  A duration of 0 (off) or `u32::MAX` (solid on) stops pulsing.
pub open spec fn status_params(s: LedStatus) -> (u32, u32, u8) {
    match s {
        LedStatus::Off => (0, 1, 0),
        LedStatus::SolidOn => (u32::MAX, u32::MAX, 100),
        LedStatus::CustomPulse(c) => (c.duration_us, c.period_us, c.brightness_percent),
        LedStatus::SlowBlink => (500_000, 1_000_000, 100),
        LedStatus::FastBlink => (100_000, 200_000, 100),
    }
}

/// PWM duty for a brightness percentage: `8191 * b / 100`.
pub open spec fn duty_for(brightness_percent: u8) -> u32 {
    ((MAX_DUTY * brightness_percent as nat) / 100) as u32
}

/// The duty the LED is set to the moment a status is applied.
pub open spec fn initial_duty(s: LedStatus) -> u32 {
    match s {
        LedStatus::Off => 0,
        LedStatus::CustomPulse(c) => duty_for(c.brightness_percent),
        _ => duty_for(100),
    }
}

/// Convert brightness percentage (0-100) to LEDC duty cycle (0-8191 for 13-bit)
pub fn brightness_to_duty(brightness_percent: u8) -> (res: u32)
    ensures
        res == duty_for(brightness_percent),
{
    (MAX_DUTY * brightness_percent as u32) / 100
}

pub fn status_params_of(s: LedStatus) -> (res: (u32, u32, u8))
    ensures
        res == status_params(s),
{
    match s {
        LedStatus::Off => (0, 1, 0),
        LedStatus::SolidOn => (u32::MAX, u32::MAX, 100),
        LedStatus::CustomPulse(c) => (c.duration_us, c.period_us, c.brightness_percent),
        LedStatus::SlowBlink => (500_000, 1_000_000, 100),
        LedStatus::FastBlink => (100_000, 200_000, 100),
    }
}

pub fn initial_duty_of(s: LedStatus) -> (res: u32)
    ensures
        res == initial_duty(s),
{
    match s {
        LedStatus::Off => 0,
        LedStatus::CustomPulse(c) => brightness_to_duty(c.brightness_percent),
        _ => brightness_to_duty(100),
    }
}

pub open spec fn clamp(x: u32, lo: u32, hi: u32) -> u32 {
    if x < lo {
        lo
    } else if x > hi {
        hi
    } else {
        x
    }
}

/// The pulse pattern for a blink frequency of `f` Hz (not 0, 1 or 5): a
/// period of 1/f s, on for half of it, each kept within the limits.
pub open spec fn blink_config(f: u32) -> PulseConfig {
    let period = 1_000_000u32 / f;
    PulseConfig {
        duration_us: clamp(period / 2, MIN_DURATION_US, MAX_DURATION_US),
        period_us: clamp(period, MIN_PERIOD_US, MAX_PERIOD_US),
        brightness_percent: 100,
    }
}

/// The status a blink frequency selects: 0 Hz is off, 1 Hz slow blink,
/// 5 Hz fast blink, any other frequency a custom pulse.
pub open spec fn blink_status(f: u32) -> LedStatus {
    if f == 0 {
        LedStatus::Off
    } else if f == 1 {
        LedStatus::SlowBlink
    } else if f == 5 {
        LedStatus::FastBlink
    } else {
        LedStatus::CustomPulse(blink_config(f))
    }
}

fn clamp_u32(x: u32, lo: u32, hi: u32) -> (res: u32)
    ensures
        res == clamp(x, lo, hi),
{
    if x < lo {
        lo
    } else if x > hi {
        hi
    } else {
        x
    }
}

/// Every blink frequency other than 0, 1 and 5 yields a valid pulse.
pub proof fn lemma_blink_config_valid(f: u32)
    requires
        f != 0,
    ensures
        pulse_valid(blink_config(f)),
{
    let period = 1_000_000u32 / f;
    assert(period <= 1_000_000);
}

/// For 1 to 10 Hz the LED blinks at that rate: the period is 1/f s and
/// the LED is on for half of it, at full brightness.
pub proof fn lemma_blink_rate(f: u32)
    requires
        1 <= f <= 10,
    ensures
        status_params(blink_status(f)) == ((1_000_000u32 / f) / 2, 1_000_000u32 / f, 100u8),
{
    assert(100_000 <= 1_000_000u32 / f <= 1_000_000) by (nonlinear_arith)
        requires
            1 <= f <= 10,
    ;
    if f == 1 {
        assert(1_000_000u32 / f == 1_000_000);
    } else if f == 5 {
        assert(1_000_000u32 / f == 200_000);
    }
}

/// The status `set_blink` applies for a frequency in Hz.
pub fn blink_status_of(frequency_hz: u32) -> (res: LedStatus)
    ensures
        res == blink_status(frequency_hz),
{
    if frequency_hz == 0 {
        LedStatus::Off
    } else if frequency_hz == 1 {
        LedStatus::SlowBlink
    } else if frequency_hz == 5 {
        LedStatus::FastBlink
    } else {
        let period_us = 1_000_000 / frequency_hz;
        let duration_us = clamp_u32(period_us / 2, MIN_DURATION_US, MAX_DURATION_US);
        let period_us = clamp_u32(period_us, MIN_PERIOD_US, MAX_PERIOD_US);
        proof {
            lemma_blink_config_valid(frequency_hz);
        }
        match PulseConfig::new(duration_us, period_us, 100) {
            Ok(config) => LedStatus::CustomPulse(config),
            Err(_) => LedStatus::SlowBlink,
        }
    }
}

/// LED statistics for reporting
#[derive(Debug, Clone)]
pub struct LedStatistics {
    /// Number of pulses since last config change
    pub pulse_count: u64,
    /// Timestamp of first pulse after config change
    pub first_pulse_time: Option<u64>,
    /// Timestamp of last pulse start
    pub last_pulse_time: Option<u64>,
    /// Timestamp of last config change
    pub config_changed_time: u64,
    /// Total accumulated ON time in microseconds
    pub total_on_time_us: u64,
    /// Total accumulated OFF time in microseconds
    pub total_off_time_us: u64,
    /// Timestamp when we last transitioned (for calculating durations)
    pub last_transition_time: Option<u64>,
    /// Whether LED was ON at last transition
    pub was_on_at_last_transition: bool,
}

impl LedStatistics {
    /// Statistics with nothing counted, the configuration changed at `now`.
    pub fn new(now: u64) -> (res: Self)
        ensures
            res.pulse_count == 0,
            res.first_pulse_time is None,
            res.last_pulse_time is None,
            res.config_changed_time == now,
            res.total_on_time_us == 0,
            res.total_off_time_us == 0,
            res.last_transition_time is None,
            !res.was_on_at_last_transition,
    {
        LedStatistics {
            pulse_count: 0,
            first_pulse_time: None,
            last_pulse_time: None,
            config_changed_time: now,
            total_on_time_us: 0,
            total_off_time_us: 0,
            last_transition_time: None,
            was_on_at_last_transition: false,
        }
    }
}

/// Time elapsed from `earlier` to `now`, 0 if `now` is earlier
/// (`Instant::duration_since` saturates).
pub open spec fn elapsed(now: u64, earlier: u64) -> u64 {
    if now >= earlier {
        (now - earlier) as u64
    } else {
        0
    }
}

/// The state the timer interrupt keeps between ticks.
#[derive(Debug, Clone, Copy, PartialEq, Eq, Structural)]
pub struct PulsePhase {
    /// Microseconds into the current cycle.
    pub counter: u32,
    /// Whether the LED is in the ON part of the cycle.
    pub is_on: bool,
}

/// What one timer tick does, given the running parameters: with pulsing
/// stopped (duration 0 or `u32::MAX`) nothing at all; otherwise, when the
/// PWM driver could be taken, the ON part ends once the counter reaches
/// the duration (duty 0), or a new cycle starts once it reaches the period
/// (counter back to 0, duty for the brightness); then the counter advances
/// by one tick (wrapping, as the atomic counter does).
pub open spec fn tick_phase(
    p: PulsePhase,
    duration_us: u32,
    period_us: u32,
    brightness: u8,
    driver_free: bool,
) -> (PulsePhase, Option<u32>) {
    if duration_us == 0 || duration_us == u32::MAX {
        (p, None)
    } else {
        let (q, duty) = if driver_free && p.is_on && p.counter >= duration_us {
            (PulsePhase { counter: p.counter, is_on: false }, Some(0u32))
        } else if driver_free && !p.is_on && p.counter >= period_us {
            (PulsePhase { counter: 0, is_on: true }, Some(duty_for(brightness)))
        } else {
            (p, None)
        };
        (PulsePhase { counter: ((q.counter + TICK_US) % 0x1_0000_0000) as u32, ..q }, duty)
    }
}

/// How a tick updates the statistics (when they could be locked): an ON→OFF
/// transition adds the ON time since the last transition; an OFF→ON
/// transition adds the OFF time, counts a pulse and records its time.
pub open spec fn tick_stats(
    p: PulsePhase,
    q: PulsePhase,
    s: LedStatistics,
    now: u64,
    stats_free: bool,
) -> LedStatistics {
    if !stats_free || p.is_on == q.is_on {
        s
    } else if p.is_on {
        LedStatistics {
            total_on_time_us: match s.last_transition_time {
                Some(t) => if s.was_on_at_last_transition {
                    (s.total_on_time_us + elapsed(now, t)) as u64
                } else {
                    s.total_on_time_us
                },
                None => s.total_on_time_us,
            },
            last_transition_time: Some(now),
            was_on_at_last_transition: false,
            ..s
        }
    } else {
        LedStatistics {
            total_off_time_us: match s.last_transition_time {
                Some(t) => if !s.was_on_at_last_transition {
                    (s.total_off_time_us + elapsed(now, t)) as u64
                } else {
                    s.total_off_time_us
                },
                None => s.total_off_time_us,
            },
            pulse_count: (s.pulse_count + 1) as u64,
            first_pulse_time: match s.first_pulse_time {
                Some(t) => Some(t),
                None => Some(now),
            },
            last_pulse_time: Some(now),
            last_transition_time: Some(now),
            was_on_at_last_transition: true,
            ..s
        }
    }
}

/// The accumulators can take one more tick at `now` without overflow.
pub open spec fn stats_have_room(s: LedStatistics, now: u64) -> bool {
    &&& s.pulse_count < u64::MAX
    &&& match s.last_transition_time {
        Some(t) => s.total_on_time_us + elapsed(now, t) <= u64::MAX && s.total_off_time_us
            + elapsed(now, t) <= u64::MAX,
        None => true,
    }
}

/// Whether the statistics can take one more tick at `now`.
pub fn stats_room(s: &LedStatistics, now: u64) -> (res: bool)
    ensures
        res == stats_have_room(*s, now),
{
    if s.pulse_count == u64::MAX {
        return false;
    }
    match s.last_transition_time {
        Some(t) => {
            let d = if now >= t {
                now - t
            } else {
                0
            };
            s.total_on_time_us <= u64::MAX - d && s.total_off_time_us <= u64::MAX - d
        },
        None => true,
    }
}

/// One tick of the pulse timer: the new phase, the duty to set (if any),
/// and the statistics after it.
pub fn pulse_tick(
    phase: PulsePhase,
    duration_us: u32,
    period_us: u32,
    brightness: u8,
    driver_free: bool,
    stats: &mut LedStatistics,
    stats_free: bool,
    now: u64,
) -> (res: (PulsePhase, Option<u32>))
    requires
        stats_free ==> stats_have_room(*old(stats), now),
    ensures
        res == tick_phase(phase, duration_us, period_us, brightness, driver_free),
        *final(stats) == tick_stats(phase, res.0, *old(stats), now, stats_free),
{
    if duration_us == 0 || duration_us == u32::MAX {
        return (phase, None);
    }
    let mut next = phase;
    let mut duty: Option<u32> = None;
    if driver_free {
        if phase.is_on && phase.counter >= duration_us {
            next.is_on = false;
            duty = Some(0);
            if stats_free {
                if let Some(last) = stats.last_transition_time {
                    if stats.was_on_at_last_transition {
                        let d = if now >= last {
                            now - last
                        } else {
                            0
                        };
                        stats.total_on_time_us = stats.total_on_time_us + d;
                    }
                }
                stats.last_transition_time = Some(now);
                stats.was_on_at_last_transition = false;
            }
        } else if !phase.is_on && phase.counter >= period_us {
            next.counter = 0;
            next.is_on = true;
            duty = Some(brightness_to_duty(brightness));
            if stats_free {
                if let Some(last) = stats.last_transition_time {
                    if !stats.was_on_at_last_transition {
                        let d = if now >= last {
                            now - last
                        } else {
                            0
                        };
                        stats.total_off_time_us = stats.total_off_time_us + d;
                    }
                }
                stats.pulse_count = stats.pulse_count + 1;
                if stats.first_pulse_time.is_none() {
                    stats.first_pulse_time = Some(now);
                }
                stats.last_pulse_time = Some(now);
                stats.last_transition_time = Some(now);
                stats.was_on_at_last_transition = true;
            }
        }
    }
    next.counter = next.counter.wrapping_add(TICK_US);
    (next, duty)
}

/// The phase after `n` ticks with the PWM driver free at each.
pub open spec fn run_ticks(p: PulsePhase, c: PulseConfig, n: nat) -> PulsePhase
    decreases n,
{
    if n == 0 {
        p
    } else {
        tick_phase(
            run_ticks(p, c, (n - 1) as nat),
            c.duration_us,
            c.period_us,
            c.brightness_percent,
            true,
        ).0
    }
}

/// Whole ticks that cover `us` microseconds.
pub open spec fn ticks_covering(us: u32) -> nat {
    ((us as int + TICK_US - 1) / TICK_US as int) as nat
}

/// Ticks from one pulse's start to the next: the period in whole ticks,
/// or one tick more than the pulse when both round to the same count.
pub open spec fn cycle_ticks(c: PulseConfig) -> nat {
    if ticks_covering(c.period_us) > ticks_covering(c.duration_us) {
        ticks_covering(c.period_us)
    } else {
        ticks_covering(c.duration_us) + 1
    }
}

/// The phase right after a pulse has started.
pub open spec fn pulse_start() -> PulsePhase {
    PulsePhase { counter: TICK_US, is_on: true }
}

/// With the driver free on every tick, a valid pulse is lit for its
/// duration in whole ticks, then dark until its period (in whole ticks)
/// has passed, when it starts again: the cycle repeats exactly, the LED
/// is switched off at the end of the lit ticks and back on, at the
/// pulse's brightness, at the end of the cycle.
pub proof fn lemma_pulse_cycle(c: PulseConfig)
    requires
        pulse_valid(c),
    ensures
        run_ticks(pulse_start(), c, cycle_ticks(c)) == pulse_start(),
        forall|j: nat|
            j < cycle_ticks(c) ==> (#[trigger] run_ticks(pulse_start(), c, j)).is_on == (j
                < ticks_covering(c.duration_us)),
        tick_phase(
            run_ticks(pulse_start(), c, (ticks_covering(c.duration_us) - 1) as nat),
            c.duration_us,
            c.period_us,
            c.brightness_percent,
            true,
        ).1 == Some(0u32),
        tick_phase(
            run_ticks(pulse_start(), c, (cycle_ticks(c) - 1) as nat),
            c.duration_us,
            c.period_us,
            c.brightness_percent,
            true,
        ).1 == Some(duty_for(c.brightness_percent)),
{
    let n = cycle_ticks(c);
    let k = ticks_covering(c.duration_us);
    let m = ticks_covering(c.period_us);
    lemma_ticks_covering(c.duration_us);
    lemma_ticks_covering(c.period_us);
    assert(k >= 1);
    assert forall|j: nat| j < n implies (#[trigger] run_ticks(pulse_start(), c, j)) == (PulsePhase {
        counter: (TICK_US * (j + 1)) as u32,
        is_on: j < k,
    }) by {
        lemma_run_closed_form(c, j);
    }
    lemma_run_closed_form(c, (n - 1) as nat);
    lemma_run_closed_form(c, (k - 1) as nat);
    assert(run_ticks(pulse_start(), c, n) == tick_phase(
        run_ticks(pulse_start(), c, (n - 1) as nat),
        c.duration_us,
        c.period_us,
        c.brightness_percent,
        true,
    ).0);
}

/// `ticks_covering(us)` is the least number of ticks whose length reaches `us`.
proof fn lemma_ticks_covering(us: u32)
    ensures
        TICK_US * ticks_covering(us) >= us,
        ticks_covering(us) == 0 || TICK_US * (ticks_covering(us) - 1) < us,
        us > 0 ==> ticks_covering(us) >= 1,
        ticks_covering(us) <= us as nat / 100 + 1,
{
    let t = ticks_covering(us);
    assert(t == (us as nat + 99) / 100);
    assert(100 * t <= us as nat + 99);
    assert(100 * t > us as nat + 99 - 100);
}

/// The phase after `j` ticks within the first cycle: the counter at
/// `j + 1` ticks, lit for the first `ticks_covering(duration)` ticks.
proof fn lemma_run_closed_form(c: PulseConfig, j: nat)
    requires
        pulse_valid(c),
        j < cycle_ticks(c),
    ensures
        run_ticks(pulse_start(), c, j) == (PulsePhase {
            counter: (TICK_US * (j + 1)) as u32,
            is_on: j < ticks_covering(c.duration_us),
        }),
    decreases j,
{
    lemma_ticks_covering(c.duration_us);
    lemma_ticks_covering(c.period_us);
    if j > 0 {
        lemma_run_closed_form(c, (j - 1) as nat);
    }
}

/// The LED's pattern, the timer parameters derived from it, the pulse
/// phase and the statistics: everything but the hardware drivers.
pub struct LedState {
    pub status: LedStatus,
    pub statistics: LedStatistics,
    pub phase: PulsePhase,
    pub duration_us: u32,
    pub period_us: u32,
    pub brightness: u8,
}

/// The parameters follow the status.
pub open spec fn led_state_wf(s: LedState) -> bool {
    (s.duration_us, s.period_us, s.brightness) == status_params(s.status)
}

/// Statistics as a status change leaves them at `now`.
pub open spec fn reset_statistics(s: LedStatistics, status: LedStatus, now: u64) -> LedStatistics {
    LedStatistics {
        pulse_count: 0,
        first_pulse_time: None,
        last_pulse_time: None,
        config_changed_time: now,
        total_on_time_us: 0,
        total_off_time_us: 0,
        last_transition_time: Some(now),
        was_on_at_last_transition: status != LedStatus::Off,
    }
}

impl LedState {
    /// The state at start-up: the default pulse (500ms / 5s @ 75%), in the
    /// ON phase, with the LED lit at the default brightness.
    pub fn new(now: u64) -> (res: Self)
        ensures
            led_state_wf(res),
            res.status == LedStatus::CustomPulse(
                PulseConfig {
                    duration_us: 500_000,
                    period_us: 5_000_000,
                    brightness_percent: DEFAULT_BRIGHTNESS,
                },
            ),
            res.phase == (PulsePhase { counter: 0, is_on: true }),
            res.statistics == (LedStatistics {
                pulse_count: 0,
                first_pulse_time: None,
                last_pulse_time: None,
                config_changed_time: now,
                total_on_time_us: 0,
                total_off_time_us: 0,
                last_transition_time: None,
                was_on_at_last_transition: false,
            }),
    {
        let c = PulseConfig::default_config();
        LedState {
            status: LedStatus::CustomPulse(c),
            statistics: LedStatistics::new(now),
            phase: PulsePhase { counter: 0, is_on: true },
            duration_us: c.duration_us,
            period_us: c.period_us,
            brightness: c.brightness_percent,
        }
    }

    /// Set LED status.  A new status restarts the pulse cycle in its ON
    /// phase, resets the statistics and returns the duty to apply at once;
    /// the same status again changes nothing.
    pub fn set_status(&mut self, new_status: LedStatus, now: u64) -> (res: Option<u32>)
        ensures
            led_state_wf(*old(self)) ==> led_state_wf(*final(self)),
            old(self).status == new_status ==> res is None && final(self).status == old(
                self,
            ).status && final(self).statistics == old(self).statistics && final(self).phase == old(
                self,
            ).phase && final(self).duration_us == old(self).duration_us && final(self).period_us
                == old(self).period_us && final(self).brightness == old(self).brightness,
            old(self).status != new_status ==> {
                &&& res == Some(initial_duty(new_status))
                &&& final(self).status == new_status
                &&& (final(self).duration_us, final(self).period_us, final(self).brightness)
                    == status_params(new_status)
                &&& final(self).phase == (PulsePhase { counter: 0, is_on: true })
                &&& final(self).statistics == reset_statistics(
                    old(self).statistics,
                    new_status,
                    now,
                )
            },
    {
        if self.status == new_status {
            return None;
        }
        self.status = new_status;
        let (d, p, b) = status_params_of(new_status);
        self.duration_us = d;
        self.period_us = p;
        self.brightness = b;
        self.phase = PulsePhase { counter: 0, is_on: true };
        let off = match new_status {
            LedStatus::Off => true,
            _ => false,
        };
        self.statistics = LedStatistics {
            pulse_count: 0,
            first_pulse_time: None,
            last_pulse_time: None,
            config_changed_time: now,
            total_on_time_us: 0,
            total_off_time_us: 0,
            last_transition_time: Some(now),
            was_on_at_last_transition: !off,
        };
        Some(initial_duty_of(new_status))
    }

    /// Set custom pulse configuration
    pub fn set_pulse(&mut self, config: PulseConfig, now: u64) -> (res: Option<u32>)
        ensures
            led_state_wf(*old(self)) ==> led_state_wf(*final(self)),
            final(self).status == LedStatus::CustomPulse(config),
            old(self).status != LedStatus::CustomPulse(config) ==> res == Some(
                duty_for(config.brightness_percent),
            ) && final(self).statistics == reset_statistics(
                old(self).statistics,
                LedStatus::CustomPulse(config),
                now,
            ),
            old(self).status == LedStatus::CustomPulse(config) ==> res is None,
    {
        self.set_status(LedStatus::CustomPulse(config), now)
    }

    /// Turn LED on
    pub fn turn_on(&mut self, now: u64) -> (res: Option<u32>)
        ensures
            led_state_wf(*old(self)) ==> led_state_wf(*final(self)),
            final(self).status == LedStatus::SolidOn,
            old(self).status != LedStatus::SolidOn ==> res == Some(duty_for(100)),
            old(self).status == LedStatus::SolidOn ==> res is None,
    {
        self.set_status(LedStatus::SolidOn, now)
    }

    /// Turn LED off
    pub fn turn_off(&mut self, now: u64) -> (res: Option<u32>)
        ensures
            led_state_wf(*old(self)) ==> led_state_wf(*final(self)),
            final(self).status == LedStatus::Off,
            old(self).status != LedStatus::Off ==> res == Some(0u32),
            old(self).status == LedStatus::Off ==> res is None,
    {
        self.set_status(LedStatus::Off, now)
    }

    /// Set blink rate in Hz (1-10 Hz)
    pub fn set_blink(&mut self, frequency_hz: u32, now: u64) -> (res: Option<u32>)
        ensures
            led_state_wf(*old(self)) ==> led_state_wf(*final(self)),
            final(self).status == blink_status(frequency_hz),
            old(self).status != blink_status(frequency_hz) ==> res == Some(
                initial_duty(blink_status(frequency_hz)),
            ),
            old(self).status == blink_status(frequency_hz) ==> res is None,
    {
        let s = blink_status_of(frequency_hz);
        self.set_status(s, now)
    }

    /// Get current LED status
    pub fn get_status(&self) -> (res: LedStatus)
        ensures
            res == self.status,
    {
        self.status
    }

    /// Get current pulse configuration if in CustomPulse mode
    pub fn get_pulse_config(&self) -> (res: Option<PulseConfig>)
        ensures
            match self.status {
                LedStatus::CustomPulse(c) => res == Some(c),
                _ => res is None,
            },
    {
        match self.status {
            LedStatus::CustomPulse(config) => Some(config),
            _ => None,
        }
    }

    /// One timer tick at `now` (see `tick_phase` and `tick_stats`).
    pub fn tick(&mut self, driver_free: bool, stats_free: bool, now: u64) -> (res: Option<u32>)
        requires
            stats_free ==> stats_have_room(old(self).statistics, now),
        ensures
            (final(self).phase, res) == tick_phase(
                old(self).phase,
                old(self).duration_us,
                old(self).period_us,
                old(self).brightness,
                driver_free,
            ),
            final(self).statistics == tick_stats(
                old(self).phase,
                final(self).phase,
                old(self).statistics,
                now,
                stats_free,
            ),
            final(self).status == old(self).status,
            final(self).duration_us == old(self).duration_us,
            final(self).period_us == old(self).period_us,
            final(self).brightness == old(self).brightness,
    {
        let (next, duty) = pulse_tick(
            self.phase,
            self.duration_us,
            self.period_us,
            self.brightness,
            driver_free,
            &mut self.statistics,
            stats_free,
            now,
        );
        self.phase = next;
        duty
    }
}

} // verus!
