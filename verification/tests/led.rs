use esp32_led_flasher::led::{
    blink_status_of, brightness_to_duty, LedState, LedStatus, PulseConfig, PulsePhase,
};

#[test]
fn pulse_config_limits() {
    assert!(PulseConfig::new(100, 500, 0).is_ok());
    assert!(PulseConfig::new(2_000_000, 3_600_000_000, 100).is_ok());
    assert_eq!(
        PulseConfig::new(99, 500, 50),
        Err("Duration must be between 100us and 2000000us (0ms-2s)".to_string())
    );
    assert_eq!(
        PulseConfig::new(100, 499, 50),
        Err("Period must be between 500us and 3600000000us (0ms-1h)".to_string())
    );
    assert_eq!(
        PulseConfig::new(1000, 1000, 50),
        Err("Duration (1000us) must be less than period (1000us)".to_string())
    );
    assert_eq!(
        PulseConfig::new(100, 500, 101),
        Err("Brightness must be between 0 and 100%".to_string())
    );
}

#[test]
fn pulse_config_from_milliseconds() {
    let c = PulseConfig::new_ms(500, 5000, 75).unwrap();
    assert_eq!(c, PulseConfig::default_config());
    assert_eq!(c.duration_us, 500_000);
    assert_eq!(c.period_us, 5_000_000);
}

#[test]
fn pulse_config_from_large_milliseconds_is_refused() {
    assert_eq!(
        PulseConfig::new_ms(1, 5_000_000, 50),
        Err("Period must be between 500us and 3600000000us (0ms-1h)".to_string())
    );
    assert_eq!(
        PulseConfig::new_ms(5_000_000, 10, 50),
        Err("Duration must be between 100us and 2000000us (0ms-2s)".to_string())
    );
}

#[test]
fn default_status_is_default_pulse() {
    assert_eq!(
        LedStatus::default(),
        LedStatus::CustomPulse(PulseConfig {
            duration_us: 500_000,
            period_us: 5_000_000,
            brightness_percent: 75
        })
    );
}

#[test]
fn brightness_maps_to_13_bit_duty() {
    assert_eq!(brightness_to_duty(0), 0);
    assert_eq!(brightness_to_duty(50), 4095);
    assert_eq!(brightness_to_duty(75), 6143);
    assert_eq!(brightness_to_duty(100), 8191);
}

#[test]
fn blink_frequencies() {
    assert_eq!(blink_status_of(0), LedStatus::Off);
    assert_eq!(blink_status_of(1), LedStatus::SlowBlink);
    assert_eq!(blink_status_of(5), LedStatus::FastBlink);
    assert_eq!(
        blink_status_of(2),
        LedStatus::CustomPulse(PulseConfig {
            duration_us: 250_000,
            period_us: 500_000,
            brightness_percent: 100
        })
    );
    assert_eq!(
        blink_status_of(10),
        LedStatus::CustomPulse(PulseConfig {
            duration_us: 50_000,
            period_us: 100_000,
            brightness_percent: 100
        })
    );
}

#[test]
fn set_status_applies_once() {
    let mut s = LedState::new(0);
    assert_eq!(s.get_pulse_config(), Some(PulseConfig::default_config()));
    assert_eq!(s.turn_on(10), Some(8191));
    assert_eq!(s.get_status(), LedStatus::SolidOn);
    assert_eq!(s.turn_on(20), None);
    assert_eq!(s.turn_off(30), Some(0));
    assert_eq!(s.get_pulse_config(), None);
    assert_eq!(s.statistics.config_changed_time, 30);
}

#[test]
fn pulse_cycle_of_300us_in_1000us() {
    let mut s = LedState::new(0);
    let c = PulseConfig::new(300, 1000, 50).unwrap();
    assert_eq!(s.set_pulse(c, 0), Some(4095));
    let mut duties = Vec::new();
    let mut lit = Vec::new();
    for t in 0..20u64 {
        let d = s.tick(true, true, t * 100);
        duties.push(d);
        lit.push(s.phase.is_on);
    }
    // Off after the third tick past the start, on again every ten ticks.
    assert_eq!(duties[3], Some(0));
    assert_eq!(duties[10], Some(4095));
    assert_eq!(duties[13], Some(0));
    assert_eq!(duties[20 - 1], None);
    assert_eq!(lit[0], true);
    assert_eq!(lit[2], true);
    assert_eq!(lit[3], false);
    assert_eq!(lit[9], false);
    assert_eq!(lit[10], true);
    assert_eq!(s.phase, PulsePhase { counter: 1000, is_on: false });
    assert_eq!(s.statistics.pulse_count, 1);
}

#[test]
fn busy_driver_postpones_transitions() {
    let mut s = LedState::new(0);
    let c = PulseConfig::new(100, 500, 100).unwrap();
    s.set_pulse(c, 0);
    s.tick(true, true, 0);
    assert_eq!(s.tick(false, true, 100), None);
    assert!(s.phase.is_on);
    assert_eq!(s.tick(true, true, 200), Some(0));
}

#[test]
fn solid_and_off_do_not_pulse() {
    let mut s = LedState::new(0);
    s.turn_on(0);
    for t in 0..50 {
        assert_eq!(s.tick(true, true, t), None);
    }
    s.turn_off(0);
    assert_eq!(s.tick(true, true, 0), None);
}

#[test]
fn new_state_starts_with_clean_statistics() {
    let s = LedState::new(42);
    let st = &s.statistics;
    assert_eq!(st.pulse_count, 0);
    assert_eq!(st.first_pulse_time, None);
    assert_eq!(st.last_pulse_time, None);
    assert_eq!(st.config_changed_time, 42);
    assert_eq!((st.total_on_time_us, st.total_off_time_us), (0, 0));
    assert_eq!(st.last_transition_time, None);
    assert!(!st.was_on_at_last_transition);
}
