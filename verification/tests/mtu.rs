use esp32_led_flasher::mtu::operation::end_read;
use esp32_led_flasher::mtu::config::{MtuConfig, UartFraming, DEFAULT_METER_MESSAGE};
use esp32_led_flasher::mtu::error::MtuError;
use esp32_led_flasher::mtu::operation::{
    alarm_ticks, apply_plan, notification_for_cycle, phase_action, plan_command, record_outcome,
    reset_counts, sample_bit, MtuCommand, MtuPlan, PhaseAction,
};
use esp32_led_flasher::mtu::receiver::{ReceiverPhase, UartReceiver};
use esp32_led_flasher::mtu::uart_framing::{bits_to_frame, extract_char_from_frame};
use esp32_led_flasher::uart_format::{encode_uart_frame, UartFormat};

fn send(rx: &mut UartReceiver, bits: &[u8]) -> Option<String> {
    let mut msg = None;
    for &b in bits {
        if let Some(m) = rx.on_bit(b) {
            msg = Some(m.as_str().to_string());
        }
    }
    msg
}

fn send_text(rx: &mut UartReceiver, text: &str, format: UartFormat) -> Option<String> {
    let mut msg = None;
    for ch in text.bytes() {
        let frame = encode_uart_frame(ch, format);
        if let Some(m) = send(rx, &frame) {
            msg = Some(m);
        }
        send(rx, &[1, 1]);
    }
    msg
}

#[test]
fn receiver_reads_a_message_after_idle() {
    let format = UartFormat::Format7E1;
    let mut rx = UartReceiver::new(format);
    send(&mut rx, &[1; 10]);
    assert_eq!(rx.phase(), ReceiverPhase::AwaitingStart);
    let msg = send_text(&mut rx, "V;RB00000200\r", format);
    assert_eq!(msg.as_deref(), Some("V;RB00000200\r"));
    assert!(rx.is_complete());
    assert_eq!(rx.frames_decoded(), 13);
    assert_eq!(rx.frame_errors(), 0);
}

#[test]
fn receiver_needs_ten_idle_bits() {
    let mut rx = UartReceiver::new(UartFormat::Format8N1);
    send(&mut rx, &[1; 9]);
    assert_eq!(rx.phase(), ReceiverPhase::Syncing(9));
    send(&mut rx, &[0]);
    assert_eq!(rx.phase(), ReceiverPhase::Syncing(0));
    send(&mut rx, &[1; 10]);
    assert_eq!(rx.phase(), ReceiverPhase::AwaitingStart);
}

#[test]
fn receiver_counts_parity_errors() {
    let format = UartFormat::Format7E1;
    let mut rx = UartReceiver::new(format);
    send(&mut rx, &[1; 10]);
    let mut frame = encode_uart_frame(b'A', format);
    frame[8] ^= 1; // flip the parity bit
    send(&mut rx, &frame);
    assert_eq!(rx.frame_errors(), 1);
    assert_eq!(rx.frames_decoded(), 1);
    assert_eq!(rx.partial_len(), 1);
    let msg = send_text(&mut rx, "\r", format);
    assert_eq!(msg.as_deref(), Some("A\r"));
}

#[test]
fn receiver_drops_frame_on_timeout() {
    let mut rx = UartReceiver::new(UartFormat::Format7E1);
    send(&mut rx, &[1; 10]);
    send(&mut rx, &[0, 1, 0]);
    assert_eq!(rx.phase(), ReceiverPhase::Collecting);
    assert_eq!(rx.wait_ms(), 2000);
    rx.on_timeout();
    assert_eq!(rx.phase(), ReceiverPhase::AwaitingStart);
    assert_eq!(rx.frame_errors(), 1);
    assert_eq!(rx.wait_ms(), 100);
}

#[test]
fn bad_stop_bit_is_a_frame_error() {
    let format = UartFormat::Format8N1;
    let mut rx = UartReceiver::new(format);
    send(&mut rx, &[1; 10]);
    let mut frame = encode_uart_frame(b'x', format);
    frame[9] = 0;
    send(&mut rx, &frame);
    assert_eq!(rx.frame_errors(), 1);
    assert_eq!(rx.frames_decoded(), 0);
}

#[test]
fn frames_decode_to_characters() {
    let format = UartFormat::Format7E2;
    let bits = encode_uart_frame(b'Z', format);
    let frame = bits_to_frame(&bits, format).unwrap();
    assert_eq!(extract_char_from_frame(&frame), Ok(('Z', true)));
    assert_eq!(frame.validate(), Ok((b'Z', true)));
    assert_eq!(
        bits_to_frame(&bits[..5], format).err(),
        Some(MtuError::FramingError)
    );
}

#[test]
fn commands_are_planned() {
    assert_eq!(plan_command(MtuCommand::Start { duration_secs: 30 }, false), MtuPlan::Run(30));
    assert_eq!(plan_command(MtuCommand::Stop, true), MtuPlan::Halt);
    assert_eq!(
        plan_command(MtuCommand::SetBaudRate { baud_rate: 1200 }, true),
        MtuPlan::RefuseWhileRunning
    );
    assert_eq!(
        plan_command(MtuCommand::SetBaudRate { baud_rate: 0 }, false),
        MtuPlan::RefuseBaudRate(0)
    );
    assert_eq!(
        plan_command(MtuCommand::SetBaudRate { baud_rate: 115201 }, false),
        MtuPlan::RefuseBaudRate(115201)
    );
    assert_eq!(
        plan_command(MtuCommand::SetBaudRate { baud_rate: 9600 }, false),
        MtuPlan::ApplyBaudRate(9600)
    );
    let mut cfg = MtuConfig::default();
    apply_plan(&mut cfg, MtuPlan::ApplyBaudRate(9600));
    apply_plan(&mut cfg, MtuPlan::ApplyFormat(UartFormat::Format8N1));
    assert_eq!(cfg.baud_rate, 9600);
    assert_eq!(cfg.uart_format, UartFormat::Format8N1);
}

#[test]
fn config_defaults_and_timing() {
    let cfg = MtuConfig::default();
    assert_eq!(cfg.baud_rate, 1200);
    assert_eq!(cfg.uart_format, UartFormat::Format7E1);
    assert_eq!(cfg.expected_message.as_str(), DEFAULT_METER_MESSAGE);
    assert_eq!(cfg.bit_duration_micros(), 833);
    assert_eq!(cfg.bit_duration_millis(), 0);
    assert_eq!(UartFraming::SevenE1.bits_per_frame(), 10);
    assert_eq!(UartFraming::SevenE2.bits_per_frame(), 11);
}

#[test]
fn timer_phases() {
    assert_eq!(alarm_ticks(1_000_000, 1200), 208);
    assert_eq!(notification_for_cycle(0), 1);
    assert_eq!(notification_for_cycle(7), 4);
    assert_eq!(phase_action(1), Some(PhaseAction::ClockHigh));
    assert_eq!(phase_action(2), Some(PhaseAction::Wait));
    assert_eq!(phase_action(3), Some(PhaseAction::ClockLow));
    assert_eq!(phase_action(4), Some(PhaseAction::Sample));
    assert_eq!(phase_action(5), None);
    assert_eq!(sample_bit(true), 1);
    assert_eq!(sample_bit(false), 0);
}

#[test]
fn read_outcomes_are_counted() {
    let mut cfg = MtuConfig::default();
    record_outcome(&mut cfg, 0, true);
    record_outcome(&mut cfg, 2, true);
    record_outcome(&mut cfg, 0, false);
    assert_eq!(cfg.successful_reads, 1);
    assert_eq!(cfg.corrupted_reads, 2);
    reset_counts(&mut cfg);
    assert_eq!((cfg.successful_reads, cfg.corrupted_reads), (0, 0));
}

#[test]
fn ending_a_read_counts_its_outcome() {
    let mut cfg = MtuConfig::default();
    let mut running = true;
    let mut last = None;
    let mut msg = heapless::String::<256>::new();
    msg.push_str("V;1\r").unwrap();
    end_read(&mut cfg, &mut running, &mut last, Ok((Some(msg), 0)));
    assert!(!running);
    assert_eq!(cfg.successful_reads, 1);
    assert_eq!(last.as_ref().map(|m| m.as_str()), Some("V;1\r"));
    running = true;
    end_read(&mut cfg, &mut running, &mut last, Err(MtuError::GpioError));
    assert!(running);
    assert_eq!((cfg.successful_reads, cfg.corrupted_reads), (1, 0));
    running = true;
    end_read(&mut cfg, &mut running, &mut last, Ok((None, 0)));
    assert!(!running);
    assert_eq!(cfg.corrupted_reads, 1);
    assert_eq!(last.as_ref().map(|m| m.as_str()), Some("V;1\r"));
}
