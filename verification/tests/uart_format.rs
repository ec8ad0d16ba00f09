use esp32_led_flasher::uart_format::{decode_uart_frame, encode_uart_frame, Parity, UartFormat};

#[test]
fn test_format_7e1_properties() {
    let format = UartFormat::Format7E1;
    assert_eq!(format.data_bits(), 7);
    assert_eq!(format.parity(), Parity::Even);
    assert_eq!(format.stop_bits(), 1);
    assert_eq!(format.total_bits(), 10); // 1 start + 7 data + 1 parity + 1 stop
}

#[test]
fn test_format_8n1_properties() {
    let format = UartFormat::Format8N1;
    assert_eq!(format.data_bits(), 8);
    assert_eq!(format.parity(), Parity::NoParity);
    assert_eq!(format.stop_bits(), 1);
    assert_eq!(format.total_bits(), 10); // 1 start + 8 data + 0 parity + 1 stop
}

#[test]
fn test_encode_decode_7e1() {
    let format = UartFormat::Format7E1;
    let ch = b'V'; // 0x56 = 0b1010110

    let bits = encode_uart_frame(ch, format);
    assert_eq!(bits.len(), 10);
    assert_eq!(bits[0], 0); // start bit

    let (decoded, parity_ok) = decode_uart_frame(&bits, format).unwrap();
    assert_eq!(decoded, ch & 0x7F);
    assert!(parity_ok);
}

#[test]
fn test_encode_decode_8n1() {
    let format = UartFormat::Format8N1;
    let ch = b'A'; // 0x41

    let bits = encode_uart_frame(ch, format);
    assert_eq!(bits.len(), 10);

    let (decoded, parity_ok) = decode_uart_frame(&bits, format).unwrap();
    assert_eq!(decoded, ch);
    assert!(parity_ok); // Always true for no parity
}

#[test]
fn test_format_from_str() {
    assert_eq!(UartFormat::from_str("7e1"), Some(UartFormat::Format7E1));
    assert_eq!(UartFormat::from_str("7E1"), Some(UartFormat::Format7E1));
    assert_eq!(UartFormat::from_str("8N1"), Some(UartFormat::Format8N1));
    assert_eq!(UartFormat::from_str("invalid"), None);
}

#[test]
fn frame_bits_of_v_in_7e1_are_exact() {
    // 'V' = 0x56 = 0b1010110: four ones, so even parity bit 0.
    let bits = encode_uart_frame(b'V', UartFormat::Format7E1);
    assert_eq!(bits, vec![0, 0, 1, 1, 0, 1, 0, 1, 0, 1]);
}

#[test]
fn odd_parity_bit_is_set_for_even_count() {
    // 'V' has four ones: odd parity needs a 1.
    let bits = encode_uart_frame(b'V', UartFormat::Format7O1);
    assert_eq!(bits, vec![0, 0, 1, 1, 0, 1, 0, 1, 1, 1]);
}

#[test]
fn two_stop_bits_frames_have_eleven_bits() {
    assert_eq!(UartFormat::Format7E2.total_bits(), 11);
    assert_eq!(UartFormat::Format8N2.total_bits(), 11);
    assert_eq!(UartFormat::Format8E1.total_bits(), 11);
    let bits = encode_uart_frame(b'\r', UartFormat::Format7E2);
    assert_eq!(bits.len(), 11);
    assert_eq!(&bits[9..], &[1, 1]);
}

#[test]
fn eighth_bit_is_dropped_by_seven_bit_formats() {
    let bits = encode_uart_frame(0xC1, UartFormat::Format7E1);
    let (data, ok) = decode_uart_frame(&bits, UartFormat::Format7E1).unwrap();
    assert_eq!(data, 0x41);
    assert!(ok);
}

#[test]
fn every_byte_round_trips_in_every_format() {
    let formats = [
        UartFormat::Format7E1,
        UartFormat::Format7E2,
        UartFormat::Format8N1,
        UartFormat::Format8E1,
        UartFormat::Format7O1,
        UartFormat::Format8N2,
    ];
    for f in formats {
        for ch in 0..=255u8 {
            let bits = encode_uart_frame(ch, f);
            assert_eq!(bits.len(), f.total_bits() as usize);
            let mask = if f.data_bits() == 7 { 0x7F } else { 0xFF };
            assert_eq!(decode_uart_frame(&bits, f), Some((ch & mask, true)));
        }
    }
}

#[test]
fn decode_rejects_bad_frames() {
    let f = UartFormat::Format7E1;
    let mut bits = encode_uart_frame(b'A', f);
    assert_eq!(decode_uart_frame(&bits[..9], f), None); // too short
    bits[0] = 1;
    assert_eq!(decode_uart_frame(&bits, f), None); // start bit not 0
    bits[0] = 0;
    bits[9] = 0;
    assert_eq!(decode_uart_frame(&bits, f), None); // stop bit not 1
    bits[9] = 1;
    bits[8] ^= 1;
    assert_eq!(decode_uart_frame(&bits, f), Some((b'A', false))); // parity error
}

#[test]
fn names_round_trip_and_default() {
    let formats = [
        UartFormat::Format7E1,
        UartFormat::Format7E2,
        UartFormat::Format8N1,
        UartFormat::Format8E1,
        UartFormat::Format7O1,
        UartFormat::Format8N2,
    ];
    for f in formats {
        assert_eq!(UartFormat::from_str(f.as_str()), Some(f));
    }
    assert_eq!(UartFormat::from_str("8e1"), Some(UartFormat::Format8E1));
    assert_eq!(UartFormat::from_str("7O1"), Some(UartFormat::Format7O1));
    assert_eq!(UartFormat::from_str(" 7e1"), None);
    assert_eq!(UartFormat::default(), UartFormat::Format7E1);
}
