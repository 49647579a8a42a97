use bike_telemetry::packet::{
    decode, read_le16, read_le16_signed, DecodedReading, CADENCE_LEN, CADENCE_UNITS_PER_COUNT,
    CADENCE_UNITS_PER_RPM, PERFORMANCE_LEN, POWER_UNITS_PER_COUNT, POWER_UNITS_PER_WATT,
    SPEED_UNITS_PER_COUNT, SPEED_UNITS_PER_KMH,
};

fn performance_packet(speed: [u8; 2], power: [u8; 2], filler: u8) -> Vec<u8> {
    let mut payload = vec![filler; 18];
    payload[2] = speed[0];
    payload[3] = speed[1];
    payload[9] = power[0];
    payload[10] = power[1];
    payload
}

fn close(left: f64, right: f64, tolerance: f64) -> bool {
    (left - right).abs() <= tolerance
}

#[test]
fn calibration_constants_have_their_values() {
    assert_eq!(PERFORMANCE_LEN, 18);
    assert_eq!(CADENCE_LEN, 6);
    assert_eq!(SPEED_UNITS_PER_COUNT, 168);
    assert_eq!(SPEED_UNITS_PER_KMH, 1000);
    assert_eq!(POWER_UNITS_PER_COUNT, 83);
    assert_eq!(POWER_UNITS_PER_WATT, 100);
    assert_eq!(CADENCE_UNITS_PER_COUNT, 10);
    assert_eq!(CADENCE_UNITS_PER_RPM, 427);
}

#[test]
fn read_le16_puts_the_low_byte_first() {
    assert_eq!(read_le16(0x00, 0x00), 0);
    assert_eq!(read_le16(0x64, 0x00), 100);
    assert_eq!(read_le16(0x00, 0x01), 256);
    assert_eq!(read_le16(0x34, 0x12), 0x1234);
    assert_eq!(read_le16(0xff, 0xff), 65535);
}

#[test]
fn read_le16_agrees_with_std_on_every_pair() {
    for lo in 0..=255u8 {
        for hi in 0..=255u8 {
            assert_eq!(read_le16(lo, hi), u16::from_le_bytes([lo, hi]));
            assert_eq!(read_le16_signed(lo, hi), i16::from_le_bytes([lo, hi]));
        }
    }
}

#[test]
fn read_le16_signed_is_twos_complement() {
    assert_eq!(read_le16_signed(0x0a, 0x00), 10);
    assert_eq!(read_le16_signed(0xff, 0x7f), 32767);
    assert_eq!(read_le16_signed(0x00, 0x80), -32768);
    assert_eq!(read_le16_signed(0xff, 0xff), -1);
    assert_eq!(read_le16_signed(0xfe, 0xff), -2);
}

#[test]
fn performance_packet_is_scaled_to_speed_and_power() {
    let payload = performance_packet([0x64, 0x00], [0x0a, 0x00], 0);
    let reading = decode(&payload);
    assert_eq!(reading, DecodedReading::Performance { speed: 16800, power: 830 });
    match reading {
        DecodedReading::Performance { speed, power } => {
            let speed_kmh = speed as f64 / SPEED_UNITS_PER_KMH as f64;
            let power_w = power as f64 / POWER_UNITS_PER_WATT as f64;
            assert!(close(speed_kmh, 16.8, 1e-9));
            assert!(close(power_w, 8.3, 1e-9));
            assert!(close(speed_kmh, 100.0 * 0.168, 1e-9));
            assert!(close(power_w, 10.0 * 0.83, 1e-9));
        }
        _ => panic!("an 18-byte payload is a performance packet"),
    }
}

#[test]
fn cadence_packet_is_scaled_to_rpm_and_seconds() {
    let payload = [0u8, 0, 0x2b, 0x00, 0x05, 0x00];
    let reading = decode(&payload);
    assert_eq!(reading, DecodedReading::Cadence { cadence: 430, elapsed_seconds: 5 });
    match reading {
        DecodedReading::Cadence { cadence, elapsed_seconds } => {
            let rpm = cadence as f64 / CADENCE_UNITS_PER_RPM as f64;
            assert!(close(rpm, 1.007, 1e-3));
            assert!(close(rpm, 43.0 / 42.7, 1e-9));
            assert_eq!(elapsed_seconds, 5);
        }
        _ => panic!("a 6-byte payload is a cadence packet"),
    }
}

#[test]
fn bytes_outside_the_fields_do_not_matter() {
    let zeros = performance_packet([0x64, 0x00], [0x0a, 0x00], 0x00);
    let ones = performance_packet([0x64, 0x00], [0x0a, 0x00], 0xff);
    assert_eq!(decode(&zeros), decode(&ones));
    assert_eq!(
        decode(&[0xaa, 0xbb, 0x2b, 0x00, 0x05, 0x00]),
        decode(&[0x00, 0x00, 0x2b, 0x00, 0x05, 0x00])
    );
}

#[test]
fn negative_power_is_decoded_as_signed() {
    let payload = performance_packet([0x00, 0x00], [0xff, 0xff], 0);
    assert_eq!(decode(&payload), DecodedReading::Performance { speed: 0, power: -83 });
    let lowest = performance_packet([0x00, 0x00], [0x00, 0x80], 0);
    assert_eq!(decode(&lowest), DecodedReading::Performance { speed: 0, power: -2_719_744 });
    let highest = performance_packet([0x00, 0x00], [0xff, 0x7f], 0);
    assert_eq!(decode(&highest), DecodedReading::Performance { speed: 0, power: 2_719_661 });
}

#[test]
fn largest_counts_are_decoded_without_loss() {
    let payload = performance_packet([0xff, 0xff], [0x00, 0x00], 0);
    assert_eq!(decode(&payload), DecodedReading::Performance { speed: 11_009_880, power: 0 });
    assert_eq!(
        decode(&[0, 0, 0xff, 0xff, 0xff, 0xff]),
        DecodedReading::Cadence { cadence: 655_350, elapsed_seconds: 65535 }
    );
}

#[test]
fn high_byte_counts_256() {
    let payload = performance_packet([0x00, 0x01], [0x00, 0x01], 0);
    assert_eq!(
        decode(&payload),
        DecodedReading::Performance { speed: 256 * 168, power: 256 * 83 }
    );
    assert_eq!(
        decode(&[0, 0, 0x00, 0x01, 0x00, 0x01]),
        DecodedReading::Cadence { cadence: 2560, elapsed_seconds: 256 }
    );
}

#[test]
fn known_lengths_are_never_unrecognized() {
    for filler in [0x00u8, 0x01, 0x7f, 0x80, 0xff] {
        assert!(matches!(decode(&vec![filler; 18]), DecodedReading::Performance { .. }));
        assert!(matches!(decode(&vec![filler; 6]), DecodedReading::Cadence { .. }));
    }
}

#[test]
fn every_other_length_is_unrecognized() {
    for length in 0..64usize {
        if length == 6 || length == 18 {
            continue;
        }
        assert_eq!(decode(&vec![0x64u8; length]), DecodedReading::Unrecognized);
    }
    assert_eq!(decode(&[]), DecodedReading::Unrecognized);
    assert_eq!(decode(&vec![0u8; 1000]), DecodedReading::Unrecognized);
}

#[test]
fn decode_gives_the_same_reading_for_the_same_bytes() {
    let payload = performance_packet([0x12, 0x34], [0x56, 0x78], 0x9a);
    let first = decode(&payload);
    let second = decode(&payload);
    let copy = payload.clone();
    assert_eq!(first, second);
    assert_eq!(first, decode(&copy));
    assert_eq!(
        first,
        DecodedReading::Performance { speed: 0x3412 * 168, power: 0x7856 * 83 }
    );
}
