use fusion::hid_imu::HidImuSettings;
use fusion::json::JsonValue;
use fusion::hid_imu::{buffer_of, imu_scale_modes, parse_imu_report};
use fusion::automotive::{parse_gear_state, GearState};
use fusion::automotive::extract_value;
use fusion::hid_imu::{next_index, parse_hex_u16, AxisConfig, SampleBuffer, SampleBufferState};
use fusion::peak_can::{
    baudrate_to_pcan, parse_channel, PCAN_BAUD_100K, PCAN_BAUD_125K, PCAN_BAUD_1M, PCAN_BAUD_250K,
    PCAN_BAUD_500K, PCAN_USBBUS1, PCAN_USBBUS2, PCAN_USBBUS4,
};
use fusion::xreal_imu::{read_24bit_signed, ACCEL_FULL_SCALE_G, FULL_SCALE_COUNTS, GYRO_FULL_SCALE_DPS};

#[test]
fn read_24bit_signed_positive() {
    let data = [0x00, 0x01, 0x00];
    assert_eq!(read_24bit_signed(&data, 0), 256);
}

#[test]
fn read_24bit_signed_negative() {
    let data = [0xFF, 0xFF, 0xFF];
    assert_eq!(read_24bit_signed(&data, 0), -1);
}

#[test]
fn read_24bit_signed_max_positive() {
    let data = [0xFF, 0xFF, 0x7F];
    assert_eq!(read_24bit_signed(&data, 0), 8388607);
}

#[test]
fn read_24bit_signed_min_negative() {
    let data = [0x00, 0x00, 0x80];
    assert_eq!(read_24bit_signed(&data, 0), -8388608);
}

#[test]
fn read_24bit_signed_zero() {
    let data = [0x00, 0x00, 0x00];
    assert_eq!(read_24bit_signed(&data, 0), 0);
}

#[test]
fn read_24bit_signed_with_offset() {
    let data = [0x00, 0x00, 0x00, 0x01, 0x02, 0x03];
    assert_eq!(read_24bit_signed(&data, 3), 0x030201);
}

#[test]
fn read_24bit_signed_negative_small() {
    let data = [0x00, 0xFF, 0xFF];
    assert_eq!(read_24bit_signed(&data, 0), -256);
}

#[test]
fn scaling_gyro() {
    let gyro_scalar = (1.0 / FULL_SCALE_COUNTS as f64) * GYRO_FULL_SCALE_DPS as f64;
    let val = 8388607_f64 * gyro_scalar;
    assert!((val - 2000.0).abs() < 0.001);
}

#[test]
fn scaling_accel() {
    let accel_scalar_g = (1.0 / FULL_SCALE_COUNTS as f64) * ACCEL_FULL_SCALE_G as f64;
    let val = 8388607_f64 * accel_scalar_g;
    assert!((val - 16.0).abs() < 0.001);
}

#[test]
fn parse_24bit_matches_cpp_behavior() {
    let data = [0xAB, 0xCD, 0xEF];
    let expected: i32 = 0xFFEFCDABu32 as i32;
    assert_eq!(read_24bit_signed(&data, 0), expected);

    let data = [0x12, 0x34, 0x56];
    let expected: i32 = 0x00563412;
    assert_eq!(read_24bit_signed(&data, 0), expected);
}

#[test]
fn next_index_basic() {
    let seq = [10, 11, 12];
    assert_eq!(next_index(&seq, 9), Some(0));
    assert_eq!(next_index(&seq, 10), Some(1));
    assert_eq!(next_index(&seq, 11), Some(2));
    assert_eq!(next_index(&seq, 12), None);
}

#[test]
fn next_index_wraparound() {
    let seq = [254, 255, 0];
    assert_eq!(next_index(&seq, 253), Some(0));
    assert_eq!(next_index(&seq, 255), Some(2));
}

#[test]
fn next_index_picks_nearest_successor() {
    // Out of order in the report: the nearest successor of 4 is 5 in slot 2.
    let seq = [7, 6, 5];
    assert_eq!(next_index(&seq, 4), Some(2));
    assert_eq!(next_index(&seq, 5), Some(1));
}

#[test]
fn parse_hex_u16_values() {
    assert_eq!(parse_hex_u16("0x0BB4"), 0x0BB4);
    assert_eq!(parse_hex_u16("0BB4"), 0x0BB4);
    assert_eq!(parse_hex_u16("0x0306"), 0x0306);
    assert_eq!(parse_hex_u16("28DE"), 0x28DE);
}

#[test]
fn parse_hex_u16_invalid_is_zero() {
    assert_eq!(parse_hex_u16("0xZZ"), 0);
    assert_eq!(parse_hex_u16("10000"), 0);
    assert_eq!(parse_hex_u16(""), 0);
}

#[test]
fn axis_config_parse_identity() {
    let cfg = AxisConfig::parse("+X+Y+Z");
    assert_eq!(cfg.axis_assignment, [0, 1, 2]);
    assert_eq!(cfg.axis_direction.map(|d| d as f64), [1.0, 1.0, 1.0]);
}

#[test]
fn axis_config_parse_remap() {
    let cfg = AxisConfig::parse("-Z+X+Y");
    assert_eq!(cfg.axis_assignment, [2, 0, 1]);
    assert_eq!(cfg.axis_direction.map(|d| d as f64), [-1.0, 1.0, 1.0]);
}

#[test]
fn axis_config_identity_value() {
    let cfg = AxisConfig::identity();
    assert_eq!(cfg.axis_assignment, [0, 1, 2]);
    assert_eq!(cfg.axis_direction, [1, 1, 1]);
}

#[test]
fn sample_buffer_hands_out_in_order() {
    let mut state = SampleBufferState::new();
    assert_eq!(state.next_sample(), None);
    state.set_buffer(SampleBuffer { timestamps: [300, 100, 200], seq: [3, 1, 2], used: [false; 3] });
    // First report: the oldest sample first.
    assert_eq!(state.next_sample(), Some((1, 100)));
    assert_eq!(state.next_sample(), Some((2, 200)));
    assert_eq!(state.next_sample(), Some((0, 300)));
    assert_eq!(state.next_sample(), None);
}

#[test]
fn sample_buffer_widens_wrapped_timestamps() {
    let mut state = SampleBufferState::new();
    state.set_buffer(SampleBuffer {
        timestamps: [0xFFFF_FFF0, 0xFFFF_FFF8, 0xFFFF_FFFC],
        seq: [1, 2, 3],
        used: [false; 3],
    });
    assert_eq!(state.next_sample(), Some((0, 0xFFFF_FFF0)));
    assert_eq!(state.next_sample(), Some((1, 0xFFFF_FFF8)));
    assert_eq!(state.next_sample(), Some((2, 0xFFFF_FFFC)));
    assert_eq!(state.next_sample(), None);
    state.set_buffer(SampleBuffer { timestamps: [0x10, 0x20, 0x30], seq: [4, 5, 6], used: [false; 3] });
    // The 32-bit counter wrapped: the time keeps going up.
    assert_eq!(state.next_sample(), Some((0, 0x1_0000_0010)));
    assert_eq!(state.next_sample(), Some((1, 0x1_0000_0020)));
}

#[test]
fn pcan_channel_names() {
    assert_eq!(parse_channel("PCAN_USBBUS1"), PCAN_USBBUS1);
    assert_eq!(parse_channel("PCAN_USBBUS2"), PCAN_USBBUS2);
    assert_eq!(parse_channel("PCAN_USBBUS4"), PCAN_USBBUS4);
    assert_eq!(parse_channel("0x52"), 0x52);
    assert_eq!(parse_channel("83"), 83);
    assert_eq!(parse_channel("0xZZ"), PCAN_USBBUS1);
    assert_eq!(parse_channel("bogus"), PCAN_USBBUS1);
    assert_eq!(parse_channel("70000"), PCAN_USBBUS1);
}

#[test]
fn pcan_baudrates() {
    assert_eq!(baudrate_to_pcan(1_000_000), PCAN_BAUD_1M);
    assert_eq!(baudrate_to_pcan(500_000), PCAN_BAUD_500K);
    assert_eq!(baudrate_to_pcan(250_000), PCAN_BAUD_250K);
    assert_eq!(baudrate_to_pcan(125_000), PCAN_BAUD_125K);
    assert_eq!(baudrate_to_pcan(100_000), PCAN_BAUD_100K);
    assert_eq!(baudrate_to_pcan(42), PCAN_BAUD_500K);
}

#[test]
fn can_signal_extraction() {
    let data = [0x12, 0x34, 0x56, 0x78, 0x9A];
    assert_eq!(extract_value(&data, 0, 1, false), 0x12);
    assert_eq!(extract_value(&data, 0, 2, true), 0x1234);
    assert_eq!(extract_value(&data, 0, 2, false), 0x3412);
    assert_eq!(extract_value(&data, 1, 4, true), 0x3456789A);
    assert_eq!(extract_value(&data, 1, 4, false), 0x9A785634);
    assert_eq!(extract_value(&data, 4, 2, true), 0);
    assert_eq!(extract_value(&data, 0, 3, true), 0);
}

#[test]
fn hid_imu_source_construct() {
    let config = JsonValue::Object(vec![
        ("vendorId".to_owned(), JsonValue::String("0x0BB4".to_owned())),
        ("productId".to_owned(), JsonValue::String("0x0306".to_owned())),
        ("id".to_owned(), JsonValue::String("testImu".to_owned())),
    ]);
    let settings = HidImuSettings::from_json(&config);
    assert_eq!(settings.vendor_id, 0x0BB4);
    assert_eq!(settings.product_id, 0x0306);
    assert_eq!(settings.id, "testImu");
    let defaults = HidImuSettings::from_json(&JsonValue::Object(vec![]));
    assert_eq!((defaults.vendor_id, defaults.product_id), (0x28DE, 0x2300));
    assert_eq!(defaults.id, "imu");
    assert_eq!(defaults.axis_config_acc, AxisConfig::identity());
}

#[test]
fn imu_report_parsing() {
    let mut report = vec![0u8; 52];
    report[0] = 0x20;
    // First sample: acc x = -2, gyro z = 300, timestamp 0x01020304, seq 7.
    report[1] = 0xFE;
    report[2] = 0xFF;
    report[11] = 0x2C;
    report[12] = 0x01;
    report[13] = 0x04;
    report[14] = 0x03;
    report[15] = 0x02;
    report[16] = 0x01;
    report[17] = 7;
    report[51] = 9;
    let samples = parse_imu_report(&report).unwrap();
    assert_eq!(samples[0].acc, [-2, 0, 0]);
    assert_eq!(samples[0].gyro, [0, 0, 300]);
    assert_eq!(samples[0].timestamp, 0x01020304);
    assert_eq!(samples[0].seq, 7);
    assert_eq!(samples[2].seq, 9);
    let buffer = buffer_of(&samples);
    assert_eq!(buffer.seq, [7, 0, 9]);
    assert_eq!(buffer.used, [false; 3]);
    report[0] = 0x21;
    assert!(parse_imu_report(&report).is_none());
    assert!(parse_imu_report(&report[..51]).is_none());
    assert_eq!(imu_scale_modes(&[1, 3, 2]), Some((3, 2)));
    assert_eq!(imu_scale_modes(&[1, 4, 2]), None);
    assert_eq!(imu_scale_modes(&[1, 3]), None);
}

#[test]
fn obd_gear_states() {
    assert_eq!(parse_gear_state("41 A4 03"), GearState::Drive);
    assert_eq!(parse_gear_state("41A40000"), GearState::Park);
    assert_eq!(parse_gear_state("41A40003"), GearState::Drive);
    assert_eq!(parse_gear_state("41A4+4"), GearState::Unknown);
    assert_eq!(parse_gear_state("41A400+4"), GearState::Manual);
    assert_eq!(parse_gear_state("41A400-0"), GearState::Park);
    assert_eq!(parse_gear_state("41A40005"), GearState::Unknown);
    assert_eq!(parse_gear_state("41A400ZZ"), GearState::Unknown);
    assert_eq!(parse_gear_state("short"), GearState::Unknown);
}
