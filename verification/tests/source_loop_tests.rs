use fusion::antilatency::{tracker_step, TrackerAction, TrackerEvent, TrackerState};
use fusion::automotive::GearState;
use fusion::can_frames::{peak_can_frame, vector_can_frame};
use fusion::ntrip::bcc_checksum_compare_for_gga;
use fusion::nmea::verify_nmea_checksum;
use fusion::elm327::{
    clean_reply, elm327_step, init_commands, parse_velocity_response, Elm327Action, Elm327Event,
    Elm327Settings, Elm327State, ELM327_RECOVERY_NANOS,
};
use fusion::hid_imu::{parse_simple_report, pick_device, HidImuSettings, AxisConfig};
use fusion::json::{JsonNumber, JsonValue};
use fusion::lp_sensors::{
    autodetect_type, find_ig1p_sensor, find_openzen_sensor, is_ig1_serial, skip_slot, AutodetectType,
    SensorDescriptor,
};
use fusion::nmea::checksum;
use fusion::nmea_source::{
    nmea_line_step, sentence_kind, take_lines, GpsType,
    NmeaActions, NmeaLoopState, NmeaState, SentenceKind,
};
use fusion::xreal_imu::{parse_xreal_report, pick_interface, XrealRawSample};

fn framed(body: &str) -> String {
    let s = format!("${}*", body);
    let c = checksum(&s);
    format!("{}{}", s, c)
}

#[test]
fn elm327_settings_defaults_and_values() {
    let d = Elm327Settings::from_json(&JsonValue::Object(vec![]));
    assert_eq!(d.port, "COM10");
    assert_eq!(d.baudrate, 115200);
    assert!(!d.is_porsche);
    let c = Elm327Settings::from_json(&JsonValue::Object(vec![
        ("port".to_owned(), JsonValue::String("/dev/ttyUSB0".to_owned())),
        ("baudrate".to_owned(), JsonValue::Number(JsonNumber::PosInt(38400))),
        ("isPorsche".to_owned(), JsonValue::Bool(true)),
    ]));
    assert_eq!(c.port, "/dev/ttyUSB0");
    assert_eq!(c.baudrate, 38400);
    assert!(c.is_porsche);
    // A baud rate beyond 32 bits keeps its low 32 bits.
    let big = Elm327Settings::from_json(&JsonValue::Object(vec![(
        "baudrate".to_owned(),
        JsonValue::Number(JsonNumber::PosInt((1u64 << 32) + 9600)),
    )]));
    assert_eq!(big.baudrate, 9600);
}

#[test]
fn elm327_init_sequence_depends_on_porsche_mode() {
    let plain = init_commands(false);
    let names: Vec<&str> = plain.iter().map(|c| c.command.as_str()).collect();
    assert_eq!(names, vec!["ATZ", "ATE0", "ATL0", "ATS0", "ATH0", "ATSP0"]);
    assert_eq!(plain[0].expected, "ELM");
    assert_eq!(plain[0].timeout_ms, 3000);
    assert_eq!(plain[5].expected, "OK");
    assert_eq!(plain[5].timeout_ms, 1000);
    let porsche = init_commands(true);
    assert_eq!(porsche.len(), 7);
    assert_eq!(porsche[6].command, "AT SH 7E0");
    assert_eq!(porsche[6].expected, "OK");
}

#[test]
fn elm327_reply_cleanup() {
    assert_eq!(clean_reply("410D3C\r\n\r\n>"), "410D3C");
    assert_eq!(clean_reply("SEARCHING...\r410D1E\r>"), "410D1E");
    assert_eq!(clean_reply("BUS INIT: ...OK\r\n410D05>"), "410D05");
    assert_eq!(clean_reply("BUS INIT: OK410D05"), "410D05");
    // Only the first of each status message goes.
    assert_eq!(clean_reply("SEARCHING...SEARCHING...OK"), "SEARCHING...OK");
    assert_eq!(clean_reply("\tOK\t"), "OK");
    assert_eq!(clean_reply(""), "");
}

#[test]
fn elm327_velocity_reply_parsing() {
    assert_eq!(parse_velocity_response("410D3C"), Some(60));
    assert_eq!(parse_velocity_response("410DFF"), Some(255));
    assert_eq!(parse_velocity_response("410D-5"), Some(-5));
    assert_eq!(parse_velocity_response("410D+A"), Some(10));
    assert_eq!(parse_velocity_response("410DZZ"), None);
    assert_eq!(parse_velocity_response("410D3"), None);
    assert_eq!(parse_velocity_response("NO DATA"), None);
}

#[test]
fn elm327_loop_decisions() {
    let ready = Elm327State::Ready;
    assert_eq!(
        elm327_step(Elm327State::Initializing, Elm327Event::Connected(true), GearState::Unknown, true),
        (Elm327State::Ready, Elm327Action::Wait)
    );
    assert_eq!(
        elm327_step(Elm327State::Initializing, Elm327Event::Connected(false), GearState::Unknown, true),
        (Elm327State::Error, Elm327Action::Abandon)
    );
    assert_eq!(
        elm327_step(ready, Elm327Event::VelocityReply("410D24".to_owned()), GearState::Drive, true),
        (ready, Elm327Action::Velocity { speed_kmh: 36, publish: true })
    );
    assert_eq!(
        elm327_step(ready, Elm327Event::VelocityReply("410D24".to_owned()), GearState::Reverse, false),
        (ready, Elm327Action::Velocity { speed_kmh: -36, publish: false })
    );
    assert_eq!(
        elm327_step(ready, Elm327Event::VelocityReply("NO DATA".to_owned()), GearState::Drive, true),
        (Elm327State::Error, Elm327Action::RecordError)
    );
    assert_eq!(
        elm327_step(ready, Elm327Event::VelocityReply("410D".to_owned()), GearState::Drive, true),
        (ready, Elm327Action::Wait)
    );
    assert_eq!(
        elm327_step(ready, Elm327Event::VelocityReadFailed, GearState::Drive, true),
        (Elm327State::Error, Elm327Action::RecordError)
    );
    let err = Elm327State::Error;
    assert_eq!(
        elm327_step(err, Elm327Event::Poll { since_error_nanos: ELM327_RECOVERY_NANOS - 1 }, GearState::Unknown, true),
        (err, Elm327Action::Wait)
    );
    assert_eq!(
        elm327_step(err, Elm327Event::Poll { since_error_nanos: 15_000_000_000 }, GearState::Unknown, true),
        (err, Elm327Action::Reconnect)
    );
    assert_eq!(
        elm327_step(err, Elm327Event::Connected(true), GearState::Unknown, true),
        (ready, Elm327Action::Wait)
    );
    assert_eq!(
        elm327_step(err, Elm327Event::Connected(false), GearState::Unknown, true),
        (err, Elm327Action::RecordError)
    );
    assert_eq!(
        elm327_step(Elm327State::Stopped, Elm327Event::VelocityReadFailed, GearState::Unknown, true),
        (Elm327State::Stopped, Elm327Action::Wait)
    );
}

#[test]
fn xreal_report_decoding() {
    assert_eq!(parse_xreal_report(&[0u8; 63]), None);
    let mut buf = [0u8; 64];
    buf[4] = 0x01;
    buf[5] = 0x02;
    buf[11] = 0x80;
    // gyro x = -1, gyro y = 256, gyro z = 8388607
    buf[18] = 0xFF;
    buf[19] = 0xFF;
    buf[20] = 0xFF;
    buf[22] = 0x01;
    buf[24] = 0xFF;
    buf[25] = 0xFF;
    buf[26] = 0x7F;
    // accel x = 1, accel y = -8388608, accel z = 2
    buf[33] = 0x01;
    buf[38] = 0x80;
    buf[39] = 0x02;
    let s = parse_xreal_report(&buf).unwrap();
    assert_eq!(
        s,
        XrealRawSample {
            tick: 0x8000_0000_0000_0201,
            gyro_x: -1,
            gyro_y: 256,
            gyro_z: 8388607,
            acc_x: 1,
            acc_y: -8388608,
            acc_z: 2,
        }
    );
    let hub = s.to_hub_axes();
    assert_eq!((hub.gyro_x, hub.gyro_y, hub.gyro_z), (1, 8388607, 256));
    assert_eq!((hub.acc_x, hub.acc_y, hub.acc_z), (-1, 2, -8388608));
    assert_eq!(hub.tick, s.tick);
}

#[test]
fn xreal_interface_choice() {
    assert_eq!(pick_interface(&[]), None);
    assert_eq!(pick_interface(&[0, 1, 2, 3]), Some(2));
    assert_eq!(pick_interface(&[4, 2, 2]), Some(1));
    assert_eq!(pick_interface(&[5, 3]), Some(0));
}

#[test]
fn hid_simple_report_and_device_choice() {
    let mut r = vec![0u8; 64];
    r[0] = 0x01;
    r[4] = 0x00;
    r[5] = 0x40; // acc x = 16384
    r[8] = 0xFF;
    r[9] = 0xFF; // acc z = -1
    r[14] = 0x83;
    r[15] = 0x00; // gyro z = 131
    assert_eq!(parse_simple_report(&r), Some(([16384, 0, -1], [0, 0, 131])));
    r[0] = 0x20;
    assert_eq!(parse_simple_report(&r), None);
    assert_eq!(parse_simple_report(&[1u8; 15]), None);
    assert_eq!(pick_device(&[]), None);
    assert_eq!(pick_device(&[false, true, true]), Some(1));
    assert_eq!(pick_device(&[false, false]), Some(0));
}

#[test]
fn hid_settings_axis_mappings() {
    let config = JsonValue::Object(vec![
        ("axisConfigAcc".to_owned(), JsonValue::String("-Y+X+Z".to_owned())),
        ("axisConfigGyro".to_owned(), JsonValue::String("+Z+Y-X".to_owned())),
    ]);
    let s = HidImuSettings::from_json(&config);
    assert_eq!(s.axis_config_acc, AxisConfig::parse("-Y+X+Z"));
    assert_eq!(s.axis_config_gyro, AxisConfig::parse("+Z+Y-X"));
    assert_ne!(s.axis_config_acc, AxisConfig::identity());
}

#[test]
fn nmea_sentence_recognition() {
    assert_eq!(sentence_kind(&framed("GPGGA,1,2")), Some(SentenceKind::Gga));
    assert_eq!(sentence_kind(&framed("GNGSA,A,3")), Some(SentenceKind::Gsa));
    assert_eq!(sentence_kind(&framed("GPVTG")), Some(SentenceKind::Vtg));
    assert_eq!(sentence_kind(&framed("GNHDT,12.5,T")), Some(SentenceKind::Hdt));
    assert_eq!(sentence_kind(&framed("GPRMC,1")), None);
    assert_eq!(sentence_kind(&framed("GPGGAX,1")), None);
    assert_eq!(sentence_kind(&framed("GGA,1")), None);
    assert_eq!(sentence_kind("$GPGGA,1*00"), None);
    assert_eq!(sentence_kind("no sentence"), None);
}

#[test]
fn nmea_line_splitting() {
    let (lines, rest) = take_lines("$A*00\r\n$B*11\r\n$C");
    assert_eq!(lines, vec!["$A*00".to_owned(), "$B*11".to_owned()]);
    assert_eq!(rest, "$C");
    let (lines, rest) = take_lines("\r\n\r\nx\r");
    assert_eq!(lines, vec!["".to_owned(), "".to_owned()]);
    assert_eq!(rest, "x\r");
    let (lines, rest) = take_lines("");
    assert!(lines.is_empty());
    assert_eq!(rest, "");
}

#[test]
fn nmea_single_fix_completes_after_gga_gsa_vtg() {
    let s = NmeaLoopState::new();
    let (s, a) = nmea_line_step(s, Some(SentenceKind::Gga), true, GpsType::Single, true);
    assert_eq!(a, NmeaActions { forward_timestamp: true, record_quality: false, publish_gnss: false });
    assert_eq!(s.stage, 0x01);
    let (s, a) = nmea_line_step(s, Some(SentenceKind::Vtg), true, GpsType::Single, true);
    assert!(!a.record_quality);
    let (s, a) = nmea_line_step(s, Some(SentenceKind::Gsa), true, GpsType::Single, true);
    assert_eq!(a, NmeaActions { forward_timestamp: false, record_quality: true, publish_gnss: true });
    assert_eq!(s, NmeaLoopState { state: NmeaState::Running, stage: 0 });
}

#[test]
fn nmea_dual_fix_needs_heading_and_failed_parse_recovers() {
    let mut s = NmeaLoopState::new();
    for k in [SentenceKind::Gga, SentenceKind::Gsa, SentenceKind::Vtg] {
        let (n, a) = nmea_line_step(s, Some(k), true, GpsType::Dual, false);
        assert!(!a.record_quality);
        s = n;
    }
    assert_eq!(s.stage, 0x07);
    // A broken sentence marks the parse as failed, which turns into a wait.
    let (n, _) = nmea_line_step(s, None, true, GpsType::Dual, false);
    assert_eq!(n.state, NmeaState::WaitingForGoodParse);
    // A line that is no sentence changes nothing.
    let (m, _) = nmea_line_step(n, None, false, GpsType::Dual, false);
    assert_eq!(m, n);
    let (done, a) = nmea_line_step(m, Some(SentenceKind::Hdt), true, GpsType::Dual, false);
    assert_eq!(a, NmeaActions { forward_timestamp: false, record_quality: true, publish_gnss: false });
    assert_eq!(done, NmeaLoopState { state: NmeaState::Running, stage: 0 });
    // A failure on the completing line is kept as a failure.
    let almost = NmeaLoopState { state: NmeaState::Running, stage: 0x0F };
    let (f, a) = nmea_line_step(almost, None, true, GpsType::Dual, true);
    assert!(a.record_quality);
    assert_eq!(f, NmeaLoopState { state: NmeaState::ParseFailed, stage: 0 });
}

fn sensor(name: &str, serial: &str) -> SensorDescriptor {
    SensorDescriptor { name: name.to_owned(), serial: serial.to_owned() }
}

#[test]
fn openzen_sensor_choice() {
    let found = vec![sensor("a", "LPMS-CU2-1"), sensor("b", "LPMS-IG1-77"), sensor("c", "IG1-5")];
    assert_eq!(find_openzen_sensor(&found, "", AutodetectType::Ig1), Some(1));
    assert_eq!(find_openzen_sensor(&found, "", AutodetectType::Lpms), Some(0));
    assert_eq!(find_openzen_sensor(&found, "ig1-5", AutodetectType::Lpms), Some(2));
    assert_eq!(find_openzen_sensor(&found, "ig1-", AutodetectType::Ig1), None);
    assert_eq!(find_openzen_sensor(&[], "", AutodetectType::Ig1), None);
    assert!(is_ig1_serial("lpms-ig1-77"));
    assert!(!is_ig1_serial("lpms-cu2"));
}

#[test]
fn openzen_autodetect_setting() {
    let cfg = |t: &str| JsonValue::Object(vec![("autodetectType".to_owned(), JsonValue::String(t.to_owned()))]);
    assert_eq!(autodetect_type(&JsonValue::Object(vec![])), AutodetectType::Ig1);
    assert_eq!(autodetect_type(&cfg("LPMS")), AutodetectType::Lpms);
    assert_eq!(autodetect_type(&cfg("lpms")), AutodetectType::Lpms);
    assert_eq!(autodetect_type(&cfg("other")), AutodetectType::Ig1);
}

#[test]
fn ig1p_slot_choice() {
    let found = vec![
        sensor("s1", "IG1P232000001xx"),
        sensor("s2", "ig1p232000002"),
        sensor("s3", "LPMS-IG1P-9"),
    ];
    assert_eq!(find_ig1p_sensor(&found, "", &[]), Some(0));
    assert_eq!(find_ig1p_sensor(&found, "", &["s1".to_owned()]), Some(1));
    assert_eq!(find_ig1p_sensor(&found, "", &["s1".to_owned(), "s2".to_owned()]), Some(2));
    assert_eq!(find_ig1p_sensor(&found, "ig1p232000002", &[]), Some(1));
    assert_eq!(find_ig1p_sensor(&found, "ig1p232000002", &["s2".to_owned()]), None);
    assert_eq!(find_ig1p_sensor(&found, "ig1p232000001", &[]), Some(0));
    assert!(!skip_slot(0, ""));
    assert!(skip_slot(1, ""));
    assert!(!skip_slot(1, "ig1p"));
}

#[test]
fn vector_can_frames() {
    let data = [1u8, 2, 3, 4, 5, 6, 7, 8];
    assert!(vector_can_frame(0x0401, 0x123, 3, &data).is_none());
    let f = vector_can_frame(0x0400, 0x8000_0123, 3, &data).unwrap();
    assert!(f.is_extended);
    assert_eq!(f.id, 0x123);
    assert_eq!(f.data, vec![1, 2, 3]);
    let g = vector_can_frame(0x0400, 0x7FF, 15, &data).unwrap();
    assert!(!g.is_extended);
    assert_eq!(g.id, 0x7FF);
    assert_eq!(g.data, data.to_vec());
    let h = vector_can_frame(0x0400, 0xFFFF_FFFF, 0, &data).unwrap();
    assert_eq!(h.id, 0x1FFF_FFFF);
    assert!(h.data.is_empty());
}

#[test]
fn peak_can_frames() {
    let data = [9u8, 8, 7, 6, 5, 4, 3, 2];
    let f = peak_can_frame(0x02, 0x18FF_0001, 8, &data);
    assert!(f.is_extended);
    assert_eq!(f.id, 0x18FF_0001);
    assert_eq!(f.data, data.to_vec());
    let g = peak_can_frame(0x00, 0x100, 2, &data);
    assert!(!g.is_extended);
    assert_eq!(g.data, vec![9, 8]);
}

#[test]
fn antilatency_tracker_life_cycle() {
    let s = TrackerState::new();
    let (s, a) = tracker_step(s, TrackerEvent::UpdateId(None), true);
    assert_eq!(a, TrackerAction::Sleep(100));
    let (s, a) = tracker_step(s, TrackerEvent::UpdateId(Some(0)), true);
    assert_eq!(a, TrackerAction::SearchDevice);
    let (s, a) = tracker_step(s, TrackerEvent::DeviceFound(false), true);
    assert_eq!(a, TrackerAction::Sleep(500));
    let (s, a) = tracker_step(s, TrackerEvent::UpdateId(Some(7)), true);
    assert_eq!(a, TrackerAction::SearchDevice);
    assert_eq!(s.last_update_id, 7);
    let (s, a) = tracker_step(s, TrackerEvent::DeviceFound(true), true);
    assert_eq!(a, TrackerAction::CreateTracker);
    let (s, a) = tracker_step(s, TrackerEvent::TrackerCreated(false), true);
    assert_eq!(a, TrackerAction::Sleep(100));
    // The same update id does not start another search.
    let (s, a) = tracker_step(s, TrackerEvent::UpdateId(Some(7)), true);
    assert_eq!(a, TrackerAction::Sleep(100));
    let (s, a) = tracker_step(s, TrackerEvent::UpdateId(Some(8)), true);
    assert_eq!(a, TrackerAction::SearchDevice);
    let (s, _) = tracker_step(s, TrackerEvent::DeviceFound(true), true);
    let (s, a) = tracker_step(s, TrackerEvent::TrackerCreated(true), true);
    assert_eq!(a, TrackerAction::ReadPose);
    let (s, a) = tracker_step(s, TrackerEvent::PoseRead(Some(true)), false);
    assert_eq!(a, TrackerAction::Publish { frame_number: 1, tracking: true, publish: false });
    let (s, a) = tracker_step(s, TrackerEvent::UpdateId(Some(8)), true);
    assert_eq!(a, TrackerAction::ReadPose);
    let (s, a) = tracker_step(s, TrackerEvent::PoseRead(Some(false)), true);
    assert_eq!(a, TrackerAction::Publish { frame_number: 2, tracking: false, publish: true });
    let (s, a) = tracker_step(s, TrackerEvent::PoseRead(None), true);
    assert_eq!(a, TrackerAction::DestroyTracker);
    assert!(!s.has_tracker);
    assert_eq!(s.frame_number, 2);
}

#[test]
fn framed_checksum_with_dollar_in_body() {
    let line = framed("GP$GGA,1");
    assert!(verify_nmea_checksum(line.as_bytes()));
    assert!(bcc_checksum_compare_for_gga(&line));
    let lower = format!("{}\r\n", line.to_lowercase().replacen("$gp$gga,1", "$GP$GGA,1", 1));
    assert!(verify_nmea_checksum(lower.as_bytes()));
    assert!(bcc_checksum_compare_for_gga(&lower));
    assert!(!bcc_checksum_compare_for_gga("$GP$GGA,1*+3"));
    assert!(!verify_nmea_checksum(b"$GP$GGA,1*+3"));
}
