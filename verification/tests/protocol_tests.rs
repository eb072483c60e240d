use fusion::command_router::{CommandRouter, Route};
use fusion::data_monitor::Counters;
use fusion::encoders::{DataKind, DecodeError, JsonDecoder, JsonEncoder, MqttEncoding, PlainJsonEncoder};
use fusion::file_logger::{decimal, rotated_file_name, FileRotationConfig, RotationState};
use fusion::hand_eye::{
    parse_command, CalibrationAction, CalibrationCommand, CalibrationProtocol, HandEyeCalibrationState,
    HandEyeSettings,
};
use fusion::json::{JsonNumber, JsonValue};
use fusion::registration::aliases;

const ALL_KINDS: [DataKind; 14] = [
    DataKind::Imu,
    DataKind::Gnss,
    DataKind::Optical,
    DataKind::FusedPose,
    DataKind::FusedVehiclePose,
    DataKind::FusedVehiclePoseV2,
    DataKind::GlobalFusedPose,
    DataKind::FusionStateInt,
    DataKind::Rtcm,
    DataKind::Can,
    DataKind::VehicleState,
    DataKind::VehicleSpeed,
    DataKind::VelocityMeter,
    DataKind::Timestamp,
];

fn get<'a>(v: &'a JsonValue, key: &str) -> Option<&'a JsonValue> {
    v.get(key)
}

fn int_of(v: Option<&JsonValue>) -> Option<i64> {
    v.and_then(|x| x.as_i64())
}

#[test]
fn route_to_handler() {
    let mut router = CommandRouter::new("imu0");
    router.register("getStatus");
    assert_eq!(router.route("imu0", "getStatus"), Route::Handler);
}

#[test]
fn route_wrong_topic() {
    let mut router = CommandRouter::new("imu0");
    router.register("getStatus");
    assert_eq!(router.route("gnss0", "getStatus"), Route::NotForThisNode);
}

#[test]
fn default_handler() {
    let mut router = CommandRouter::new("node");
    router.set_default_handler();
    assert_eq!(router.route("node", "anyCommand"), Route::Default);
}

#[test]
fn route_without_handler_or_topic() {
    let mut router = CommandRouter::new("node");
    assert_eq!(router.route("node", "x"), Route::Unhandled);
    router.register("x");
    router.register("x");
    assert_eq!(router.route("", "x"), Route::Handler);
    assert!(router.has_handler("x"));
    assert!(!router.has_handler("y"));
    assert_eq!(router.commands(), vec!["x".to_owned()]);
    assert_eq!(router.node_name(), "node");
}

#[test]
fn type_name_correct() {
    assert_eq!(PlainJsonEncoder::data_type_name(DataKind::Imu), "ImuData");
    assert_eq!(PlainJsonEncoder::data_type_name(DataKind::Rtcm), "RTCMData");
    assert_eq!(PlainJsonEncoder::data_type_name(DataKind::Extension), "Extension");
}

#[test]
fn roundtrip_imu() {
    let inner = JsonValue::Object(vec![("period".to_owned(), JsonValue::Number(JsonNumber::PosInt(0)))]);
    let wrapped = JsonEncoder::wrap(DataKind::Imu, inner).unwrap();
    match JsonDecoder::decode(&wrapped) {
        Ok((kind, v)) => {
            assert_eq!(kind, DataKind::Imu);
            assert!(matches!(v.get("period"), Some(JsonValue::Number(JsonNumber::PosInt(0)))));
        }
        Err(e) => panic!("decode failed: {:?}", e),
    }
}

#[test]
fn roundtrip_timestamp() {
    let wrapped = JsonEncoder::wrap(DataKind::Timestamp, JsonValue::Null).unwrap();
    assert!(matches!(JsonDecoder::decode(&wrapped), Ok((DataKind::Timestamp, JsonValue::Null))));
}

#[test]
fn roundtrip_all_types() {
    for kind in ALL_KINDS {
        let wrapped = JsonEncoder::wrap(kind, JsonValue::Null).unwrap();
        match JsonDecoder::decode(&wrapped) {
            Ok((decoded, _)) => assert_eq!(decoded.variant_name(), kind.variant_name()),
            Err(e) => panic!("decode failed: {:?}", e),
        }
    }
    assert!(JsonEncoder::wrap(DataKind::Extension, JsonValue::Null).is_none());
}

#[test]
fn decode_unknown_type() {
    let v = JsonValue::Object(vec![("unknownType".to_owned(), JsonValue::Object(vec![]))]);
    assert_eq!(JsonDecoder::decode(&v).err(), Some(DecodeError::UnknownType("unknownType".to_owned())));
    assert_eq!(JsonDecoder::decode(&JsonValue::Object(vec![])).err(), Some(DecodeError::Empty));
    assert_eq!(JsonDecoder::decode(&JsonValue::Null).err(), Some(DecodeError::NotAnObject));
}

#[test]
fn wrapper_keys() {
    assert_eq!(JsonEncoder::wrapper_key(DataKind::FusedPose), Some("fusedPose"));
    assert_eq!(JsonEncoder::wrapper_key(DataKind::Rtcm), Some("RTCMData"));
    assert_eq!(JsonDecoder::kind_of("VelocityMeterData"), Some(DataKind::VelocityMeter));
    assert_eq!(JsonDecoder::kind_of("velocityMeterData"), None);
    assert_eq!(MqttEncoding::Json, MqttEncoding::Json);
    assert_ne!(MqttEncoding::Json, MqttEncoding::Protobuf);
}

#[test]
fn data_monitor_counts_messages() {
    let mut counters = Counters::new();
    counters.record(DataKind::Imu, 0);
    counters.record(DataKind::Imu, 0);
    counters.record(DataKind::Optical, 0);
    counters.record(DataKind::Gnss, 4);
    counters.record(DataKind::FusedPose, 0);
    let status = counters.to_json();
    assert_eq!(int_of(get(&status, "nImu")), Some(2));
    assert_eq!(int_of(get(&status, "nOptical")), Some(1));
    assert_eq!(int_of(get(&status, "nGnss")), Some(1));
    assert_eq!(int_of(get(&status, "gnssQuality")), Some(4));
    assert_eq!(int_of(get(&status, "nCan")), Some(0));
}

#[test]
fn data_monitor_sends_ws_command() {
    let counters = Counters::new();
    let report = counters.status_report();
    assert_eq!(report.str_field("description"), Some("inputStatus"));
    assert_eq!(report.str_field("status"), Some("OK"));
    assert_eq!(int_of(get(&report, "data").and_then(|d| d.get("nImu"))), Some(0));
}

#[test]
fn counters_wrap_around() {
    let mut counters = Counters::new();
    counters.n_can = i64::MAX;
    counters.record(DataKind::Can, 0);
    assert_eq!(counters.n_can, i64::MIN);
    assert!(matches!(counters.to_json().get("nCan"), Some(JsonValue::Number(JsonNumber::NegInt(i64::MIN)))));
}

#[test]
fn starts_idle() {
    let p = CalibrationProtocol::new();
    assert_eq!(p.state, HandEyeCalibrationState::Idle);
}

#[test]
fn start_command() {
    let mut p = CalibrationProtocol::new();
    assert_eq!(p.process_command("start"), CalibrationAction::Restart);
    assert_eq!(p.state, HandEyeCalibrationState::Collecting);
}

#[test]
fn stop_command() {
    let mut p = CalibrationProtocol::new();
    p.process_command("start");
    p.process_command("stop");
    assert_eq!(p.state, HandEyeCalibrationState::Idle);
}

#[test]
fn solve_fails_with_too_few_pairs() {
    let mut p = CalibrationProtocol::new();
    p.process_command("start");
    assert_eq!(p.process_command("solve"), CalibrationAction::Nothing);
    assert_eq!(p.state, HandEyeCalibrationState::Failed);
}

#[test]
fn reset_clears_state() {
    let mut p = CalibrationProtocol::new();
    p.process_command("start");
    assert_eq!(p.process_command("reset"), CalibrationAction::Clear);
    assert_eq!(p.state, HandEyeCalibrationState::Idle);
    assert_eq!(p.n_pairs, 0);
}

#[test]
fn ignores_data_when_idle() {
    let p = CalibrationProtocol::new();
    assert!(!p.accepts_data());
    assert_eq!(p.n_pairs, 0);
}

#[test]
fn calibration_collects_and_solves() {
    let mut p = CalibrationProtocol::new();
    p.process_command("startCalibration");
    assert!(p.accepts_data());
    assert!(!p.pair_collected(3, 200));
    assert!(!p.pair_collected(3, 200));
    assert!(p.pair_collected(3, 200));
    assert_eq!(p.process_command("solve"), CalibrationAction::Solve);
    assert_eq!(p.state, HandEyeCalibrationState::Solving);
    p.end_solve(true);
    assert_eq!(p.state, HandEyeCalibrationState::Finished);
    // Stopping outside of collection changes nothing.
    p.process_command("stopCalibration");
    assert_eq!(p.state, HandEyeCalibrationState::Finished);
    assert_eq!(p.process_command("getResult"), CalibrationAction::Publish);
    assert_eq!(p.process_command("dance"), CalibrationAction::Nothing);
    assert_eq!(parse_command("reset"), CalibrationCommand::Reset);
}

#[test]
fn hand_eye_settings_defaults() {
    let s = HandEyeSettings::from_json(&JsonValue::Object(vec![]));
    assert_eq!(s.name, "HandEyeCalibrationFilter");
    assert!(s.source_a_id.is_empty() && s.source_b_id.is_empty());
    assert_eq!((s.min_pairs, s.max_pairs), (20, 200));
    let s = HandEyeSettings::from_json(&JsonValue::Object(vec![
        ("sourceAId".to_owned(), JsonValue::String("a".to_owned())),
        ("minPairs".to_owned(), JsonValue::Number(JsonNumber::PosInt(5))),
    ]));
    assert_eq!(s.source_a_id, "a");
    assert_eq!(s.min_pairs, 5);
}

#[test]
fn file_logger_default_rotation() {
    let config = FileRotationConfig::default();
    assert_eq!(config.max_file_size_bytes, 100 * 1024 * 1024);
    assert_eq!(config.max_files, 10);
}

#[test]
fn rotated_path_index_zero() {
    assert_eq!(rotated_file_name("output", 0, "json"), None);
}

#[test]
fn rotated_path_index_nonzero() {
    assert_eq!(rotated_file_name("output", 3, "json"), Some("output.3.json".to_owned()));
    assert_eq!(rotated_file_name("log", 12, "txt"), Some("log.12.txt".to_owned()));
}

#[test]
fn decimal_text_values() {
    assert_eq!(decimal(0), "0");
    assert_eq!(decimal(9), "9");
    assert_eq!(decimal(10), "10");
    assert_eq!(decimal(1234567), "1234567");
}

#[test]
fn rotation_moves_through_the_ring() {
    let rotation = FileRotationConfig { max_file_size_bytes: 10, max_files: 3 };
    let mut state = RotationState::new();
    state.record_line(4);
    assert_eq!(state.end_batch(&rotation), None);
    assert_eq!(state.current_file_size, 5);
    state.record_line(4);
    assert_eq!(state.end_batch(&rotation), Some(1));
    assert_eq!(state.current_file_size, 0);
    assert_eq!(state.total_written, 2);
    state.record_line(20);
    assert_eq!(state.end_batch(&rotation), Some(2));
    state.record_line(20);
    assert_eq!(state.end_batch(&rotation), Some(0));
}

#[test]
fn alias_lists() {
    assert_eq!(aliases(&["ExampleSource", "exampleSource"]), vec!["ExampleSource", "exampleSource"]);
    assert!(aliases(&[]).is_empty());
}
