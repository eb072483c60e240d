use fusion::clock::{Clock, Clockwork, TimePoint};
use fusion::connected_node::{
    check_endpoints, is_valid_ip_or_localhost_with_port, passes_data_filter, prepare_clocks,
    process_output, process_output_at, ConnectedNodeConfig, EndpointConfig, OutputRateLimiter,
    OutputStep,
};
use fusion::encoders::DataKind;
use fusion::json::{JsonNumber, JsonValue};

fn text(s: &str) -> JsonValue {
    JsonValue::String(s.to_owned())
}

fn num(n: u64) -> JsonValue {
    JsonValue::Number(JsonNumber::PosInt(n))
}

fn obj(entries: Vec<(&str, JsonValue)>) -> JsonValue {
    JsonValue::Object(entries.into_iter().map(|(k, v)| (k.to_owned(), v)).collect())
}

#[test]
fn connected_node_config_from_json() {
    let json = obj(vec![
        ("dataClockName", text("gps_clock")),
        ("isClockGenerator", JsonValue::Bool(true)),
        ("generatedClockName", text("my_clock")),
        ("isClockManual", JsonValue::Bool(false)),
        ("publishIntervalMs", num(50)),
        ("commandPublishIntervalMs", num(200)),
        ("inputDataFilter", JsonValue::Array(vec![text("Imu"), text("Gnss")])),
    ]);
    let config = ConnectedNodeConfig::from_json(&json, "testNode");
    assert_eq!(config.data_clock_name, "gps_clock");
    assert!(config.is_clock_generator);
    assert_eq!(config.generated_clock_name, "my_clock");
    assert!(!config.is_clock_manual);
    assert_eq!(config.publish_interval_ms, 50);
    assert_eq!(config.command_publish_interval_ms, 200);
    assert_eq!(config.input_data_filter, vec!["Imu", "Gnss"]);
}

#[test]
fn config_defaults() {
    let json = obj(vec![]);
    let config = ConnectedNodeConfig::from_json(&json, "myNode");
    assert_eq!(config.data_clock_name, "system_clock");
    assert!(!config.is_clock_generator);
    assert_eq!(config.generated_clock_name, "myNode_clock");
    assert!(!config.is_clock_manual);
    assert_eq!(config.publish_interval_ms, 0);
    assert_eq!(config.command_publish_interval_ms, 100);
    assert!(config.input_data_filter.is_empty());
}

#[test]
fn config_mistyped_entries_take_defaults() {
    let json = obj(vec![
        ("dataClockName", num(3)),
        ("isClockGenerator", text("yes")),
        ("publishIntervalMs", text("10")),
        ("inputDataFilter", JsonValue::Array(vec![num(1), text("Optical"), JsonValue::Null])),
    ]);
    let config = ConnectedNodeConfig::from_json(&json, "n");
    assert_eq!(config.data_clock_name, "system_clock");
    assert!(!config.is_clock_generator);
    assert_eq!(config.publish_interval_ms, 0);
    assert_eq!(config.input_data_filter, vec!["Optical"]);
    let default = ConnectedNodeConfig::default();
    assert_eq!(default.data_clock_name, "system_clock");
    assert_eq!(default.command_publish_interval_ms, 100);
}

#[test]
fn endpoint_config_default_is_empty() {
    let e = EndpointConfig::default();
    assert!(e.data_publish.is_empty());
    assert!(e.data_subscribe.is_empty());
    assert!(e.command_in.is_empty());
    assert!(e.command_out.is_empty());
    assert!(e.command_input_endpoints.is_empty());
}

#[test]
fn rate_limiter_no_limit() {
    let mut rl = OutputRateLimiter::new(0, 0);
    assert!(rl.should_publish_data("Timestamp"));
    assert!(rl.should_publish_data("Timestamp"));
    assert!(rl.should_publish_command("topic"));
    assert!(rl.should_publish_command("topic"));
}

#[test]
fn rate_limiter_limits_data() {
    let mut rl = OutputRateLimiter::new(1000, 0);
    assert!(rl.should_publish_data("Timestamp"));
    assert!(!rl.should_publish_data("Timestamp"));
}

#[test]
fn rate_limiter_different_types_independent() {
    let mut rl = OutputRateLimiter::new(1000, 0);
    assert!(rl.should_publish_data("Timestamp"));
    assert!(rl.should_publish_data("Imu"));
    assert!(!rl.should_publish_data("Timestamp"));
    assert!(!rl.should_publish_data("Imu"));
}

#[test]
fn rate_limiter_limits_commands() {
    let mut rl = OutputRateLimiter::new(0, 1000);
    assert!(rl.should_publish_command("topic1"));
    assert!(!rl.should_publish_command("topic1"));
    assert!(rl.should_publish_command("topic2"));
}

#[test]
fn rate_limiter_allows_again_after_interval() {
    let mut rl = OutputRateLimiter::new(10, 0);
    assert!(rl.should_publish_data_at("Imu", 0));
    assert!(!rl.should_publish_data_at("Imu", 9_999_999));
    assert!(rl.should_publish_data_at("Imu", 10_000_000));
    // The refused item did not move the window.
    assert!(!rl.should_publish_data_at("Imu", 19_999_999));
    assert!(rl.should_publish_data_at("Imu", 20_000_000));
    // A clock reading before the last send counts as no time passed.
    assert!(!rl.should_publish_data_at("Imu", 5));
}

#[test]
fn data_filter_empty_passes_all() {
    let filter: Vec<String> = vec![];
    assert!(passes_data_filter("Imu", &filter));
}

#[test]
fn data_filter_matches() {
    let filter = vec!["Imu".to_owned(), "Gnss".to_owned()];
    assert!(passes_data_filter(DataKind::Imu.variant_name(), &filter));
    assert!(passes_data_filter(DataKind::Gnss.variant_name(), &filter));
    assert!(!passes_data_filter(DataKind::Optical.variant_name(), &filter));
}

#[test]
fn check_endpoints_valid() {
    assert!(check_endpoints(&["tcp://127.0.0.1:5000".into()]));
    assert!(check_endpoints(&["tcp://localhost:5000".into()]));
    assert!(check_endpoints(&["inproc://test".into()]));
}

#[test]
fn check_endpoints_invalid() {
    assert!(!check_endpoints(&["tcp://bad_host:5000".into()]));
}

#[test]
fn endpoint_address_edge_cases() {
    assert!(is_valid_ip_or_localhost_with_port("*:5555"));
    assert!(is_valid_ip_or_localhost_with_port("255.255.255.255:1"));
    assert!(!is_valid_ip_or_localhost_with_port("256.0.0.1:1"));
    assert!(!is_valid_ip_or_localhost_with_port("1.2.3:80"));
    assert!(!is_valid_ip_or_localhost_with_port("1.2.3.4:"));
    assert!(!is_valid_ip_or_localhost_with_port("1.2.3.4:8a"));
    assert!(!is_valid_ip_or_localhost_with_port("1.2.3.4"));
    assert!(!is_valid_ip_or_localhost_with_port("1.2.3.0004:80"));
    assert!(check_endpoints(&[]));
    assert!(!check_endpoints(&["tcp://127.0.0.1:5000".into(), "udp://x".into()]));
}

#[test]
fn prepare_clocks_adds_generated_clock() {
    let mut config = ConnectedNodeConfig::default();
    config.is_clock_generator = true;
    config.generated_clock_name = "node_clock".to_owned();
    let mut cw = Clockwork::new();
    prepare_clocks(&mut config, &mut cw);
    assert_eq!(config.data_clock_name, "node_clock");
    assert!(cw.get_clock("node_clock").is_some());
    assert_eq!(cw.active_clock().unwrap().name(), "node_clock");

    let mut plain = ConnectedNodeConfig::default();
    let mut cw2 = Clockwork::new();
    prepare_clocks(&mut plain, &mut cw2);
    assert_eq!(plain.data_clock_name, "system_clock");
    assert!(cw2.clock_names().is_empty());
}

#[test]
fn process_output_sets_sender_id() {
    let mut config = ConnectedNodeConfig::default();
    config.is_clock_manual = true;
    let mut cw = Clockwork::new();
    let mut rl = OutputRateLimiter::new(config.publish_interval_ms, config.command_publish_interval_ms);
    let step = process_output(&config, &mut cw, &mut rl, DataKind::Imu, None, true);
    assert_eq!(step, OutputStep::Publish { set_sender_id: true, timestamp: None });
}

#[test]
fn process_output_timestamp_returns_none() {
    let config = ConnectedNodeConfig::default();
    let mut cw = Clockwork::new();
    let mut rl = OutputRateLimiter::new(0, 100);
    let step = process_output(&config, &mut cw, &mut rl, DataKind::Timestamp, Some(TimePoint { nanos: 5 }), false);
    assert_eq!(step, OutputStep::Drop);
}

#[test]
fn process_output_rate_limited() {
    let mut config = ConnectedNodeConfig::default();
    config.is_clock_manual = true;
    config.publish_interval_ms = 5000;
    let mut cw = Clockwork::new();
    let mut rl = OutputRateLimiter::new(config.publish_interval_ms, config.command_publish_interval_ms);
    assert_ne!(process_output(&config, &mut cw, &mut rl, DataKind::Imu, None, false), OutputStep::Drop);
    assert_eq!(process_output(&config, &mut cw, &mut rl, DataKind::Imu, None, false), OutputStep::Drop);
}

#[test]
fn process_output_stamps_from_data_clock() {
    let mut config = ConnectedNodeConfig::default();
    config.data_clock_name = "gps".to_owned();
    let mut cw = Clockwork::new();
    cw.add_clock(Clock::new("gps"));
    let mut rl = OutputRateLimiter::new(0, 100);
    // Clock never set: published without a new timestamp.
    let step = process_output_at(&config, &mut cw, &mut rl, DataKind::Optical, None, false, TimePoint { nanos: 10 }, 0);
    assert_eq!(step, OutputStep::Publish { set_sender_id: false, timestamp: None });
    cw.update_clock_at("gps", TimePoint { nanos: 1_000 }, TimePoint { nanos: 10 });
    let step = process_output_at(&config, &mut cw, &mut rl, DataKind::Optical, None, false, TimePoint { nanos: 20 }, 0);
    assert_eq!(step, OutputStep::Publish { set_sender_id: false, timestamp: Some(TimePoint { nanos: 1_010 }) });
}

#[test]
fn process_output_timestamp_sets_generated_clock() {
    let mut config = ConnectedNodeConfig::default();
    config.is_clock_generator = true;
    config.generated_clock_name = "gen".to_owned();
    let mut cw = Clockwork::new();
    prepare_clocks(&mut config, &mut cw);
    let mut rl = OutputRateLimiter::new(0, 100);
    let step = process_output_at(
        &config, &mut cw, &mut rl, DataKind::Timestamp, Some(TimePoint { nanos: 500 }), false, TimePoint { nanos: 100 }, 0,
    );
    assert_eq!(step, OutputStep::Drop);
    let clock = cw.get_clock("gen").unwrap();
    assert!(clock.is_initialized());
    assert_eq!(clock.offset_nanos(), 400);
}
