use fusion::clock::TimePoint;
use fusion::dtrack::{
    compute_midnight_utc, extract_bracket_groups, parse_directions, rotation_for_directions,
    vec_for_direction, DTrackSettings,
};
use fusion::json::{JsonNumber, JsonValue};

fn num(n: u64) -> JsonValue {
    JsonValue::Number(JsonNumber::PosInt(n))
}

#[test]
fn test_extract_bracket_groups() {
    let groups = extract_bracket_groups("[1 0.5][10 20 30][0.1 0.2 0.3 0.4 0.5 0.6 0.7 0.8 0.9]");
    assert_eq!(groups.len(), 3);
    assert_eq!(groups[0], "1 0.5");
    assert_eq!(groups[1], "10 20 30");
    assert_eq!(groups[2], "0.1 0.2 0.3 0.4 0.5 0.6 0.7 0.8 0.9");
}

#[test]
fn bracket_groups_edge_cases() {
    assert!(extract_bracket_groups("").is_empty());
    assert!(extract_bracket_groups("no groups").is_empty());
    assert_eq!(extract_bracket_groups("[a [b] c]"), vec!["a [b] c"]);
    assert!(extract_bracket_groups("[open").is_empty());
    assert_eq!(extract_bracket_groups("][a]"), vec!["a"]);
    assert_eq!(extract_bracket_groups("[a]]][b]"), vec!["a", "b"]);
}

#[test]
fn test_compute_midnight_utc() {
    let d = std::time::SystemTime::now().duration_since(std::time::UNIX_EPOCH).unwrap();
    let now = TimePoint { nanos: d.as_nanos() as i128 };
    let midnight = compute_midnight_utc(now);
    let since_midnight = now.duration_since(midnight).unwrap();
    assert!(since_midnight.nanos / 1_000_000_000 < 86400);
}

#[test]
fn midnight_exact_values() {
    let t = TimePoint { nanos: (86400 * 3 + 3600) * 1_000_000_000 + 5 };
    assert_eq!(compute_midnight_utc(t), TimePoint { nanos: 86400 * 3 * 1_000_000_000 });
    let m = compute_midnight_utc(t);
    assert_eq!(compute_midnight_utc(m), m);
    assert_eq!(compute_midnight_utc(TimePoint { nanos: -7 }), TimePoint { nanos: -86400 * 1_000_000_000 });
    assert_eq!(
        compute_midnight_utc(TimePoint { nanos: -86400 * 1_000_000_000 }),
        TimePoint { nanos: -86400 * 1_000_000_000 }
    );
}

#[test]
fn test_vec_for_direction() {
    assert_eq!(vec_for_direction("right"), Some([1, 0, 0]));
    assert_eq!(vec_for_direction("left"), Some([-1, 0, 0]));
    assert_eq!(vec_for_direction("up"), Some([0, 1, 0]));
    assert_eq!(vec_for_direction("down"), Some([0, -1, 0]));
    assert_eq!(vec_for_direction("forward"), Some([0, 0, -1]));
    assert_eq!(vec_for_direction("backward"), Some([0, 0, 1]));
    assert_eq!(vec_for_direction("invalid"), None);
}

#[test]
fn test_rotation_for_directions_identity() {
    let dirs = ["right".to_string(), "up".to_string(), "backward".to_string()];
    let rot = rotation_for_directions(&dirs).unwrap();
    assert_eq!(rot, [[1, 0, 0], [0, 1, 0], [0, 0, 1]]);
}

#[test]
fn test_rotation_for_directions_flipped() {
    let dirs = ["left".to_string(), "down".to_string(), "forward".to_string()];
    let rot = rotation_for_directions(&dirs).unwrap();
    assert_eq!(rot, [[-1, 0, 0], [0, -1, 0], [0, 0, -1]]);
}

#[test]
fn test_rotation_for_directions_invalid() {
    let dirs = ["right".to_string(), "right".to_string(), "right".to_string()];
    assert!(rotation_for_directions(&dirs).is_err());
}

#[test]
fn rotation_for_directions_columns_and_errors() {
    // Columns are the axis vectors: X -> up, Y -> left, Z -> backward.
    let dirs = ["up".to_string(), "left".to_string(), "backward".to_string()];
    assert_eq!(rotation_for_directions(&dirs).unwrap(), [[0, -1, 0], [1, 0, 0], [0, 0, 1]]);
    let dirs = ["right".to_string(), "sideways".to_string(), "up".to_string()];
    let err = rotation_for_directions(&dirs).unwrap_err();
    assert!(err.contains("sideways"));
}

#[test]
fn test_body_id_parsing() {
    let config = JsonValue::Object(vec![
        ("bodyIDs".to_owned(), JsonValue::Array(vec![num(1), num(3), num(5)])),
        ("port".to_owned(), num(5000)),
    ]);
    let settings = DTrackSettings::from_json(&config);
    assert_eq!(settings.body_ids, vec![0, 2, 4]);
}

#[test]
fn test_default_config() {
    let config = JsonValue::Object(vec![
        ("bodyIDs".to_owned(), JsonValue::Array(vec![num(1)])),
        ("port".to_owned(), num(5000)),
    ]);
    let settings = DTrackSettings::from_json(&config);
    assert_eq!(settings.port, 5000);
    assert_eq!(settings.body_ids, vec![0]);
    assert!(settings.multicast_group.is_empty());
    assert_eq!(settings.timeout_ms, 100);
}

#[test]
fn directions_from_config() {
    let key = "roomDirections";
    let config = JsonValue::Object(vec![(
        key.to_owned(),
        JsonValue::Array(vec![JsonValue::String("left".to_owned()), num(3), JsonValue::String("up".to_owned())]),
    )]);
    assert_eq!(parse_directions(&config, key), ["left".to_owned(), "up".to_owned(), "up".to_owned()]);
    let short = JsonValue::Object(vec![(key.to_owned(), JsonValue::Array(vec![]))]);
    assert_eq!(parse_directions(&short, key), ["right".to_owned(), "up".to_owned(), "backward".to_owned()]);
}
