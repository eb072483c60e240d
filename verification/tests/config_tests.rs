use fusion::configuration_node::ConfigurationNode;
use fusion::json::{JsonNumber, JsonValue};

fn text(s: &str) -> JsonValue {
    JsonValue::String(s.to_owned())
}

fn num(n: u64) -> JsonValue {
    JsonValue::Number(JsonNumber::PosInt(n))
}

fn obj(entries: Vec<(&str, JsonValue)>) -> JsonValue {
    JsonValue::Object(entries.into_iter().map(|(k, v)| (k.to_owned(), v)).collect())
}

fn is_text(v: Option<&JsonValue>, s: &str) -> bool {
    matches!(v, Some(JsonValue::String(t)) if t == s)
}

fn is_num(v: Option<&JsonValue>, n: u64) -> bool {
    matches!(v, Some(JsonValue::Number(JsonNumber::PosInt(m))) if *m == n)
}

#[test]
fn config_set_get() {
    let mut node = ConfigurationNode::new("cfg", "/tmp/nonexistent.json");
    node.set("key1", text("value1"));
    let val = node.get("/key1");
    assert!(is_text(val, "value1"));
}

#[test]
fn config_merge() {
    let mut node = ConfigurationNode::new("cfg", "/tmp/nonexistent.json");
    node.set("a", num(1));
    node.merge(obj(vec![("b", num(2)), ("c", num(3))]));
    assert!(is_num(node.get("/a"), 1));
    assert!(is_num(node.get("/b"), 2));
    assert!(is_num(node.get("/c"), 3));
}

#[test]
fn config_merge_overrides_and_ignores_non_objects() {
    let mut node = ConfigurationNode::new("cfg", "cfg.json");
    node.set("a", num(1));
    node.merge(obj(vec![("a", num(5)), ("a", num(6))]));
    assert!(is_num(node.get("/a"), 6));
    node.merge(num(9));
    assert!(is_num(node.get("/a"), 6));
    node.load_value(JsonValue::Array(vec![num(1)]));
    node.set("x", num(1));
    assert!(node.get("/x").is_none());
    assert!(is_num(node.get("/0"), 1));
}

#[test]
fn config_pointer_paths() {
    let mut node = ConfigurationNode::new("cfg", "cfg.json");
    node.load_value(obj(vec![
        ("outer", obj(vec![("inner", text("deep")), ("a/b", num(1)), ("m~n", num(2))])),
        ("list", JsonValue::Array(vec![num(10), num(20)])),
    ]));
    assert!(is_text(node.get("/outer/inner"), "deep"));
    assert!(is_num(node.get("/outer/a~1b"), 1));
    assert!(is_num(node.get("/outer/m~0n"), 2));
    assert!(is_num(node.get("/list/1"), 20));
    assert!(node.get("/list/2").is_none());
    assert!(node.get("/list/01").is_none());
    assert!(node.get("outer").is_none());
    assert!(matches!(node.get(""), Some(JsonValue::Object(_))));
}

#[test]
fn config_node_accessors() {
    let mut node = ConfigurationNode::new("settings", "/etc/hub.json");
    assert_eq!(node.name(), "settings");
    assert_eq!(node.file_path(), "/etc/hub.json");
    assert!(node.is_enabled());
    node.set_enabled(false);
    assert!(!node.is_enabled());
    assert!(matches!(node.config(), JsonValue::Object(e) if e.is_empty()));
}

#[test]
fn json_value_field_readers() {
    let v = obj(vec![("s", text("x")), ("b", JsonValue::Bool(true)), ("n", num(7))]);
    assert_eq!(v.value_str("s", "d"), "x");
    assert_eq!(v.value_str("n", "d"), "d");
    assert!(v.value_bool("b", false));
    assert!(!v.value_bool("s", false));
    assert_eq!(v.value_u64("n", 1), 7);
    assert_eq!(v.value_u64("missing", 1), 1);
    assert_eq!(JsonValue::Number(JsonNumber::NegInt(-3)).as_i64(), Some(-3));
    assert_eq!(num(u64::MAX).as_i64(), None);
}
