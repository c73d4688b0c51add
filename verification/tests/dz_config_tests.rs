//! Settings held in memory: what a read gives back of a write.
use cardmaker::dz::config::ConfigData;
use cardmaker::json::JsonValue;

#[test]
fn test_set_and_get() {
    let mut store = ConfigData::new();
    store.set("theme", "dark");
    assert_eq!(store.get("theme"), Some("dark".to_string()));
}

#[test]
fn test_get_nonexistent() {
    let store = ConfigData::new();
    assert_eq!(store.get("nonexistent"), None);
}

#[test]
fn test_set_overwrites() {
    let mut store = ConfigData::new();
    store.set("key", "value1");
    store.set("key", "value2");
    assert_eq!(store.get("key"), Some("value2".to_string()));
}

fn resolution() -> JsonValue {
    JsonValue::Object(vec![
        ("width".to_string(), JsonValue::Number("1920".to_string())),
        ("height".to_string(), JsonValue::Number("1080".to_string())),
    ])
}

fn same_json(a: &JsonValue, b: &JsonValue) -> bool {
    format!("{:?}", a) == format!("{:?}", b)
}

#[test]
fn test_get_json_and_set_json() {
    let mut store = ConfigData::new();
    store.set_json("resolution", resolution());
    let retrieved = store.get_json("resolution");
    assert!(retrieved.is_some());
    assert!(same_json(&retrieved.unwrap(), &resolution()));
}

#[test]
fn test_roundtrip_integer_value() {
    let mut store = ConfigData::new();
    store.set_json("count", JsonValue::Number("42".to_string()));
    let v = store.get_json("count").unwrap();
    assert!(same_json(&v, &JsonValue::Number("42".to_string())));
    assert_eq!(store.get("count"), Some("42".to_string()));
}

#[test]
fn test_config_get_shows_json_of_non_text() {
    let mut store = ConfigData::new();
    store.set_json("flag", JsonValue::Bool(true));
    store.set_json("res", resolution());
    assert_eq!(store.get("flag"), Some("true".to_string()));
    // serde_json writes object members in key order.
    assert_eq!(store.get("res"), Some("{\"height\":1080,\"width\":1920}".to_string()));
}

#[test]
fn test_config_from_text() {
    let store = ConfigData::from_text("{\"key1\": \"val1\", \"key2\": \"val2\"}").unwrap();
    assert_eq!(store.get("key1"), Some("val1".to_string()));
    assert_eq!(store.get("key2"), Some("val2".to_string()));
    assert!(ConfigData::from_text("[1, 2]").is_none());
    assert!(ConfigData::from_text("not json").is_none());
    assert_eq!(ConfigData::from_text("{}").unwrap().pairs().len(), 0);
}

#[test]
fn test_config_write_leaves_other_keys() {
    let mut store = ConfigData::new();
    store.set("a", "1");
    store.set("b", "2");
    store.set("a", "3");
    assert_eq!(store.get("b"), Some("2".to_string()));
    assert_eq!(store.get("a"), Some("3".to_string()));
    assert_eq!(store.pairs().len(), 2);
}
