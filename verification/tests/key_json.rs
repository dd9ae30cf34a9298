use catan_service::buildings::{BuildingKey, BuildingPosition};
use catan_service::harbors::{Harbor, HarborKey, HarborType};
use catan_service::json::JsonValue;
use catan_service::roads::RoadKey;
use catan_service::tiles::{Direction, TileKey};
use serde_json::Value;

fn to_serde(v: &JsonValue) -> Value {
    match v {
        JsonValue::Null => Value::Null,
        JsonValue::Bool(b) => Value::Bool(*b),
        JsonValue::Number(t) => serde_json::from_str(t).expect("a number"),
        JsonValue::Str(s) => Value::String(s.clone()),
        JsonValue::Array(items) => Value::Array(items.iter().map(to_serde).collect()),
        JsonValue::Object(members) => {
            let mut m = serde_json::Map::new();
            for (k, x) in members {
                m.insert(k.clone(), to_serde(x));
            }
            Value::Object(m)
        }
    }
}

fn from_serde(v: &Value) -> JsonValue {
    match v {
        Value::Null => JsonValue::Null,
        Value::Bool(b) => JsonValue::Bool(*b),
        Value::Number(n) => JsonValue::Number(n.to_string()),
        Value::String(s) => JsonValue::Str(s.clone()),
        Value::Array(items) => JsonValue::Array(items.iter().map(from_serde).collect()),
        Value::Object(m) => JsonValue::Object(m.iter().map(|(k, x)| (k.clone(), from_serde(x))).collect()),
    }
}

/// Writes a value as JSON text and reads the text back.
fn through_text(v: &JsonValue) -> JsonValue {
    let text = serde_json::to_string(&to_serde(v)).unwrap();
    println!("{:#?}", text);
    let parsed: Value = serde_json::from_str(&text).unwrap();
    from_serde(&parsed)
}

#[test]
fn tile_key_test_tile_key_serialization() {
    let key = TileKey::new(-1, 2, 3);
    let tk_json = through_text(&key.to_json());
    let deserialized_key = TileKey::from_json(&tk_json).unwrap();
    assert_eq!(key, deserialized_key);
}

#[test]
fn regular_game_test_tile_key_serialization() {
    let tile_key = TileKey::new(-1, 2, 3);
    let tk_json = through_text(&tile_key.to_json());
    let deserialized_tile_key = TileKey::from_json(&tk_json).unwrap();
    assert_eq!(tile_key, deserialized_tile_key);
}

#[test]
fn tests_test_tile_key_serialization() {
    println!("test_tile_key_serialization");
    let tile_key = TileKey::new(-1, 2, 3);
    let tk_json = through_text(&tile_key.to_json());
    let deserialized_tile_key = TileKey::from_json(&tk_json).unwrap();
    assert_eq!(tile_key, deserialized_tile_key);
}

#[test]
fn road_key_test_road_key_serialization() {
    let key = RoadKey::new(Direction::North, TileKey::new(-1, 2, 3));
    let tk_json = through_text(&key.to_json());
    let deserialized_key = RoadKey::from_json(&tk_json).unwrap();
    assert_eq!(key, deserialized_key);
}

#[test]
fn regular_game_test_road_key_serialization() {
    let key = RoadKey::new(Direction::North, TileKey::new(-1, 2, 3));
    let tk_json = through_text(&key.to_json());
    let deserialized_key = RoadKey::from_json(&tk_json).unwrap();
    assert_eq!(key, deserialized_key);
}

#[test]
fn tests_test_road_key_serialization() {
    println!("test_road_key_serialization");
    let key = RoadKey::new(Direction::North, TileKey::new(-1, 2, 3));
    let tk_json = through_text(&key.to_json());
    let deserialized_key = RoadKey::from_json(&tk_json).unwrap();
    assert_eq!(key, deserialized_key);
}

#[test]
fn test_buliding_key_serialization() {
    let key = BuildingKey::new(BuildingPosition::BottomLeft, TileKey::new(-1, 2, 3));
    let tk_json = through_text(&key.to_json());
    let deserialized_key = BuildingKey::from_json(&tk_json).unwrap();
    assert_eq!(key, deserialized_key);
}

#[test]
fn harbor_key_test_harbor_key_serialization() {
    let key = HarborKey::new(TileKey::new(-1, 2, 3), Direction::South);
    let tk_json = through_text(&key.to_json());
    let deserialized_key = HarborKey::from_json(&tk_json).unwrap();
    assert_eq!(key, deserialized_key);
}

#[test]
fn harbor_test_harbor_key_serialization() {
    let key = HarborKey::new(TileKey::new(-1, 2, 3), Direction::South);
    let tk_json = through_text(&key.to_json());
    let deserialized_key = HarborKey::from_json(&tk_json).unwrap();
    assert_eq!(key, deserialized_key);
    let harbor = Harbor::new(deserialized_key, HarborType::Ore);
    let harbor_json = through_text(&harbor.to_json());
    let deserialized_harbor = Harbor::from_json(&harbor_json).unwrap();
    assert_eq!(deserialized_harbor, harbor);
}

#[test]
fn tile_key_json_text() {
    let text = serde_json::to_string(&to_serde(&TileKey::new(-1, 2, 3).to_json())).unwrap();
    assert_eq!(text, r#"{"q":-1,"r":2,"s":3}"#);
}

#[test]
fn key_json_member_names() {
    let key = RoadKey::new(Direction::SouthWest, TileKey::new(0, 0, 0));
    match key.to_json() {
        JsonValue::Object(m) => {
            assert_eq!(m[0].0, "tileKey");
            assert_eq!(m[1].0, "direction");
            assert!(matches!(&m[1].1, JsonValue::Str(s) if s == "SouthWest"));
        }
        other => panic!("unexpected {:?}", other),
    }
    match BuildingKey::new(BuildingPosition::TopLeft, TileKey::new(1, -1, 0)).to_json() {
        JsonValue::Object(m) => {
            assert_eq!(m[0].0, "BuildingPosition");
            assert!(matches!(&m[0].1, JsonValue::Str(s) if s == "TopLeft"));
            assert_eq!(m[1].0, "TileKey");
        }
        other => panic!("unexpected {:?}", other),
    }
}

#[test]
fn bad_key_json_is_refused() {
    let v = from_serde(&serde_json::from_str(r#"{"q":1,"r":"2","s":3}"#).unwrap());
    assert_eq!(TileKey::from_json(&v), None);
    let v = from_serde(&serde_json::from_str(r#"{"q":1,"r":2}"#).unwrap());
    assert_eq!(TileKey::from_json(&v), None);
    let v = from_serde(&serde_json::from_str(r#"{"q":1,"r":2,"s":3000000000}"#).unwrap());
    assert_eq!(TileKey::from_json(&v), None);
    let v = from_serde(&serde_json::from_str(r#"{"tileKey":{"q":0,"r":0,"s":0},"direction":"Up"}"#).unwrap());
    assert_eq!(RoadKey::from_json(&v), None);
    let v = from_serde(&serde_json::from_str(r#"{"harborKey":{"TileKey":{"q":0,"r":0,"s":0},"Position":"North"},"harborType":"Gold"}"#).unwrap());
    assert_eq!(Harbor::from_json(&v), None);
}

#[test]
fn building_key_text_is_its_json() {
    let key = BuildingKey::new(BuildingPosition::BottomLeft, TileKey::new(-1, 2, 3));
    let text = key.to_text();
    assert_eq!(text, r#"{"BuildingPosition":"BottomLeft","TileKey":{"q":-1,"r":2,"s":3}}"#);
    let parsed: Value = serde_json::from_str(&text).unwrap();
    assert_eq!(BuildingKey::from_json(&from_serde(&parsed)), Some(key));
}
