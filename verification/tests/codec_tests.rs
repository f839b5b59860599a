use newengine_ecs_flecs::codec::describe_text;
use newengine_ecs_flecs::config::{
    apply_config_patch_bytes, decode_request_bytes, default_settings_bytes, parse_backend_config_bytes,
};
use newengine_ecs_flecs::json::{JsonNumber, JsonValue};
use newengine_ecs_flecs::service::{save_answer, scene_from_asset, SaveRequest};

const DEFAULT_SETTINGS_TEXT: &str = r#"{
  "debug_text": "North Star | Constellation ECS/entity authority backend",
  "initial_entity_capacity": 4096,
  "minimal_world": true,
  "progress_on_advance_tick": false
}"#;

fn object(members: Vec<(&str, JsonValue)>) -> JsonValue {
    JsonValue::Object(members.into_iter().map(|(k, v)| (k.to_string(), v)).collect())
}

fn pos_int(u: u64) -> JsonValue {
    JsonValue::Number(JsonNumber::PosInt(u))
}

#[test]
fn default_settings_bytes_are_the_documented_defaults() {
    let bytes = default_settings_bytes().unwrap();
    assert_eq!(String::from_utf8(bytes).unwrap(), DEFAULT_SETTINGS_TEXT);
}

#[test]
fn patch_bytes_layer_over_the_base() {
    let base = default_settings_bytes().unwrap();
    let patches = vec![
        br#"{"minimal_world": false}"#.to_vec(),
        br#"{"initial_entity_capacity": 12}"#.to_vec(),
    ];
    let out = apply_config_patch_bytes(&base, &patches).unwrap();
    let v: serde_json::Value = serde_json::from_slice(&out).unwrap();
    assert_eq!(v["minimal_world"], false);
    assert_eq!(v["initial_entity_capacity"], 12);
    assert_eq!(v["progress_on_advance_tick"], false);
    assert_eq!(v["debug_text"], "North Star | Constellation ECS/entity authority backend");
    assert!(String::from_utf8(out).unwrap().starts_with("{\n  \""));
}

#[test]
fn patch_bytes_report_the_first_bad_document() {
    let base = default_settings_bytes().unwrap();
    let not_object = apply_config_patch_bytes(&base, &vec![b"[1]".to_vec(), b"{".to_vec()]);
    assert_eq!(not_object.err().unwrap(), "flecs ecs patch must be a JSON object");
    let broken = apply_config_patch_bytes(&base, &vec![b"{".to_vec()]).err().unwrap();
    assert!(broken.starts_with("flecs ecs patch parse failed: EOF while parsing an object"));
    let bad_base = apply_config_patch_bytes(b"nope", &vec![]).err().unwrap();
    assert!(bad_base.starts_with("flecs ecs defaults parse failed: expected ident"));
    assert_eq!(apply_config_patch_bytes(b"7", &vec![]).err().unwrap(), "flecs ecs defaults must be a JSON object");
}

#[test]
fn config_bytes_give_the_settings() {
    let defaults = parse_backend_config_bytes(b"").unwrap();
    assert_eq!(defaults.initial_entity_capacity, 4096);
    assert!(defaults.minimal_world);
    let c = parse_backend_config_bytes(br#"{"initial_entity_capacity": 99999999999, "debug_text": "x"}"#).unwrap();
    assert_eq!(c.initial_entity_capacity, i32::MAX);
    assert_eq!(c.debug_text, "x");
    assert_eq!(parse_backend_config_bytes(b"[]").err().unwrap(), "flecs ecs config must be a JSON object");
    assert!(parse_backend_config_bytes(b"{,").err().unwrap().starts_with("flecs ecs config parse failed: "));
}

#[test]
fn request_bytes_decode_or_name_the_method() {
    let empty = decode_request_bytes(b"", "m").unwrap();
    assert!(matches!(empty, JsonValue::Object(ref m) if m.is_empty()));
    let v = decode_request_bytes(br#"{"b": [1, -2, 1.5], "a": null}"#, "m").unwrap();
    let JsonValue::Object(members) = v else { panic!("not an object") };
    assert_eq!(members[0].0, "a");
    assert!(matches!(members[0].1, JsonValue::Null));
    assert_eq!(members[1].0, "b");
    let JsonValue::Array(items) = &members[1].1 else { panic!("not an array") };
    assert!(matches!(items[0], JsonValue::Number(JsonNumber::PosInt(1))));
    assert!(matches!(items[1], JsonValue::Number(JsonNumber::NegInt(-2))));
    assert!(matches!(&items[2], JsonValue::Number(JsonNumber::Float(t)) if t == "1.5"));
    let err = decode_request_bytes(b"{", "scene.save_json_v1").err().unwrap();
    assert!(err.starts_with("scene.save_json_v1: EOF while parsing an object"));
}

#[test]
fn asset_bytes_parse_or_name_the_asset() {
    let v = scene_from_asset("a.json", br#"{"entities": []}"#).unwrap();
    assert!(v.get("entities").is_some());
    let err = scene_from_asset("a.json", b"{").err().unwrap();
    assert!(err.starts_with("flecs scene service cannot parse scene asset path='a.json' err='EOF while parsing"));
    assert!(err.ends_with("'"));
}

#[test]
fn description_text_is_compact_json() {
    let doc = object(vec![("b", pos_int(1)), ("a", JsonValue::Str("x".to_string()))]);
    assert_eq!(describe_text(&doc), r#"{"a":"x","b":1}"#);
    let bad = JsonValue::Number(JsonNumber::Float("not a number".to_string()));
    assert_eq!(describe_text(&bad), "{}");
}

#[test]
fn save_answer_carries_the_text_form() {
    let payload = object(vec![("a", pos_int(1))]);
    let pretty = save_answer(&SaveRequest { path: "p".to_string(), pretty: true }, payload);
    let payload = object(vec![("a", pos_int(1))]);
    assert!(matches!(pretty.get("payload_text"), Some(JsonValue::Str(t)) if t == "{\n  \"a\": 1\n}"));
    let compact = save_answer(&SaveRequest { path: "p".to_string(), pretty: false }, payload);
    assert!(matches!(compact.get("payload_text"), Some(JsonValue::Str(t)) if t == "{\"a\":1}"));
    assert!(matches!(compact.get("pretty"), Some(JsonValue::Bool(false))));
}
