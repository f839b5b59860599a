use newengine_ecs_flecs::config::{
    apply_config_patches, backend_setup, decode_json_value, default_settings,
    parse_backend_config_blob, parse_backend_config_value, FlecsEcsPluginConfig,
};
use newengine_ecs_flecs::json::{merge_json_replace, JsonNumber, JsonValue};
use newengine_ecs_flecs::scene::{extract_scene_entity_records, normalize_scene_payload};
use newengine_ecs_flecs::text::{decimal_string, trim_text};

fn to_json(v: &serde_json::Value) -> JsonValue {
    match v {
        serde_json::Value::Null => JsonValue::Null,
        serde_json::Value::Bool(b) => JsonValue::Bool(*b),
        serde_json::Value::Number(n) => {
            if let Some(u) = n.as_u64() {
                JsonValue::Number(JsonNumber::PosInt(u))
            } else if let Some(i) = n.as_i64() {
                JsonValue::Number(JsonNumber::NegInt(i))
            } else {
                JsonValue::Number(JsonNumber::Float(n.to_string()))
            }
        }
        serde_json::Value::String(s) => JsonValue::Str(s.clone()),
        serde_json::Value::Array(a) => JsonValue::Array(a.iter().map(to_json).collect()),
        serde_json::Value::Object(m) => {
            JsonValue::Object(m.iter().map(|(k, v)| (k.clone(), to_json(v))).collect())
        }
    }
}

fn from_json(v: &JsonValue) -> serde_json::Value {
    match v {
        JsonValue::Null => serde_json::Value::Null,
        JsonValue::Bool(b) => serde_json::Value::Bool(*b),
        JsonValue::Number(JsonNumber::PosInt(u)) => serde_json::Value::from(*u),
        JsonValue::Number(JsonNumber::NegInt(i)) => serde_json::Value::from(*i),
        JsonValue::Number(JsonNumber::Float(s)) => serde_json::from_str(s).unwrap(),
        JsonValue::Str(s) => serde_json::Value::String(s.clone()),
        JsonValue::Array(a) => serde_json::Value::Array(a.iter().map(from_json).collect()),
        JsonValue::Object(m) => serde_json::Value::Object(
            m.iter().map(|(k, v)| (k.clone(), from_json(v))).collect(),
        ),
    }
}

fn parse(text: &str) -> JsonValue {
    to_json(&serde_json::from_str::<serde_json::Value>(text).unwrap())
}

fn text_of(v: &JsonValue) -> serde_json::Value {
    from_json(v)
}

fn expect(text: &str) -> serde_json::Value {
    serde_json::from_str(text).unwrap()
}

#[test]
fn merge_replaces_leaves_and_merges_objects() {
    let mut dst = parse(r#"{"a": 1, "b": {"x": 1, "y": 2}, "c": [1, 2]}"#);
    let src = parse(r#"{"b": {"y": 3, "z": 4}, "c": [9], "d": null}"#);
    merge_json_replace(&mut dst, &src);
    assert_eq!(
        text_of(&dst),
        expect(r#"{"a": 1, "b": {"x": 1, "y": 3, "z": 4}, "c": [9], "d": null}"#)
    );
}

#[test]
fn merge_of_non_object_replaces() {
    let mut dst = parse(r#"{"a": 1}"#);
    merge_json_replace(&mut dst, &parse("[1, 2.5]"));
    assert_eq!(text_of(&dst), expect("[1, 2.5]"));
    let mut dst2 = parse("7");
    merge_json_replace(&mut dst2, &parse(r#"{"k": -3}"#));
    assert_eq!(text_of(&dst2), expect(r#"{"k": -3}"#));
}

#[test]
fn merge_twice_is_merge_once() {
    let base = parse(r#"{"a": {"b": 1}, "keep": true}"#);
    let patch = parse(r#"{"a": {"c": 2}, "n": {"m": {}}}"#);
    let mut once = base.deep_clone();
    merge_json_replace(&mut once, &patch);
    let mut twice = once.deep_clone();
    merge_json_replace(&mut twice, &patch);
    assert_eq!(text_of(&once), text_of(&twice));
}

#[test]
fn default_config_values() {
    let c = FlecsEcsPluginConfig::default();
    assert_eq!(c.debug_text, "North Star | Constellation ECS/entity authority backend");
    assert_eq!(c.initial_entity_capacity, 4096);
    assert!(c.minimal_world);
    assert!(!c.progress_on_advance_tick);
}

#[test]
fn default_settings_document_matches_defaults() {
    let doc = default_settings();
    let text = serde_json::to_string_pretty(&from_json(&doc)).unwrap();
    assert_eq!(
        text,
        "{\n  \"debug_text\": \"North Star | Constellation ECS/entity authority backend\",\n  \"initial_entity_capacity\": 4096,\n  \"minimal_world\": true,\n  \"progress_on_advance_tick\": false\n}"
    );
    let c = parse_backend_config_value(&doc).unwrap();
    let d = FlecsEcsPluginConfig::default();
    assert_eq!(c.debug_text, d.debug_text);
    assert_eq!(c.initial_entity_capacity, d.initial_entity_capacity);
    assert_eq!(c.minimal_world, d.minimal_world);
    assert_eq!(c.progress_on_advance_tick, d.progress_on_advance_tick);
}

#[test]
fn config_values_are_read_and_clamped() {
    let c = parse_backend_config_value(&parse(
        r#"{"debug_text": "dbg", "initial_entity_capacity": -5, "minimal_world": false, "progress_on_advance_tick": true}"#,
    ))
    .unwrap();
    assert_eq!(c.debug_text, "dbg");
    assert_eq!(c.initial_entity_capacity, 0);
    assert!(!c.minimal_world);
    assert!(c.progress_on_advance_tick);
    let big = parse_backend_config_value(&parse(r#"{"initial_entity_capacity": 99999999999}"#)).unwrap();
    assert_eq!(big.initial_entity_capacity, i32::MAX);
    let huge = parse_backend_config_value(&parse(r#"{"initial_entity_capacity": 18446744073709551615}"#)).unwrap();
    assert_eq!(huge.initial_entity_capacity, 4096);
    let wrong = parse_backend_config_value(&parse(r#"{"minimal_world": "no", "initial_entity_capacity": 1.5}"#)).unwrap();
    assert!(wrong.minimal_world);
    assert_eq!(wrong.initial_entity_capacity, 4096);
}

#[test]
fn config_blob_defaults_and_errors() {
    let d = parse_backend_config_blob(None).unwrap();
    assert_eq!(d.initial_entity_capacity, 4096);
    let e = parse_backend_config_blob(Some(Err("bad".to_string())));
    assert_eq!(e.err().unwrap(), "flecs ecs config parse failed: bad");
    let o = parse_backend_config_blob(Some(Ok(parse("[1]"))));
    assert_eq!(o.err().unwrap(), "flecs ecs config must be a JSON object");
    let v = parse_backend_config_blob(Some(Ok(parse(r#"{"initial_entity_capacity": 12}"#)))).unwrap();
    assert_eq!(v.initial_entity_capacity, 12);
}

#[test]
fn patches_layer_over_defaults() {
    let out = apply_config_patches(
        Ok(default_settings()),
        &vec![Ok(parse(r#"{"minimal_world": false}"#)), Ok(parse(r#"{"debug_text": "x"}"#))],
    )
    .unwrap();
    let c = parse_backend_config_value(&out).unwrap();
    assert!(!c.minimal_world);
    assert_eq!(c.debug_text, "x");
    assert_eq!(c.initial_entity_capacity, 4096);
}

#[test]
fn patch_errors_name_the_first_failure() {
    let e1 = apply_config_patches(Err("eof".to_string()), &vec![]);
    assert_eq!(e1.err().unwrap(), "flecs ecs defaults parse failed: eof");
    let e2 = apply_config_patches(Ok(parse("3")), &vec![]);
    assert_eq!(e2.err().unwrap(), "flecs ecs defaults must be a JSON object");
    let e3 = apply_config_patches(
        Ok(default_settings()),
        &vec![Ok(parse("[]")), Err("later".to_string())],
    );
    assert_eq!(e3.err().unwrap(), "flecs ecs patch must be a JSON object");
    let e4 = apply_config_patches(
        Ok(default_settings()),
        &vec![Ok(parse("{}")), Err("oops".to_string()), Ok(parse("[]"))],
    );
    assert_eq!(e4.err().unwrap(), "flecs ecs patch parse failed: oops");
}

#[test]
fn backend_setup_reserves_only_positive_capacity() {
    let mut c = FlecsEcsPluginConfig::default();
    let s = backend_setup(&c);
    assert!(s.minimal_world);
    assert_eq!(s.entity_capacity, Some(4096));
    c.initial_entity_capacity = 0;
    c.minimal_world = false;
    let s2 = backend_setup(&c);
    assert!(!s2.minimal_world);
    assert_eq!(s2.entity_capacity, None);
}

#[test]
fn decode_payload_empty_is_empty_object() {
    let v = decode_json_value(None, "m").unwrap();
    assert_eq!(text_of(&v), expect("{}"));
    let e = decode_json_value(Some(Err("x".to_string())), "scene.load_json_v1");
    assert_eq!(e.err().unwrap(), "scene.load_json_v1: x");
}

#[test]
fn text_helpers() {
    assert_eq!(decimal_string(0), "0");
    assert_eq!(decimal_string(907), "907");
    assert_eq!(decimal_string(u64::MAX), "18446744073709551615");
    assert_eq!(trim_text("  a b \t\n"), "a b");
    assert_eq!(trim_text("\u{3000}x\u{2003}"), "x");
    assert_eq!(trim_text("   "), "");
}

#[test]
fn normalize_unwraps_scene_then_payload() {
    let a = normalize_scene_payload(parse(r#"{"scene": {"k": 1}, "payload": {"k": 2}}"#));
    assert_eq!(text_of(&a), expect(r#"{"k": 1}"#));
    let b = normalize_scene_payload(parse(r#"{"payload": {"k": 2}}"#));
    assert_eq!(text_of(&b), expect(r#"{"k": 2}"#));
    let c = normalize_scene_payload(parse(r#"{"k": 3}"#));
    assert_eq!(text_of(&c), expect(r#"{"k": 3}"#));
}

#[test]
fn records_from_sections_and_prefabs() {
    let recs = extract_scene_entity_records(&parse(
        r#"{"postfx": 1, "player": {"hp": 2}, "prefabs": ["a", "b"], "other": 0}"#,
    ));
    let texts: Vec<serde_json::Value> = recs.iter().map(from_json).collect();
    assert_eq!(
        texts,
        vec![
            expect(r#"{"kind": "scene.player", "name": "player", "payload": {"hp": 2}}"#),
            expect(r#"{"kind": "scene.postfx", "name": "postfx", "payload": 1}"#),
            expect(r#"{"kind": "scene.prefab", "name": "prefab_0", "payload": "a"}"#),
            expect(r#"{"kind": "scene.prefab", "name": "prefab_1", "payload": "b"}"#),
        ]
    );
    let direct = extract_scene_entity_records(&parse(r#"{"entities": [1, 2, 3], "player": {}}"#));
    assert_eq!(direct.len(), 3);
    let not_array = extract_scene_entity_records(&parse(r#"{"entities": {}, "sky": 1}"#));
    assert_eq!(not_array.len(), 1);
}
