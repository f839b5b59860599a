use newengine_ecs_flecs::config::FlecsEcsPluginConfig;
use newengine_ecs_flecs::json::{JsonNumber, JsonValue};
use newengine_ecs_flecs::service::{
    backend_routes, ecs_describe, ecs_service_info, entity_describe, entity_service_info,
    plan_scene_load, provided_services, route_ecs_call, route_ecs_invoke, route_entity_call,
    route_entity_invoke, route_scene_call, save_request, save_response, scene_asset_parse_error,
    scene_asset_read_error, scene_describe, scene_formats, EcsMethod, EntityMethod, SceneMethod,
    SceneSource, ECS_BACKEND_CAPABILITY_ID, ECS_PROVIDER_GATEWAY_ID, ECS_SERVICE_ID,
    ENTITY_BACKEND_CAPABILITY_ID, ENTITY_PROVIDER_GATEWAY_ID, ENTITY_SERVICE_ID, FLECS_BACKEND_ID,
    FLECS_ECS_PLUGIN_ID, SCENE_BACKEND_CAPABILITY_ID, SCENE_PROVIDER_GATEWAY_ID, SCENE_SERVICE_ID,
};

fn to_json(v: &serde_json::Value) -> JsonValue {
    match v {
        serde_json::Value::Null => JsonValue::Null,
        serde_json::Value::Bool(b) => JsonValue::Bool(*b),
        serde_json::Value::Number(n) => {
            if let Some(u) = n.as_u64() {
                JsonValue::Number(JsonNumber::PosInt(u))
            } else if let Some(i) = n.as_i64() {
                JsonValue::Number(JsonNumber::NegInt(i))
            } else {
                JsonValue::Number(JsonNumber::Float(n.to_string()))
            }
        }
        serde_json::Value::String(s) => JsonValue::Str(s.clone()),
        serde_json::Value::Array(a) => JsonValue::Array(a.iter().map(to_json).collect()),
        serde_json::Value::Object(m) => {
            JsonValue::Object(m.iter().map(|(k, v)| (k.clone(), to_json(v))).collect())
        }
    }
}

fn from_json(v: &JsonValue) -> serde_json::Value {
    match v {
        JsonValue::Null => serde_json::Value::Null,
        JsonValue::Bool(b) => serde_json::Value::Bool(*b),
        JsonValue::Number(JsonNumber::PosInt(u)) => serde_json::Value::from(*u),
        JsonValue::Number(JsonNumber::NegInt(i)) => serde_json::Value::from(*i),
        JsonValue::Number(JsonNumber::Float(s)) => serde_json::from_str(s).unwrap(),
        JsonValue::Str(s) => serde_json::Value::String(s.clone()),
        JsonValue::Array(a) => serde_json::Value::Array(a.iter().map(from_json).collect()),
        JsonValue::Object(m) => serde_json::Value::Object(
            m.iter().map(|(k, v)| (k.clone(), from_json(v))).collect(),
        ),
    }
}

fn parse(text: &str) -> JsonValue {
    to_json(&serde_json::from_str::<serde_json::Value>(text).unwrap())
}

#[test]
fn ecs_routing() {
    assert_eq!(route_ecs_call("command_json_v1").unwrap(), EcsMethod::Command);
    assert_eq!(route_ecs_call("info_json").unwrap(), EcsMethod::Info);
    assert_eq!(route_ecs_call("shutdown_v1").unwrap(), EcsMethod::Shutdown);
    assert_eq!(route_ecs_call("nope").err().unwrap(), "flecs ecs service: unknown method 'nope'");
    assert_eq!(route_ecs_invoke("snapshot_json_v1").unwrap(), EcsMethod::Snapshot);
    assert_eq!(
        route_ecs_invoke("info_json").err().unwrap(),
        "flecs ecs service: invoke_json unknown target method 'info_json'"
    );
}

#[test]
fn entity_and_scene_routing() {
    assert_eq!(route_entity_call("despawn_json_v1").unwrap(), EntityMethod::Despawn);
    assert_eq!(route_entity_call("x").err().unwrap(), "flecs entity service: unknown method 'x'");
    assert_eq!(route_entity_invoke("exists_json_v1").unwrap(), EntityMethod::Exists);
    assert_eq!(
        route_entity_invoke("shutdown_v1").err().unwrap(),
        "flecs entity service: invoke_json unknown target method 'shutdown_v1'"
    );
    assert_eq!(route_scene_call("scene.load_json_v1").unwrap(), SceneMethod::Load);
    assert_eq!(route_scene_call("scene.x").err().unwrap(), "flecs scene service: unknown method 'scene.x'");
}

#[test]
fn service_infos() {
    let ecs = ecs_service_info();
    assert_eq!(ecs.protocol, "newengine.ecs-api/v1");
    assert_eq!(ecs.features.len(), 8);
    assert_eq!(ecs.methods[2], "summary_json_v1");
    let ent = entity_service_info();
    assert_eq!(ent.protocol, "newengine.entity-api/v1");
    assert_eq!(ent.features[0], "opaque-stable-handles");
    assert_eq!(ent.methods.len(), 7);
}

#[test]
fn descriptions_name_the_pairing() {
    let config = FlecsEcsPluginConfig::default();
    let ecs = from_json(&ecs_describe(&config, "0.1.0"));
    assert_eq!(ecs["id"], "ecs.api");
    assert_eq!(ecs["gateway"], "engine.ecs");
    assert_eq!(ecs["backend_version"], "0.1.0");
    assert_eq!(ecs["authority"]["paired_service"], "entity.api");
    assert_eq!(ecs["version"], 1);
    let ent = from_json(&entity_describe(&config, "0.1.0"));
    assert_eq!(ent["authority"]["paired_gateway"], "engine.ecs");
    assert_eq!(ent["debug_text"], "North Star | Constellation ECS/entity authority backend");
    let scene = from_json(&scene_describe(&config, "0.1.0"));
    assert_eq!(scene["authority"]["paired_entity_gateway"], "engine.entity");
    assert_eq!(scene["features"][0], "scene-load-save");
    let formats = from_json(&scene_formats());
    assert_eq!(formats["formats"][0]["id"], "newengine.scene.provider-neutral.v1");
    assert_eq!(formats["owner"], "newengine.ecs.flecs");
}

#[test]
fn declared_routes_and_services() {
    let routes = backend_routes();
    assert_eq!(routes.len(), 3);
    assert_eq!(routes[0].capability_id, "ecs.backend");
    assert_eq!(routes[1].provider_route, "engine.entity.constellation");
    assert_eq!(routes[2].system_tags[0], "scene");
    assert!(routes.iter().all(|r| r.priority == 500 && r.backend == "constellation"));
    let services = provided_services();
    assert_eq!(services[0].id, "ecs.api");
    let meta: serde_json::Value = serde_json::from_str(&services[2].describe_json).unwrap();
    assert_eq!(meta["contract"], "scene.api");
}

#[test]
fn scene_load_requests() {
    let refused = plan_scene_load(&parse(r#"{"replace": false, "scene": {}}"#));
    assert_eq!(refused.err().unwrap(), "flecs scene service load_json_v1 supports replace=true only");
    let missing = plan_scene_load(&parse(r#"{"path": "   "}"#));
    assert_eq!(
        missing.err().unwrap(),
        "flecs scene service load_json_v1 requires path, scene, payload or asset"
    );
    let asset = plan_scene_load(&parse(r#"{"path": " a/b.json "}"#)).unwrap();
    assert_eq!(asset.path.as_deref(), Some("a/b.json"));
    assert!(matches!(asset.source, SceneSource::Asset(ref p) if p == "a/b.json"));
    let inline = plan_scene_load(&parse(r#"{"payload": {"k": 1}, "asset": 2, "path": "p"}"#)).unwrap();
    assert_eq!(inline.path.as_deref(), Some("p"));
    match inline.source {
        SceneSource::Inline(v) => assert_eq!(from_json(&v)["k"], 1),
        SceneSource::Asset(_) => panic!("expected an inline scene"),
    }
}

#[test]
fn asset_error_texts() {
    assert_eq!(
        scene_asset_read_error("p", "gone"),
        "flecs scene service cannot read scene asset path='p' err='gone'"
    );
    assert_eq!(
        scene_asset_parse_error("p", "eof"),
        "flecs scene service cannot parse scene asset path='p' err='eof'"
    );
}

#[test]
fn save_requests_and_answers() {
    let req = save_request(&parse("{}"));
    assert_eq!(req.path, "");
    assert!(req.pretty);
    let req2 = save_request(&parse(r#"{"path": "out.json", "pretty": false}"#));
    assert_eq!(req2.path, "out.json");
    assert!(!req2.pretty);
    let answer = from_json(&save_response(&req2, parse(r#"{"a": 1}"#), "{\"a\":1}".to_string()));
    assert_eq!(answer["ok"], true);
    assert_eq!(answer["stored"], false);
    assert_eq!(answer["storage"], "caller-owned");
    assert_eq!(answer["path"], "out.json");
    assert_eq!(answer["payload"]["a"], 1);
    assert_eq!(answer["payload_text"], "{\"a\":1}");
    assert_eq!(answer["pretty"], false);
}

#[test]
fn descriptor_declares_engine_ecs_and_entity_routes() {
    assert_eq!(FLECS_ECS_PLUGIN_ID, "newengine.ecs.flecs");
    let services = provided_services();
    let ids: Vec<&str> = services.iter().map(|s| s.id.as_str()).collect();
    assert_eq!(ids, vec![ECS_SERVICE_ID, ENTITY_SERVICE_ID, SCENE_SERVICE_ID]);
    let routes = backend_routes();
    assert_eq!(routes.len(), 3);
    let expected = [
        (ECS_BACKEND_CAPABILITY_ID, ECS_PROVIDER_GATEWAY_ID, ECS_SERVICE_ID, "ecs"),
        (ENTITY_BACKEND_CAPABILITY_ID, ENTITY_PROVIDER_GATEWAY_ID, ENTITY_SERVICE_ID, "entity"),
        (SCENE_BACKEND_CAPABILITY_ID, SCENE_PROVIDER_GATEWAY_ID, SCENE_SERVICE_ID, "scene"),
    ];
    for (i, (cap, route, contract, kind)) in expected.iter().enumerate() {
        assert_eq!(routes[i].capability_id, *cap);
        assert_eq!(routes[i].provider_route, *route);
        assert_eq!(routes[i].backend, FLECS_BACKEND_ID);
        assert_eq!(routes[i].system_tags[0], *kind);
        let meta: serde_json::Value = serde_json::from_str(&services[i].describe_json).unwrap();
        assert_eq!(meta["contract"], *contract);
        assert_eq!(meta["backend"], FLECS_BACKEND_ID);
    }
}
