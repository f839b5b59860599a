//! The three services' fixed facts, their method routing, and the
//! documents they answer with.
use vstd::prelude::*;
use crate::config::FlecsEcsPluginConfig;
use crate::codec::{compact_text, json_compact, json_parse, json_pretty, parse_json, pretty_text, text_or_empty};
use crate::text::{trim_text, trimmed};
use crate::json::{array_of, member, object_of, text_value, values_model, Json, JsonNumber, JsonValue, NumberModel};

verus! {

pub const FLECS_ECS_PLUGIN_ID: &'static str = "newengine.ecs.flecs";
pub const FLECS_ECS_PLUGIN_NAME: &'static str = "Constellation ECS Authority";
pub const FLECS_BACKEND_ID: &'static str = "constellation";
pub const ECS_PROVIDER_GATEWAY_ID: &'static str = "engine.ecs.constellation";
pub const ENTITY_PROVIDER_GATEWAY_ID: &'static str = "engine.entity.constellation";
pub const SCENE_PROVIDER_GATEWAY_ID: &'static str = "engine.scene.constellation";
pub const ECS_SERVICE_ID: &'static str = "ecs.api";
pub const ENTITY_SERVICE_ID: &'static str = "entity.api";
pub const SCENE_SERVICE_ID: &'static str = "scene.api";
pub const ENGINE_ECS_SERVICE_ID: &'static str = "engine.ecs";
pub const ENGINE_ENTITY_SERVICE_ID: &'static str = "engine.entity";
pub const ENGINE_SCENE_SERVICE_ID: &'static str = "engine.scene";
pub const ECS_BACKEND_CAPABILITY_ID: &'static str = "ecs.backend";
pub const ENTITY_BACKEND_CAPABILITY_ID: &'static str = "entity.backend";
pub const SCENE_BACKEND_CAPABILITY_ID: &'static str = "scene.backend";

/// Whether two texts are equal.
pub fn text_eq(a: &str, b: &str) -> (r: bool)
    ensures
        r == (a@ == b@),
{
    a.to_owned() == b.to_owned()
}

/// A JSON array of texts.
pub fn texts_value(items: &Vec<String>) -> (r: JsonValue)
    ensures
        r.model() == Json::Array(Seq::new(items@.len(), |i: int| Json::Str(items@[i]@))),
{
    let mut values: Vec<JsonValue> = Vec::new();
    let mut i: usize = 0;
    while i < items.len()
        invariant
            i <= items@.len(),
            values_model(values@) == Seq::new(i as nat, |t: int| Json::Str(items@[t]@)),
        decreases items@.len() - i,
    {
        let ghost prev = values@;
        values.push(JsonValue::Str(items[i].clone()));
        assert(values_model(values@) =~= values_model(prev).push(Json::Str(items@[i as int]@)));
        i = i + 1;
        assert(values_model(values@) =~= Seq::new(i as nat, |t: int| Json::Str(items@[t]@)));
    }
    array_of(values)
}

pub open spec fn views(v: Seq<String>) -> Seq<Seq<char>> {
    v.map_values(|s: String| s@)
}

// ---------------------------------------------------------------------------
// Methods and routing

/// A method of the ECS service.
#[derive(Clone, Copy, Debug, PartialEq, Eq, Structural)]
pub enum EcsMethod {
    Info,
    Invoke,
    Summary,
    Snapshot,
    Command,
    Shutdown,
}

/// A method of the entity service.
#[derive(Clone, Copy, Debug, PartialEq, Eq, Structural)]
pub enum EntityMethod {
    Info,
    Invoke,
    List,
    Exists,
    Spawn,
    Despawn,
    Shutdown,
}

/// A method of the scene service.
#[derive(Clone, Copy, Debug, PartialEq, Eq, Structural)]
pub enum SceneMethod {
    Formats,
    Load,
    Save,
    Shutdown,
}

/// The ECS method a name selects.
pub open spec fn ecs_method_of(name: Seq<char>) -> Option<EcsMethod> {
    if name == "info_json"@ {
        Some(EcsMethod::Info)
    } else if name == "invoke_json"@ {
        Some(EcsMethod::Invoke)
    } else if name == "summary_json_v1"@ {
        Some(EcsMethod::Summary)
    } else if name == "snapshot_json_v1"@ {
        Some(EcsMethod::Snapshot)
    } else if name == "command_json_v1"@ {
        Some(EcsMethod::Command)
    } else if name == "shutdown_v1"@ {
        Some(EcsMethod::Shutdown)
    } else {
        None
    }
}

/// The entity method a name selects.
pub open spec fn entity_method_of(name: Seq<char>) -> Option<EntityMethod> {
    if name == "info_json"@ {
        Some(EntityMethod::Info)
    } else if name == "invoke_json"@ {
        Some(EntityMethod::Invoke)
    } else if name == "list_json_v1"@ {
        Some(EntityMethod::List)
    } else if name == "exists_json_v1"@ {
        Some(EntityMethod::Exists)
    } else if name == "spawn_json_v1"@ {
        Some(EntityMethod::Spawn)
    } else if name == "despawn_json_v1"@ {
        Some(EntityMethod::Despawn)
    } else if name == "shutdown_v1"@ {
        Some(EntityMethod::Shutdown)
    } else {
        None
    }
}

/// The scene method a name selects.
pub open spec fn scene_method_of(name: Seq<char>) -> Option<SceneMethod> {
    if name == "scene.formats_json"@ {
        Some(SceneMethod::Formats)
    } else if name == "scene.load_json_v1"@ {
        Some(SceneMethod::Load)
    } else if name == "scene.save_json_v1"@ {
        Some(SceneMethod::Save)
    } else if name == "scene.shutdown_v1"@ {
        Some(SceneMethod::Shutdown)
    } else {
        None
    }
}

fn quoted_error(prefix: &str, name: &str) -> (e: String)
    ensures
        e@ == prefix@ + name@ + "'"@,
{
    let mut e = String::from_str(prefix);
    e.append(name);
    e.append("'");
    e
}

/// The ECS method `call` dispatches `method` to, or the error for an
/// unknown method.
pub fn route_ecs_call(method: &str) -> (r: Result<EcsMethod, String>)
    ensures
        match ecs_method_of(method@) {
            Some(m) => r == Ok::<EcsMethod, String>(m),
            None => r matches Err(e) && e@ == "flecs ecs service: unknown method '"@ + method@ + "'"@,
        },
{
    if text_eq(method, "info_json") {
        Ok(EcsMethod::Info)
    } else if text_eq(method, "invoke_json") {
        Ok(EcsMethod::Invoke)
    } else if text_eq(method, "summary_json_v1") {
        Ok(EcsMethod::Summary)
    } else if text_eq(method, "snapshot_json_v1") {
        Ok(EcsMethod::Snapshot)
    } else if text_eq(method, "command_json_v1") {
        Ok(EcsMethod::Command)
    } else if text_eq(method, "shutdown_v1") {
        Ok(EcsMethod::Shutdown)
    } else {
        Err(quoted_error("flecs ecs service: unknown method '", method))
    }
}

/// The ECS method `invoke_json` forwards to: only the summary, snapshot
/// and command methods can be invoked.
pub fn route_ecs_invoke(method: &str) -> (r: Result<EcsMethod, String>)
    ensures
        match ecs_method_of(method@) {
            Some(m) => if m == EcsMethod::Summary || m == EcsMethod::Snapshot || m == EcsMethod::Command {
                r == Ok::<EcsMethod, String>(m)
            } else {
                r matches Err(e) && e@ == "flecs ecs service: invoke_json unknown target method '"@ + method@ + "'"@
            },
            None => r matches Err(e) && e@ == "flecs ecs service: invoke_json unknown target method '"@ + method@ + "'"@,
        },
{
    if text_eq(method, "info_json") || text_eq(method, "invoke_json") {
        Err(quoted_error("flecs ecs service: invoke_json unknown target method '", method))
    } else if text_eq(method, "summary_json_v1") {
        Ok(EcsMethod::Summary)
    } else if text_eq(method, "snapshot_json_v1") {
        Ok(EcsMethod::Snapshot)
    } else if text_eq(method, "command_json_v1") {
        Ok(EcsMethod::Command)
    } else {
        Err(quoted_error("flecs ecs service: invoke_json unknown target method '", method))
    }
}

/// The entity method `call` dispatches `method` to, or the error for an
/// unknown method.
pub fn route_entity_call(method: &str) -> (r: Result<EntityMethod, String>)
    ensures
        match entity_method_of(method@) {
            Some(m) => r == Ok::<EntityMethod, String>(m),
            None => r matches Err(e) && e@ == "flecs entity service: unknown method '"@ + method@ + "'"@,
        },
{
    if text_eq(method, "info_json") {
        Ok(EntityMethod::Info)
    } else if text_eq(method, "invoke_json") {
        Ok(EntityMethod::Invoke)
    } else if text_eq(method, "list_json_v1") {
        Ok(EntityMethod::List)
    } else if text_eq(method, "exists_json_v1") {
        Ok(EntityMethod::Exists)
    } else if text_eq(method, "spawn_json_v1") {
        Ok(EntityMethod::Spawn)
    } else if text_eq(method, "despawn_json_v1") {
        Ok(EntityMethod::Despawn)
    } else if text_eq(method, "shutdown_v1") {
        Ok(EntityMethod::Shutdown)
    } else {
        Err(quoted_error("flecs entity service: unknown method '", method))
    }
}

/// The entity method `invoke_json` forwards to: only listing, existence,
/// spawn and despawn can be invoked.
pub fn route_entity_invoke(method: &str) -> (r: Result<EntityMethod, String>)
    ensures
        match entity_method_of(method@) {
            Some(m) => if m == EntityMethod::List || m == EntityMethod::Exists || m == EntityMethod::Spawn
                || m == EntityMethod::Despawn {
                r == Ok::<EntityMethod, String>(m)
            } else {
                r matches Err(e) && e@ == "flecs entity service: invoke_json unknown target method '"@ + method@ + "'"@
            },
            None => r matches Err(e) && e@ == "flecs entity service: invoke_json unknown target method '"@ + method@ + "'"@,
        },
{
    if text_eq(method, "info_json") || text_eq(method, "invoke_json") {
        Err(quoted_error("flecs entity service: invoke_json unknown target method '", method))
    } else if text_eq(method, "list_json_v1") {
        Ok(EntityMethod::List)
    } else if text_eq(method, "exists_json_v1") {
        Ok(EntityMethod::Exists)
    } else if text_eq(method, "spawn_json_v1") {
        Ok(EntityMethod::Spawn)
    } else if text_eq(method, "despawn_json_v1") {
        Ok(EntityMethod::Despawn)
    } else {
        Err(quoted_error("flecs entity service: invoke_json unknown target method '", method))
    }
}

/// The scene method `call` dispatches `method` to, or the error for an
/// unknown method.
pub fn route_scene_call(method: &str) -> (r: Result<SceneMethod, String>)
    ensures
        match scene_method_of(method@) {
            Some(m) => r == Ok::<SceneMethod, String>(m),
            None => r matches Err(e) && e@ == "flecs scene service: unknown method '"@ + method@ + "'"@,
        },
{
    if text_eq(method, "scene.formats_json") {
        Ok(SceneMethod::Formats)
    } else if text_eq(method, "scene.load_json_v1") {
        Ok(SceneMethod::Load)
    } else if text_eq(method, "scene.save_json_v1") {
        Ok(SceneMethod::Save)
    } else if text_eq(method, "scene.shutdown_v1") {
        Ok(SceneMethod::Shutdown)
    } else {
        Err(quoted_error("flecs scene service: unknown method '", method))
    }
}


// ---------------------------------------------------------------------------
// Service facts

/// Texts of a list of literals.
pub fn strings_from(items: &[&str]) -> (out: Vec<String>)
    ensures
        views(out@) == items@.map_values(|s: &str| s@),
{
    let mut out: Vec<String> = Vec::new();
    let mut i: usize = 0;
    while i < items.len()
        invariant
            i <= items@.len(),
            views(out@) == items@.map_values(|s: &str| s@).take(i as int),
        decreases items@.len() - i,
    {
        let ghost prev = out@;
        out.push(items[i].to_owned());
        assert(views(out@) =~= views(prev).push(items@[i as int]@));
        i = i + 1;
        assert(views(out@) =~= items@.map_values(|s: &str| s@).take(i as int));
    }
    assert(items@.map_values(|s: &str| s@).take(items@.len() as int) =~= items@.map_values(|s: &str| s@));
    out
}

/// The protocol, features and methods a service declares.
pub struct ServiceInfo {
    pub protocol: String,
    pub features: Vec<String>,
    pub methods: Vec<String>,
}

pub open spec fn ecs_features() -> Seq<Seq<char>> {
    seq![
        "gateway-summary"@,
        "entity-snapshot"@,
        "command-envelope"@,
        "semantic-component-packets"@,
        "flecs-world"@,
        "flecs-id-allocation"@,
        "shared-entity-authority"@,
        "single-source-of-truth"@,
    ]
}

pub open spec fn ecs_methods() -> Seq<Seq<char>> {
    seq![
        "info_json"@,
        "invoke_json"@,
        "summary_json_v1"@,
        "snapshot_json_v1"@,
        "command_json_v1"@,
        "shutdown_v1"@,
    ]
}

pub open spec fn entity_features() -> Seq<Seq<char>> {
    seq![
        "opaque-stable-handles"@,
        "entity-list"@,
        "entity-exists"@,
        "entity-lifecycle"@,
        "flecs-world"@,
        "shared-ecs-authority"@,
        "single-source-of-truth"@,
    ]
}

pub open spec fn entity_methods() -> Seq<Seq<char>> {
    seq![
        "info_json"@,
        "invoke_json"@,
        "list_json_v1"@,
        "exists_json_v1"@,
        "spawn_json_v1"@,
        "despawn_json_v1"@,
        "shutdown_v1"@,
    ]
}

pub open spec fn scene_methods() -> Seq<Seq<char>> {
    seq!["scene.formats_json"@, "scene.load_json_v1"@, "scene.save_json_v1"@]
}

pub open spec fn scene_features() -> Seq<Seq<char>> {
    seq![
        "scene-load-save"@,
        "scene-authority"@,
        "semantic-component-packets"@,
        "single-source-of-truth"@,
    ]
}

pub fn ecs_methods_list() -> (out: Vec<String>)
    ensures
        views(out@) == ecs_methods(),
{
    let out = strings_from(
        &["info_json", "invoke_json", "summary_json_v1", "snapshot_json_v1", "command_json_v1", "shutdown_v1"],
    );
    assert(views(out@) =~= ecs_methods());
    out
}

pub fn entity_methods_list() -> (out: Vec<String>)
    ensures
        views(out@) == entity_methods(),
{
    let out = strings_from(
        &[
            "info_json",
            "invoke_json",
            "list_json_v1",
            "exists_json_v1",
            "spawn_json_v1",
            "despawn_json_v1",
            "shutdown_v1",
        ],
    );
    assert(views(out@) =~= entity_methods());
    out
}

pub fn scene_methods_list() -> (out: Vec<String>)
    ensures
        views(out@) == scene_methods(),
{
    let out = strings_from(&["scene.formats_json", "scene.load_json_v1", "scene.save_json_v1"]);
    assert(views(out@) =~= scene_methods());
    out
}

/// What the ECS service declares of itself.
pub fn ecs_service_info() -> (r: ServiceInfo)
    ensures
        r.protocol@ == "newengine.ecs-api/v1"@,
        views(r.features@) == ecs_features(),
        views(r.methods@) == ecs_methods(),
{
    let features = strings_from(
        &[
            "gateway-summary",
            "entity-snapshot",
            "command-envelope",
            "semantic-component-packets",
            "flecs-world",
            "flecs-id-allocation",
            "shared-entity-authority",
            "single-source-of-truth",
        ],
    );
    assert(views(features@) =~= ecs_features());
    ServiceInfo {
        protocol: String::from_str("newengine.ecs-api/v1"),
        features,
        methods: ecs_methods_list(),
    }
}

/// What the entity service declares of itself.
pub fn entity_service_info() -> (r: ServiceInfo)
    ensures
        r.protocol@ == "newengine.entity-api/v1"@,
        views(r.features@) == entity_features(),
        views(r.methods@) == entity_methods(),
{
    let features = strings_from(
        &[
            "opaque-stable-handles",
            "entity-list",
            "entity-exists",
            "entity-lifecycle",
            "flecs-world",
            "shared-ecs-authority",
            "single-source-of-truth",
        ],
    );
    assert(views(features@) =~= entity_features());
    ServiceInfo {
        protocol: String::from_str("newengine.entity-api/v1"),
        features,
        methods: entity_methods_list(),
    }
}


// ---------------------------------------------------------------------------
// Documents

pub open spec fn texts_json(items: Seq<Seq<char>>) -> Json {
    Json::Array(Seq::new(items.len(), |i: int| Json::Str(items[i])))
}

pub open spec fn str_json(s: Seq<char>) -> Json {
    Json::Str(s)
}

/// A service's description document.
pub open spec fn describe_json(
    id: Seq<char>,
    gateway: Seq<char>,
    backend_version: Seq<char>,
    debug_text: Seq<char>,
    methods: Seq<Seq<char>>,
    features: Seq<Seq<char>>,
    authority: Json,
) -> Json {
    Json::Object(
        seq![
            ("authority"@, authority),
            ("backend_id"@, str_json("constellation"@)),
            ("backend_name"@, str_json("Constellation ECS Authority"@)),
            ("backend_version"@, str_json(backend_version)),
            ("debug_text"@, str_json(debug_text)),
            ("features"@, texts_json(features)),
            ("gateway"@, str_json(gateway)),
            ("id"@, str_json(id)),
            ("methods"@, texts_json(methods)),
            ("version"@, Json::Number(NumberModel::PosInt(1))),
        ],
    )
}

/// The authority block of the ECS and entity descriptions, pointing at the
/// paired service.
pub open spec fn paired_authority_json(paired_gateway: Seq<char>, paired_service: Seq<char>) -> Json {
    Json::Object(
        seq![
            ("component_truth"@, str_json("semantic-component-packets"@)),
            ("entity_truth"@, Json::Bool(true)),
            ("paired_gateway"@, str_json(paired_gateway)),
            ("paired_service"@, str_json(paired_service)),
            ("world"@, str_json("shared-flecs-world"@)),
        ],
    )
}

/// The authority block of the scene description.
pub open spec fn scene_authority_json() -> Json {
    Json::Object(
        seq![
            ("component_truth"@, str_json("semantic-component-packets"@)),
            ("entity_truth"@, Json::Bool(true)),
            ("paired_entity_gateway"@, str_json("engine.entity"@)),
            ("paired_gateway"@, str_json("engine.ecs"@)),
            ("scene_truth"@, Json::Bool(true)),
            ("world"@, str_json("shared-flecs-world"@)),
        ],
    )
}

fn paired_authority_value(paired_gateway: &str, paired_service: &str) -> (r: JsonValue)
    ensures
        r.model() == paired_authority_json(paired_gateway@, paired_service@),
{
    let mut members: Vec<(String, JsonValue)> = Vec::new();
    members.push(member("component_truth", text_value("semantic-component-packets")));
    members.push(member("entity_truth", JsonValue::Bool(true)));
    members.push(member("paired_gateway", text_value(paired_gateway)));
    members.push(member("paired_service", text_value(paired_service)));
    members.push(member("world", text_value("shared-flecs-world")));
    let r = object_of(members);
    assert(r.model()->Object_0 =~= paired_authority_json(paired_gateway@, paired_service@)->Object_0);
    r
}

fn scene_authority_value() -> (r: JsonValue)
    ensures
        r.model() == scene_authority_json(),
{
    let mut members: Vec<(String, JsonValue)> = Vec::new();
    members.push(member("component_truth", text_value("semantic-component-packets")));
    members.push(member("entity_truth", JsonValue::Bool(true)));
    members.push(member("paired_entity_gateway", text_value("engine.entity")));
    members.push(member("paired_gateway", text_value("engine.ecs")));
    members.push(member("scene_truth", JsonValue::Bool(true)));
    members.push(member("world", text_value("shared-flecs-world")));
    let r = object_of(members);
    assert(r.model()->Object_0 =~= scene_authority_json()->Object_0);
    r
}

fn describe_value(
    id: &str,
    gateway: &str,
    backend_version: &str,
    debug_text: &String,
    methods: &Vec<String>,
    features: &Vec<String>,
    authority: JsonValue,
) -> (r: JsonValue)
    ensures
        r.model() == describe_json(
            id@,
            gateway@,
            backend_version@,
            debug_text@,
            views(methods@),
            views(features@),
            authority.model(),
        ),
{
    let ghost am = authority.model();
    let mut members: Vec<(String, JsonValue)> = Vec::new();
    members.push(member("authority", authority));
    members.push(member("backend_id", text_value("constellation")));
    members.push(member("backend_name", text_value("Constellation ECS Authority")));
    members.push(member("backend_version", text_value(backend_version)));
    members.push(member("debug_text", JsonValue::Str(debug_text.clone())));
    members.push(member("features", texts_value(features)));
    members.push(member("gateway", text_value(gateway)));
    members.push(member("id", text_value(id)));
    members.push(member("methods", texts_value(methods)));
    members.push(member("version", JsonValue::Number(JsonNumber::PosInt(1))));
    let r = object_of(members);
    proof {
        assert(Seq::new(features@.len(), |i: int| Json::Str(features@[i]@)) =~= texts_json(views(features@))->Array_0);
        assert(Seq::new(methods@.len(), |i: int| Json::Str(methods@[i]@)) =~= texts_json(views(methods@))->Array_0);
        assert(r.model()->Object_0 =~= describe_json(
            id@,
            gateway@,
            backend_version@,
            debug_text@,
            views(methods@),
            views(features@),
            am,
        )->Object_0);
    }
    r
}

/// The ECS service's description: its ids, backend, settings' debug text,
/// methods, features and authority. `backend_version` is the plugin's
/// version.
pub fn ecs_describe(config: &FlecsEcsPluginConfig, backend_version: &str) -> (r: JsonValue)
    ensures
        r.model() == describe_json(
            "ecs.api"@,
            "engine.ecs"@,
            backend_version@,
            config.debug_text@,
            ecs_methods(),
            ecs_features(),
            paired_authority_json("engine.entity"@, "entity.api"@),
        ),
{
    let info = ecs_service_info();
    describe_value(
        "ecs.api",
        "engine.ecs",
        backend_version,
        &config.debug_text,
        &info.methods,
        &info.features,
        paired_authority_value("engine.entity", "entity.api"),
    )
}

/// The entity service's description.
pub fn entity_describe(config: &FlecsEcsPluginConfig, backend_version: &str) -> (r: JsonValue)
    ensures
        r.model() == describe_json(
            "entity.api"@,
            "engine.entity"@,
            backend_version@,
            config.debug_text@,
            entity_methods(),
            entity_features(),
            paired_authority_json("engine.ecs"@, "ecs.api"@),
        ),
{
    let info = entity_service_info();
    describe_value(
        "entity.api",
        "engine.entity",
        backend_version,
        &config.debug_text,
        &info.methods,
        &info.features,
        paired_authority_value("engine.ecs", "ecs.api"),
    )
}

/// The scene service's description.
pub fn scene_describe(config: &FlecsEcsPluginConfig, backend_version: &str) -> (r: JsonValue)
    ensures
        r.model() == describe_json(
            "scene.api"@,
            "engine.scene"@,
            backend_version@,
            config.debug_text@,
            scene_methods(),
            scene_features(),
            scene_authority_json(),
        ),
{
    let features = strings_from(
        &["scene-load-save", "scene-authority", "semantic-component-packets", "single-source-of-truth"],
    );
    assert(views(features@) =~= scene_features());
    let methods = scene_methods_list();
    describe_value(
        "scene.api",
        "engine.scene",
        backend_version,
        &config.debug_text,
        &methods,
        &features,
        scene_authority_value(),
    )
}

/// The scene formats document.
pub open spec fn scene_formats_json() -> Json {
    Json::Object(
        seq![
            (
                "authority"@,
                Json::Object(
                    seq![
                        ("component_truth"@, str_json("semantic-component-packets"@)),
                        ("entity_truth"@, Json::Bool(true)),
                        ("scene_truth"@, Json::Bool(true)),
                        ("world"@, str_json("shared-flecs-world"@)),
                    ],
                ),
            ),
            ("backend"@, str_json("constellation"@)),
            (
                "formats"@,
                Json::Array(
                    seq![
                        Json::Object(
                            seq![
                                ("id"@, str_json("newengine.scene.provider-neutral.v1"@)),
                                ("load"@, Json::Bool(true)),
                                ("media_type"@, str_json("application/json"@)),
                                ("save"@, Json::Bool(true)),
                                ("schema"@, str_json("json"@)),
                            ],
                        ),
                    ],
                ),
            ),
            ("gateway"@, str_json("engine.scene"@)),
            ("id"@, str_json("scene.api"@)),
            ("methods"@, texts_json(scene_methods())),
            ("origin"@, str_json("first-party-plugin"@)),
            ("owner"@, str_json("newengine.ecs.flecs"@)),
            ("version"@, Json::Number(NumberModel::PosInt(1))),
        ],
    )
}

/// The scene formats the scene service loads and saves.
pub fn scene_formats() -> (r: JsonValue)
    ensures
        r.model() == scene_formats_json(),
{
    let mut authority: Vec<(String, JsonValue)> = Vec::new();
    authority.push(member("component_truth", text_value("semantic-component-packets")));
    authority.push(member("entity_truth", JsonValue::Bool(true)));
    authority.push(member("scene_truth", JsonValue::Bool(true)));
    authority.push(member("world", text_value("shared-flecs-world")));
    let authority = object_of(authority);
    let mut format: Vec<(String, JsonValue)> = Vec::new();
    format.push(member("id", text_value("newengine.scene.provider-neutral.v1")));
    format.push(member("load", JsonValue::Bool(true)));
    format.push(member("media_type", text_value("application/json")));
    format.push(member("save", JsonValue::Bool(true)));
    format.push(member("schema", text_value("json")));
    let format = object_of(format);
    let ghost fm = format.model();
    let mut formats: Vec<JsonValue> = Vec::new();
    formats.push(format);
    let formats = array_of(formats);
    let methods = scene_methods_list();
    let ghost am = authority.model();
    let ghost fsm = formats.model();
    let mut members: Vec<(String, JsonValue)> = Vec::new();
    members.push(member("authority", authority));
    members.push(member("backend", text_value("constellation")));
    members.push(member("formats", formats));
    members.push(member("gateway", text_value("engine.scene")));
    members.push(member("id", text_value("scene.api")));
    members.push(member("methods", texts_value(&methods)));
    members.push(member("origin", text_value("first-party-plugin")));
    members.push(member("owner", text_value("newengine.ecs.flecs")));
    members.push(member("version", JsonValue::Number(JsonNumber::PosInt(1))));
    let r = object_of(members);
    proof {
        let expected = scene_formats_json()->Object_0;
        assert(am->Object_0 =~= expected[0].1->Object_0);
        assert(fm->Object_0 =~= expected[2].1->Array_0[0]->Object_0);
        assert(fsm->Array_0 =~= expected[2].1->Array_0);
        assert(Seq::new(methods@.len(), |i: int| Json::Str(methods@[i]@)) =~= texts_json(scene_methods())->Array_0);
        assert(r.model()->Object_0 =~= expected);
    }
    r
}


// ---------------------------------------------------------------------------
// Scene requests

/// Where a scene to load comes from.
pub enum SceneSource {
    /// The scene is in the request.
    Inline(JsonValue),
    /// The scene is the asset at this path, to be read and parsed.
    Asset(String),
}

/// What a scene load request asks for.
pub struct SceneLoadPlan {
    /// The request's trimmed, non-empty `path`.
    pub path: Option<String>,
    pub source: SceneSource,
}

pub open spec fn replace_requested(req: Json) -> bool {
    match req.get("replace"@) {
        Some(v) => match v.as_bool() {
            Some(b) => b,
            None => true,
        },
        None => true,
    }
}

/// The request's `path`, trimmed, where it is a non-blank text.
pub open spec fn requested_path(req: Json) -> Option<Seq<char>> {
    match req.get("path"@) {
        Some(v) => match v.as_str() {
            Some(p) => if trimmed(p).len() > 0 {
                Some(trimmed(p))
            } else {
                None
            },
            None => None,
        },
        None => None,
    }
}

/// The scene given in the request: its `scene`, else `payload`, else
/// `asset` member.
pub open spec fn inline_scene(req: Json) -> Option<Json> {
    match req.get("scene"@) {
        Some(v) => Some(v),
        None => match req.get("payload"@) {
            Some(v) => Some(v),
            None => req.get("asset"@),
        },
    }
}

pub open spec fn opt_view(o: Option<String>) -> Option<Seq<char>> {
    match o {
        Some(s) => Some(s@),
        None => None,
    }
}

/// Interprets a scene load request: only replacing loads are supported; the
/// scene comes from the request itself or, failing that, from the asset at
/// its path.
pub fn plan_scene_load(req: &JsonValue) -> (r: Result<SceneLoadPlan, String>)
    ensures
        !replace_requested(req.model()) ==> (r matches Err(e)
            && e@ == "flecs scene service load_json_v1 supports replace=true only"@),
        replace_requested(req.model()) ==> match inline_scene(req.model()) {
            Some(v) => (r matches Ok(plan) && (opt_view(plan.path) == requested_path(req.model())
                && (plan.source matches SceneSource::Inline(s) && s.model() == v))),
            None => match requested_path(req.model()) {
                Some(p) => (r matches Ok(plan) && (opt_view(plan.path) == Some(p)
                    && (plan.source matches SceneSource::Asset(a) && a@ == p))),
                None => (r matches Err(e)
                    && e@ == "flecs scene service load_json_v1 requires path, scene, payload or asset"@),
            },
        },
{
    let replace = match req.get("replace") {
        Some(v) => match v.as_bool() {
            Some(b) => b,
            None => true,
        },
        None => true,
    };
    if !replace {
        return Err(String::from_str("flecs scene service load_json_v1 supports replace=true only"));
    }
    let path = match req.get("path") {
        Some(v) => match v.as_str() {
            Some(p) => {
                let t = trim_text(p.as_str());
                if t.as_str().is_empty() {
                    None
                } else {
                    Some(t)
                }
            },
            None => None,
        },
        None => None,
    };
    let inline = match req.get("scene") {
        Some(v) => Some(v),
        None => match req.get("payload") {
            Some(v) => Some(v),
            None => req.get("asset"),
        },
    };
    match inline {
        Some(v) => Ok(SceneLoadPlan { path, source: SceneSource::Inline(v.deep_clone()) }),
        None => match path {
            Some(p) => {
                let a = p.clone();
                Ok(SceneLoadPlan { path: Some(p), source: SceneSource::Asset(a) })
            },
            None => Err(
                String::from_str("flecs scene service load_json_v1 requires path, scene, payload or asset"),
            ),
        },
    }
}

/// The error for a scene asset that could not be read.
pub fn scene_asset_read_error(path: &str, err: &str) -> (e: String)
    ensures
        e@ == "flecs scene service cannot read scene asset path='"@ + path@ + "' err='"@ + err@ + "'"@,
{
    let mut e = String::from_str("flecs scene service cannot read scene asset path='");
    e.append(path);
    e.append("' err='");
    e.append(err);
    e.append("'");
    e
}

/// The error for a scene asset that is not JSON.
pub fn scene_asset_parse_error(path: &str, err: &str) -> (e: String)
    ensures
        e@ == "flecs scene service cannot parse scene asset path='"@ + path@ + "' err='"@ + err@ + "'"@,
{
    let mut e = String::from_str("flecs scene service cannot parse scene asset path='");
    e.append(path);
    e.append("' err='");
    e.append(err);
    e.append("'");
    e
}

/// What a scene save request asks for.
pub struct SaveRequest {
    pub path: String,
    pub pretty: bool,
}

/// Reads a save request: the `path` text (empty by default) and whether the
/// text form is `pretty` (by default it is).
pub fn save_request(req: &JsonValue) -> (r: SaveRequest)
    ensures
        r.path@ == match req.model().get("path"@) {
            Some(v) => match v.as_str() {
                Some(p) => p,
                None => ""@,
            },
            None => ""@,
        },
        r.pretty == match req.model().get("pretty"@) {
            Some(v) => match v.as_bool() {
                Some(b) => b,
                None => true,
            },
            None => true,
        },
{
    let path = match req.get("path") {
        Some(v) => match v.as_str() {
            Some(p) => p.clone(),
            None => String::from_str(""),
        },
        None => String::from_str(""),
    };
    let pretty = match req.get("pretty") {
        Some(v) => match v.as_bool() {
            Some(b) => b,
            None => true,
        },
        None => true,
    };
    SaveRequest { path, pretty }
}

/// The answer to a save request: the saved scene, also as text, which the
/// caller stores.
pub open spec fn save_response_json(path: Seq<char>, pretty: bool, payload: Json, payload_text: Seq<char>) -> Json {
    Json::Object(
        seq![
            ("authority"@, str_json("shared-flecs-world"@)),
            ("ok"@, Json::Bool(true)),
            ("path"@, str_json(path)),
            ("payload"@, payload),
            ("payload_text"@, str_json(payload_text)),
            ("pretty"@, Json::Bool(pretty)),
            ("storage"@, str_json("caller-owned"@)),
            ("stored"@, Json::Bool(false)),
        ],
    )
}

/// The answer to a save request, given the saved scene and its text form.
pub fn save_response(req: &SaveRequest, payload: JsonValue, payload_text: String) -> (r: JsonValue)
    ensures
        r.model() == save_response_json(req.path@, req.pretty, payload.model(), payload_text@),
{
    let ghost pm = payload.model();
    let mut members: Vec<(String, JsonValue)> = Vec::new();
    members.push(member("authority", text_value("shared-flecs-world")));
    members.push(member("ok", JsonValue::Bool(true)));
    members.push(member("path", JsonValue::Str(req.path.clone())));
    members.push(member("payload", payload));
    members.push(member("payload_text", JsonValue::Str(payload_text)));
    members.push(member("pretty", JsonValue::Bool(req.pretty)));
    members.push(member("storage", text_value("caller-owned")));
    members.push(member("stored", JsonValue::Bool(false)));
    let r = object_of(members);
    assert(r.model()->Object_0 =~= save_response_json(req.path@, req.pretty, pm, payload_text@)->Object_0);
    r
}


// ---------------------------------------------------------------------------
// Plugin declaration

/// A service the plugin provides, with its version and description.
pub struct ProvidedService {
    pub id: String,
    pub version: u32,
    pub describe_json: String,
}

/// A backend route the plugin declares: the capability it backs, the
/// provider route, the backend, the implementation, its priority, and its
/// features and system tags.
pub struct BackendRoute {
    pub capability_id: String,
    pub provider_route: String,
    pub backend: String,
    pub implementation: String,
    pub priority: i32,
    pub features: Vec<String>,
    pub system_tags: Vec<String>,
}

pub open spec fn route_matches(
    r: BackendRoute,
    capability_id: Seq<char>,
    provider_route: Seq<char>,
    features: Seq<Seq<char>>,
    system_tags: Seq<Seq<char>>,
) -> bool {
    &&& r.capability_id@ == capability_id
    &&& r.provider_route@ == provider_route
    &&& r.backend@ == "constellation"@
    &&& r.implementation@ == "flecs"@
    &&& r.priority == 500
    &&& views(r.features@) == features
    &&& views(r.system_tags@) == system_tags
}

pub open spec fn ecs_route_features() -> Seq<Seq<char>> {
    seq![
        "gateway-summary"@,
        "entity-snapshot"@,
        "command-envelope"@,
        "flecs-world"@,
        "flecs-id-allocation"@,
        "shared-entity-authority"@,
    ]
}

pub open spec fn entity_route_features() -> Seq<Seq<char>> {
    seq![
        "opaque-stable-handles"@,
        "entity-list"@,
        "entity-exists"@,
        "entity-lifecycle"@,
        "flecs-world"@,
        "shared-ecs-authority"@,
    ]
}

pub open spec fn scene_route_features() -> Seq<Seq<char>> {
    seq![
        "scene-load-save"@,
        "scene-authority"@,
        "semantic-component-packets"@,
        "shared-ecs-authority"@,
        "shared-entity-authority"@,
        "single-source-of-truth"@,
    ]
}

/// The system tags of a route whose first tag is `kind`.
pub open spec fn route_tags(kind: Seq<char>) -> Seq<Seq<char>> {
    seq![
        kind,
        "provider"@,
        "replaceable-backend"@,
        "plugin-override-proof"@,
        "single-source-of-truth"@,
    ]
}

fn backend_route(capability_id: &str, provider_route: &str, features: &[&str], kind: &str) -> (r:
    BackendRoute)
    ensures
        route_matches(
            r,
            capability_id@,
            provider_route@,
            features@.map_values(|s: &str| s@),
            route_tags(kind@),
        ),
{
    let system_tags = strings_from(
        &[kind, "provider", "replaceable-backend", "plugin-override-proof", "single-source-of-truth"],
    );
    assert(views(system_tags@) =~= route_tags(kind@));
    BackendRoute {
        capability_id: capability_id.to_owned(),
        provider_route: provider_route.to_owned(),
        backend: String::from_str("constellation"),
        implementation: String::from_str("flecs"),
        priority: 500,
        features: strings_from(features),
        system_tags,
    }
}

/// The backend routes the plugin declares: for the ECS, entity and scene
/// gateways, in that order.
pub fn backend_routes() -> (out: Vec<BackendRoute>)
    ensures
        out@.len() == 3,
        route_matches(out@[0], "ecs.backend"@, "engine.ecs.constellation"@, ecs_route_features(), route_tags("ecs"@)),
        route_matches(
            out@[1],
            "entity.backend"@,
            "engine.entity.constellation"@,
            entity_route_features(),
            route_tags("entity"@),
        ),
        route_matches(
            out@[2],
            "scene.backend"@,
            "engine.scene.constellation"@,
            scene_route_features(),
            route_tags("scene"@),
        ),
{
    let ecs_features: [&str; 6] = [
        "gateway-summary",
        "entity-snapshot",
        "command-envelope",
        "flecs-world",
        "flecs-id-allocation",
        "shared-entity-authority",
    ];
    assert(ecs_features@.map_values(|s: &str| s@) =~= ecs_route_features());
    let entity_features: [&str; 6] = [
        "opaque-stable-handles",
        "entity-list",
        "entity-exists",
        "entity-lifecycle",
        "flecs-world",
        "shared-ecs-authority",
    ];
    assert(entity_features@.map_values(|s: &str| s@) =~= entity_route_features());
    let scene_features: [&str; 6] = [
        "scene-load-save",
        "scene-authority",
        "semantic-component-packets",
        "shared-ecs-authority",
        "shared-entity-authority",
        "single-source-of-truth",
    ];
    assert(scene_features@.map_values(|s: &str| s@) =~= scene_route_features());
    let mut out: Vec<BackendRoute> = Vec::new();
    out.push(backend_route("ecs.backend", "engine.ecs.constellation", &ecs_features, "ecs"));
    out.push(backend_route("entity.backend", "engine.entity.constellation", &entity_features, "entity"));
    out.push(backend_route("scene.backend", "engine.scene.constellation", &scene_features, "scene"));
    out
}

pub open spec fn ecs_service_metadata() -> Seq<char> {
    "{\"role\":\"ecs-authority-bridge\",\"contract\":\"ecs.api\",\"gateway\":\"engine.ecs.constellation\",\"root_gateway\":\"engine.ecs\",\"backend\":\"constellation\",\"implementation\":\"flecs\",\"shared_truth\":\"flecs-world\"}"@
}

pub open spec fn entity_service_metadata() -> Seq<char> {
    "{\"role\":\"entity-authority-bridge\",\"contract\":\"entity.api\",\"gateway\":\"engine.entity.constellation\",\"root_gateway\":\"engine.entity\",\"backend\":\"constellation\",\"implementation\":\"flecs\",\"shared_truth\":\"flecs-world\"}"@
}

pub open spec fn scene_service_metadata() -> Seq<char> {
    "{\"role\":\"scene-authority-bridge\",\"contract\":\"scene.api\",\"gateway\":\"engine.scene.constellation\",\"root_gateway\":\"engine.scene\",\"backend\":\"constellation\",\"implementation\":\"flecs\",\"shared_truth\":\"flecs-world\"}"@
}

/// The services the plugin provides: ECS, entity and scene, each at
/// version 1 with its routing metadata.
pub fn provided_services() -> (out: Vec<ProvidedService>)
    ensures
        out@.len() == 3,
        out@[0].id@ == "ecs.api"@ && out@[0].version == 1 && out@[0].describe_json@ == ecs_service_metadata(),
        out@[1].id@ == "entity.api"@ && out@[1].version == 1 && out@[1].describe_json@ == entity_service_metadata(),
        out@[2].id@ == "scene.api"@ && out@[2].version == 1 && out@[2].describe_json@ == scene_service_metadata(),
{
    let mut out: Vec<ProvidedService> = Vec::new();
    out.push(ProvidedService {
        id: String::from_str("ecs.api"),
        version: 1,
        describe_json: String::from_str(
            "{\"role\":\"ecs-authority-bridge\",\"contract\":\"ecs.api\",\"gateway\":\"engine.ecs.constellation\",\"root_gateway\":\"engine.ecs\",\"backend\":\"constellation\",\"implementation\":\"flecs\",\"shared_truth\":\"flecs-world\"}",
        ),
    });
    out.push(ProvidedService {
        id: String::from_str("entity.api"),
        version: 1,
        describe_json: String::from_str(
            "{\"role\":\"entity-authority-bridge\",\"contract\":\"entity.api\",\"gateway\":\"engine.entity.constellation\",\"root_gateway\":\"engine.entity\",\"backend\":\"constellation\",\"implementation\":\"flecs\",\"shared_truth\":\"flecs-world\"}",
        ),
    });
    out.push(ProvidedService {
        id: String::from_str("scene.api"),
        version: 1,
        describe_json: String::from_str(
            "{\"role\":\"scene-authority-bridge\",\"contract\":\"scene.api\",\"gateway\":\"engine.scene.constellation\",\"root_gateway\":\"engine.scene\",\"backend\":\"constellation\",\"implementation\":\"flecs\",\"shared_truth\":\"flecs-world\"}",
        ),
    });
    out
}


/// The scene document in the bytes of a scene asset; the error names the
/// asset and gives the parser's message.
pub fn scene_from_asset(path: &str, bytes: &[u8]) -> (r: Result<JsonValue, String>)
    ensures
        match json_parse(bytes@) {
            Ok(j) => (r matches Ok(v) && v.model() == j),
            Err(e) => (r matches Err(msg) && msg@ == "flecs scene service cannot parse scene asset path='"@
                + path@ + "' err='"@ + e + "'"@),
        },
{
    match parse_json(bytes) {
        Ok(v) => Ok(v),
        Err(e) => Err(scene_asset_parse_error(path, e.as_str())),
    }
}

/// The text form of a saved scene: pretty-printed or compact as asked, `{}`
/// where serde_json refuses the document.
pub open spec fn save_text(payload: Json, pretty: bool) -> Seq<char> {
    text_or_empty(
        if pretty {
            json_pretty(payload)
        } else {
            json_compact(payload)
        },
    )
}

/// The answer to a save request for the saved scene, with its text form.
pub fn save_answer(req: &SaveRequest, payload: JsonValue) -> (r: JsonValue)
    ensures
        r.model() == save_response_json(
            req.path@,
            req.pretty,
            payload.model(),
            save_text(payload.model(), req.pretty),
        ),
{
    let text = if req.pretty {
        pretty_text(&payload)
    } else {
        compact_text(&payload)
    };
    let text = match text {
        Ok(t) => t,
        Err(_) => String::from_str("{}"),
    };
    save_response(req, payload, text)
}

} // verus!
