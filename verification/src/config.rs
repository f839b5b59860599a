//! The plugin's settings: defaults, reading them from a JSON object, and
//! layering configuration patches over a base document.
use vstd::prelude::*;
use crate::json::{
    lemma_members_model, members_model, merge_json_replace, merge_replace, well_formed, Json,
    JsonNumber, JsonValue, NumberModel,
};
use crate::merge_laws::lemma_merge_get;
use crate::codec::{json_parse, json_pretty_bytes, parse_json, pretty_bytes};

verus! {

/// The plugin's settings.
pub struct FlecsEcsPluginConfig {
    pub debug_text: String,
    pub initial_entity_capacity: i32,
    pub minimal_world: bool,
    pub progress_on_advance_tick: bool,
}

/// The mathematical model of the settings.
pub struct ConfigModel {
    pub debug_text: Seq<char>,
    pub initial_entity_capacity: i32,
    pub minimal_world: bool,
    pub progress_on_advance_tick: bool,
}

impl FlecsEcsPluginConfig {
    pub open spec fn model(&self) -> ConfigModel {
        ConfigModel {
            debug_text: self.debug_text@,
            initial_entity_capacity: self.initial_entity_capacity,
            minimal_world: self.minimal_world,
            progress_on_advance_tick: self.progress_on_advance_tick,
        }
    }

    pub fn clone_config(&self) -> (out: FlecsEcsPluginConfig)
        ensures
            out.model() == self.model(),
    {
        FlecsEcsPluginConfig {
            debug_text: self.debug_text.clone(),
            initial_entity_capacity: self.initial_entity_capacity,
            minimal_world: self.minimal_world,
            progress_on_advance_tick: self.progress_on_advance_tick,
        }
    }
}

pub open spec fn default_debug_text() -> Seq<char> {
    "North Star | Constellation ECS/entity authority backend"@
}

/// The default settings.
pub open spec fn default_config() -> ConfigModel {
    ConfigModel {
        debug_text: default_debug_text(),
        initial_entity_capacity: 4096,
        minimal_world: true,
        progress_on_advance_tick: false,
    }
}

impl Default for FlecsEcsPluginConfig {
    fn default() -> (out: Self)
        ensures
            out.model() == default_config(),
    {
        FlecsEcsPluginConfig {
            debug_text: String::from_str("North Star | Constellation ECS/entity authority backend"),
            initial_entity_capacity: 4096,
            minimal_world: true,
            progress_on_advance_tick: false,
        }
    }
}

/// `v` clamped into `0..=i32::MAX`.
pub open spec fn clamp_capacity(v: i64) -> i32 {
    if v < 0 {
        0
    } else if v > i32::MAX {
        i32::MAX
    } else {
        v as i32
    }
}

/// The settings read from the four members a settings document may hold;
/// a missing member, or one of the wrong type, leaves the default.
pub open spec fn read_config(
    debug_text: Option<Json>,
    capacity: Option<Json>,
    minimal_world: Option<Json>,
    progress: Option<Json>,
) -> ConfigModel {
    let d = default_config();
    ConfigModel {
        debug_text: match debug_text {
            Some(v) => match v.as_str() {
                Some(s) => s,
                None => d.debug_text,
            },
            None => d.debug_text,
        },
        initial_entity_capacity: match capacity {
            Some(v) => match v.as_i64() {
                Some(i) => clamp_capacity(i),
                None => d.initial_entity_capacity,
            },
            None => d.initial_entity_capacity,
        },
        minimal_world: match minimal_world {
            Some(v) => match v.as_bool() {
                Some(b) => b,
                None => d.minimal_world,
            },
            None => d.minimal_world,
        },
        progress_on_advance_tick: match progress {
            Some(v) => match v.as_bool() {
                Some(b) => b,
                None => d.progress_on_advance_tick,
            },
            None => d.progress_on_advance_tick,
        },
    }
}

/// The settings a JSON document describes.
pub open spec fn config_from_json(v: Json) -> ConfigModel {
    read_config(
        v.get("debug_text"@),
        v.get("initial_entity_capacity"@),
        v.get("minimal_world"@),
        v.get("progress_on_advance_tick"@),
    )
}

/// Reads the settings out of a JSON document, starting from the defaults.
/// Never fails.
pub fn parse_backend_config_value(value: &JsonValue) -> (r: Result<FlecsEcsPluginConfig, String>)
    ensures
        r matches Ok(c) && c.model() == config_from_json(value.model()),
{
    let mut out = FlecsEcsPluginConfig::default();
    if let Some(v) = value.get("debug_text") {
        if let Some(s) = v.as_str() {
            out.debug_text = s.clone();
        }
    }
    if let Some(v) = value.get("initial_entity_capacity") {
        if let Some(i) = v.as_i64() {
            out.initial_entity_capacity = if i < 0 {
                0
            } else if i > 0x7fff_ffffi64 {
                0x7fff_ffffi32
            } else {
                i as i32
            };
        }
    }
    if let Some(v) = value.get("minimal_world") {
        if let Some(b) = v.as_bool() {
            out.minimal_world = b;
        }
    }
    if let Some(v) = value.get("progress_on_advance_tick") {
        if let Some(b) = v.as_bool() {
            out.progress_on_advance_tick = b;
        }
    }
    Ok(out)
}

/// `value` when it is an object; otherwise the error
/// "`what` must be a JSON object".
pub fn require_object(value: JsonValue, what: &str) -> (r: Result<JsonValue, String>)
    ensures
        value.model().is_object() ==> (r matches Ok(v) && v.model() == value.model()),
        !value.model().is_object() ==> (r matches Err(e) && e@ == what@ + " must be a JSON object"@),
{
    if value.is_object() {
        Ok(value)
    } else {
        let mut e = String::from_str(what);
        e.append(" must be a JSON object");
        Err(e)
    }
}

/// Reads the settings out of a document that must be a JSON object; the
/// error names the document as `what`.
pub fn parse_backend_config_object(value: JsonValue, what: &str) -> (r: Result<FlecsEcsPluginConfig, String>)
    ensures
        value.model().is_object() ==> (r matches Ok(c) && c.model() == config_from_json(value.model())),
        !value.model().is_object() ==> (r matches Err(e) && e@ == what@ + " must be a JSON object"@),
{
    let v = require_object(value, what)?;
    parse_backend_config_value(&v)
}


/// The default settings document.
pub open spec fn default_settings_model() -> Json {
    Json::Object(
        seq![
            ("debug_text"@, Json::Str(default_debug_text())),
            ("initial_entity_capacity"@, Json::Number(NumberModel::PosInt(4096))),
            ("minimal_world"@, Json::Bool(true)),
            ("progress_on_advance_tick"@, Json::Bool(false)),
        ],
    )
}

/// The default settings document, which the plugin offers as its
/// configuration defaults.
pub fn default_settings() -> (out: JsonValue)
    ensures
        out.model() == default_settings_model(),
{
    let mut members: Vec<(String, JsonValue)> = Vec::new();
    members.push(
        (
            String::from_str("debug_text"),
            JsonValue::Str(
                String::from_str("North Star | Constellation ECS/entity authority backend"),
            ),
        ),
    );
    members.push(
        (
            String::from_str("initial_entity_capacity"),
            JsonValue::Number(JsonNumber::PosInt(4096)),
        ),
    );
    members.push((String::from_str("minimal_world"), JsonValue::Bool(true)));
    members.push((String::from_str("progress_on_advance_tick"), JsonValue::Bool(false)));
    proof {
        lemma_members_model(members@, members@.len());
        assert(members_model(members@, members@.len()) =~= default_settings_model()->Object_0);
    }
    JsonValue::Object(members)
}

/// Law: the default settings document describes the default settings.
pub proof fn lemma_default_settings_describe_defaults()
    ensures
        config_from_json(default_settings_model()) == default_config(),
{
    reveal_with_fuel(crate::json::last_key_index, 5);
    reveal_strlit("debug_text");
    reveal_strlit("initial_entity_capacity");
    reveal_strlit("minimal_world");
    reveal_strlit("progress_on_advance_tick");
    assert("debug_text"@.len() == 10);
    assert("initial_entity_capacity"@.len() == 23);
    assert("minimal_world"@.len() == 13);
    assert("progress_on_advance_tick"@.len() == 24);
}

/// Member `key` of the patch where the patch has it, else of the base.
pub open spec fn pick(base: Json, patch: Json, key: Seq<char>) -> Option<Json> {
    match patch.get(key) {
        Some(v) => Some(v),
        None => base.get(key),
    }
}

/// Law: the settings read from a patched document are read, member by
/// member, from the patch where it has the member and from the base where
/// it has not.
pub proof fn lemma_patched_config(base: Json, patch: Json)
    requires
        base is Object,
        patch is Object,
        well_formed(patch),
    ensures
        config_from_json(merge_replace(base, patch)) == read_config(
            pick(base, patch, "debug_text"@),
            pick(base, patch, "initial_entity_capacity"@),
            pick(base, patch, "minimal_world"@),
            pick(base, patch, "progress_on_advance_tick"@),
        ),
{
    lemma_merge_get(base, patch, "debug_text"@);
    lemma_merge_get(base, patch, "initial_entity_capacity"@);
    lemma_merge_get(base, patch, "minimal_world"@);
    lemma_merge_get(base, patch, "progress_on_advance_tick"@);
}

/// What a parse of a settings document gave: the document, or the parser's
/// message.
pub open spec fn parsed_model(r: Result<JsonValue, String>) -> Result<Json, Seq<char>> {
    match r {
        Ok(v) => Ok(v.model()),
        Err(e) => Err(e@),
    }
}

/// The effective settings document after the first `n` patches, or the
/// error that stops the layering.
pub open spec fn patch_outcome(
    base: Result<Json, Seq<char>>,
    patches: Seq<Result<Json, Seq<char>>>,
    n: nat,
) -> Result<Json, Seq<char>>
    decreases n,
{
    if n == 0 || n > patches.len() {
        match base {
            Err(e) => Err("flecs ecs defaults parse failed: "@ + e),
            Ok(b) => if b.is_object() {
                Ok(b)
            } else {
                Err("flecs ecs defaults"@ + " must be a JSON object"@)
            },
        }
    } else {
        match patch_outcome(base, patches, (n - 1) as nat) {
            Err(e) => Err(e),
            Ok(acc) => match patches[n - 1] {
                Err(e) => Err("flecs ecs patch parse failed: "@ + e),
                Ok(p) => if p.is_object() {
                    Ok(merge_replace(acc, p))
                } else {
                    Err("flecs ecs patch"@ + " must be a JSON object"@)
                },
            },
        }
    }
}

/// Once a patch fails, the layering stays failed with the same error.
proof fn lemma_patch_outcome_err_sticks(
    base: Result<Json, Seq<char>>,
    patches: Seq<Result<Json, Seq<char>>>,
    n: nat,
    m: nat,
)
    requires
        n <= m <= patches.len(),
        patch_outcome(base, patches, n) is Err,
    ensures
        patch_outcome(base, patches, m) == patch_outcome(base, patches, n),
    decreases m - n,
{
    if n < m {
        lemma_patch_outcome_err_sticks(base, patches, n, (m - 1) as nat);
    }
}

/// Layers configuration patches over the base settings document. `base`
/// and each patch are what parsing their bytes gave (the parser's message on
/// failure). The base and every patch must be objects; the first document
/// that fails to parse or is not an object decides the error.
pub fn apply_config_patches(
    base: Result<JsonValue, String>,
    patches: &Vec<Result<JsonValue, String>>,
) -> (r: Result<JsonValue, String>)
    ensures
        ({
            let expected = patch_outcome(
                parsed_model(base),
                patches@.map_values(|p: Result<JsonValue, String>| parsed_model(p)),
                patches@.len(),
            );
            match r {
                Ok(v) => expected == Ok::<Json, Seq<char>>(v.model()),
                Err(e) => expected == Err::<Json, Seq<char>>(e@),
            }
        }),
{
    let ghost bm = parsed_model(base);
    let ghost pm = patches@.map_values(|p: Result<JsonValue, String>| parsed_model(p));
    let mut effective = match base {
        Err(e) => {
            let mut msg = String::from_str("flecs ecs defaults parse failed: ");
            msg.append(e.as_str());
            proof {
                lemma_patch_outcome_err_sticks(bm, pm, 0, pm.len());
            }
            return Err(msg);
        },
        Ok(b) => {
            let checked = require_object(b, "flecs ecs defaults");
            match checked {
                Ok(v) => v,
                Err(msg) => {
                    proof {
                        lemma_patch_outcome_err_sticks(bm, pm, 0, pm.len());
                    }
                    return Err(msg);
                },
            }
        },
    };
    let mut i: usize = 0;
    while i < patches.len()
        invariant
            i <= patches@.len(),
            bm == parsed_model(base),
            pm == patches@.map_values(|p: Result<JsonValue, String>| parsed_model(p)),
            patch_outcome(bm, pm, i as nat) == Ok::<Json, Seq<char>>(effective.model()),
        decreases patches@.len() - i,
    {
        match &patches[i] {
            Err(e) => {
                let mut msg = String::from_str("flecs ecs patch parse failed: ");
                msg.append(e.as_str());
                assert(pm[i as int] == parsed_model(patches@[i as int]));
                assert(pm.len() == patches@.len());
                assert(patch_outcome(bm, pm, (i + 1) as nat) == Err::<Json, Seq<char>>(msg@));
                proof {
                    lemma_patch_outcome_err_sticks(bm, pm, (i + 1) as nat, pm.len());
                }
                return Err(msg);
            },
            Ok(p) => {
                assert(pm[i as int] == parsed_model(patches@[i as int]));
                if !p.is_object() {
                    let mut msg = String::from_str("flecs ecs patch");
                    msg.append(" must be a JSON object");
                    assert(pm.len() == patches@.len());
                    assert(patch_outcome(bm, pm, (i + 1) as nat) == Err::<Json, Seq<char>>(msg@));
                    proof {
                        lemma_patch_outcome_err_sticks(bm, pm, (i + 1) as nat, pm.len());
                    }
                    return Err(msg);
                }
                merge_json_replace(&mut effective, p);
            },
        }
        i = i + 1;
    }
    Ok(effective)
}


/// The settings a configuration blob gives: `parsed` is `None` for an
/// empty blob (the defaults), else what parsing its bytes gave.
pub fn parse_backend_config_blob(parsed: Option<Result<JsonValue, String>>) -> (r: Result<
    FlecsEcsPluginConfig,
    String,
>)
    ensures
        match parsed {
            None => (r matches Ok(c) && c.model() == default_config()),
            Some(Err(e)) => (r matches Err(msg) && msg@ == "flecs ecs config parse failed: "@ + e@),
            Some(Ok(v)) => if v.model().is_object() {
                (r matches Ok(c) && c.model() == config_from_json(v.model()))
            } else {
                (r matches Err(msg) && msg@ == "flecs ecs config"@ + " must be a JSON object"@)
            },
        },
{
    match parsed {
        None => Ok(FlecsEcsPluginConfig::default()),
        Some(Err(e)) => {
            let mut msg = String::from_str("flecs ecs config parse failed: ");
            msg.append(e.as_str());
            Err(msg)
        },
        Some(Ok(v)) => parse_backend_config_object(v, "flecs ecs config"),
    }
}

/// Decision on the Flecs world to create for the settings: a minimal world
/// or a full one, and how many entity ids to reserve, if any.
pub struct BackendSetup {
    pub minimal_world: bool,
    pub entity_capacity: Option<i32>,
}

/// The Flecs world the settings ask for: ids are reserved only for a
/// positive capacity.
pub fn backend_setup(config: &FlecsEcsPluginConfig) -> (s: BackendSetup)
    ensures
        s.minimal_world == config.minimal_world,
        s.entity_capacity == if config.initial_entity_capacity > 0 {
            Some(config.initial_entity_capacity)
        } else {
            None
        },
{
    BackendSetup {
        minimal_world: config.minimal_world,
        entity_capacity: if config.initial_entity_capacity > 0 {
            Some(config.initial_entity_capacity)
        } else {
            None
        },
    }
}

/// A request payload: `parsed` is `None` for an empty payload (an empty
/// object), else what parsing its bytes gave; the error names the method.
pub fn decode_json_value(parsed: Option<Result<JsonValue, String>>, method: &str) -> (r: Result<
    JsonValue,
    String,
>)
    ensures
        match parsed {
            None => (r matches Ok(v) && v.model() == Json::Object(Seq::empty())),
            Some(Ok(v)) => (r matches Ok(w) && w.model() == v.model()),
            Some(Err(e)) => (r matches Err(msg) && msg@ == method@ + ": "@ + e@),
        },
{
    match parsed {
        None => {
            let empty: Vec<(String, JsonValue)> = Vec::new();
            proof {
                assert(members_model(empty@, 0) =~= Seq::empty());
            }
            Ok(JsonValue::Object(empty))
        },
        Some(Ok(v)) => Ok(v),
        Some(Err(e)) => {
            let mut msg = String::from_str(method);
            msg.append(": ");
            msg.append(e.as_str());
            Err(msg)
        },
    }
}


/// A request payload from its bytes: an empty payload is an empty object,
/// other bytes are parsed; a parse error names the method.
pub fn decode_request_bytes(bytes: &[u8], method: &str) -> (r: Result<JsonValue, String>)
    ensures
        bytes@.len() == 0 ==> (r matches Ok(v) && v.model() == Json::Object(Seq::empty())),
        bytes@.len() > 0 ==> match json_parse(bytes@) {
            Ok(j) => (r matches Ok(v) && v.model() == j),
            Err(e) => (r matches Err(msg) && msg@ == method@ + ": "@ + e),
        },
{
    let parsed = if bytes.len() == 0 {
        None
    } else {
        Some(parse_json(bytes))
    };
    decode_json_value(parsed, method)
}

/// The settings the bytes of a configuration blob give: an empty blob gives
/// the defaults; other bytes must parse to an object.
pub fn parse_backend_config_bytes(bytes: &[u8]) -> (r: Result<FlecsEcsPluginConfig, String>)
    ensures
        bytes@.len() == 0 ==> (r matches Ok(c) && c.model() == default_config()),
        bytes@.len() > 0 ==> match json_parse(bytes@) {
            Err(e) => (r matches Err(msg) && msg@ == "flecs ecs config parse failed: "@ + e),
            Ok(j) => if j.is_object() {
                (r matches Ok(c) && c.model() == config_from_json(j))
            } else {
                (r matches Err(msg) && msg@ == "flecs ecs config"@ + " must be a JSON object"@)
            },
        },
{
    let parsed = if bytes.len() == 0 {
        None
    } else {
        Some(parse_json(bytes))
    };
    parse_backend_config_blob(parsed)
}

/// The bytes of the default settings document, pretty-printed.
pub fn default_settings_bytes() -> (r: Result<Vec<u8>, String>)
    ensures
        match json_pretty_bytes(default_settings_model()) {
            Ok(b) => (r matches Ok(x) && x@ == b),
            Err(e) => (r matches Err(msg) && msg@ == e),
        },
{
    pretty_bytes(&default_settings())
}

/// Layers the patches' bytes over the base settings bytes and gives the
/// effective settings document as pretty-printed bytes. Every blob is
/// parsed; the base and each patch must be objects, and the first that is
/// not decides the error.
pub fn apply_config_patch_bytes(base: &[u8], patches: &Vec<Vec<u8>>) -> (r: Result<Vec<u8>, String>)
    ensures
        match patch_outcome(
            json_parse(base@),
            patches@.map_values(|p: Vec<u8>| json_parse(p@)),
            patches@.len(),
        ) {
            Err(e) => (r matches Err(msg) && msg@ == e),
            Ok(j) => match json_pretty_bytes(j) {
                Ok(b) => (r matches Ok(x) && x@ == b),
                Err(e) => (r matches Err(msg) && msg@ == e),
            },
        },
{
    let b = parse_json(base);
    let mut parsed: Vec<Result<JsonValue, String>> = Vec::new();
    let mut i: usize = 0;
    while i < patches.len()
        invariant
            i <= patches@.len(),
            parsed@.len() == i,
            forall|k: int| 0 <= k < i ==> #[trigger] parsed_model(parsed@[k]) == json_parse(patches@[k]@),
        decreases patches@.len() - i,
    {
        let p = parse_json(patches[i].as_slice());
        parsed.push(p);
        i = i + 1;
    }
    proof {
        assert(parsed@.map_values(|p: Result<JsonValue, String>| parsed_model(p))
            =~= patches@.map_values(|p: Vec<u8>| json_parse(p@)));
    }
    match apply_config_patches(b, &parsed) {
        Ok(effective) => pretty_bytes(&effective),
        Err(e) => Err(e),
    }
}

} // verus!
