//! Reading scene documents: unwrapping an enveloped scene and turning a
//! scene into entity records.
use vstd::prelude::*;
use crate::json::{
    clone_items, items_model, lemma_items_model, member, object_of, values_model, Json,
    JsonValue,
};
use crate::text::{decimal, decimal_string};

verus! {

/// The scene inside a document: its `scene` member, else its `payload`
/// member, else the document itself.
pub open spec fn normalized_scene(v: Json) -> Json {
    match v.get("scene"@) {
        Some(s) => s,
        None => match v.get("payload"@) {
            Some(p) => p,
            None => v,
        },
    }
}

pub fn normalize_scene_payload(value: JsonValue) -> (r: JsonValue)
    ensures
        r.model() == normalized_scene(value.model()),
{
    if let Some(scene) = value.get("scene") {
        scene.deep_clone()
    } else if let Some(payload) = value.get("payload") {
        payload.deep_clone()
    } else {
        value
    }
}

/// The top-level scene sections that become one entity each.
pub open spec fn section_keys() -> Seq<Seq<char>> {
    seq![
        "player"@,
        "terrain"@,
        "sky"@,
        "lighting"@,
        "foliage"@,
        "audio"@,
        "postfx"@,
    ]
}

fn section_key(i: usize) -> (k: &'static str)
    requires
        i < 7,
    ensures
        k@ == section_keys()[i as int],
{
    if i == 0 {
        "player"
    } else if i == 1 {
        "terrain"
    } else if i == 2 {
        "sky"
    } else if i == 3 {
        "lighting"
    } else if i == 4 {
        "foliage"
    } else if i == 5 {
        "audio"
    } else {
        "postfx"
    }
}

/// The entity record of a scene section or prefab.
pub open spec fn entity_record(kind: Seq<char>, name: Seq<char>, payload: Json) -> Json {
    Json::Object(
        seq![("kind"@, Json::Str(kind)), ("name"@, Json::Str(name)), ("payload"@, payload)],
    )
}

/// The records of the sections among the first `n` section keys that the
/// scene has.
pub open spec fn section_records(scene: Json, n: nat) -> Seq<Json>
    decreases n,
{
    if n == 0 || n > 7 {
        Seq::empty()
    } else {
        let prev = section_records(scene, (n - 1) as nat);
        let key = section_keys()[n - 1];
        match scene.get(key) {
            Some(v) => prev.push(entity_record("scene."@ + key, key, v)),
            None => prev,
        }
    }
}

/// The records of a scene's prefabs, named by their position.
pub open spec fn prefab_records(prefabs: Seq<Json>) -> Seq<Json> {
    Seq::new(
        prefabs.len(),
        |i: int| entity_record("scene.prefab"@, "prefab_"@ + decimal(i as nat), prefabs[i]),
    )
}

/// The entity records of a scene: its `entities` array where it has one;
/// otherwise a record per present section, then one per prefab.
pub open spec fn scene_entity_records(scene: Json) -> Seq<Json> {
    let entities = match scene.get("entities"@) {
        Some(e) => e.as_array(),
        None => None,
    };
    match entities {
        Some(a) => a,
        None => section_records(scene, 7) + match scene.get("prefabs"@) {
            Some(p) => match p.as_array() {
                Some(ps) => prefab_records(ps),
                None => Seq::empty(),
            },
            None => Seq::empty(),
        },
    }
}

fn record_value(kind: String, name: String, payload: JsonValue) -> (r: JsonValue)
    ensures
        r.model() == entity_record(kind@, name@, payload.model()),
{
    let mut members: Vec<(String, JsonValue)> = Vec::new();
    members.push(member("kind", JsonValue::Str(kind)));
    members.push(member("name", JsonValue::Str(name)));
    members.push(member("payload", payload));
    let r = object_of(members);
    proof {
        assert(r.model()->Object_0 =~= entity_record(kind@, name@, payload.model())->Object_0);
    }
    r
}

/// The entity records of a scene (see `scene_entity_records`).
pub fn extract_scene_entity_records(scene: &JsonValue) -> (out: Vec<JsonValue>)
    ensures
        values_model(out@) == scene_entity_records(scene.model()),
{
    if let Some(entities) = scene.get("entities") {
        if let Some(items) = entities.as_array() {
            let out = clone_items(items);
            proof {
                lemma_items_model(items@, items@.len());
                assert(values_model(out@) =~= items_model(items@, items@.len()));
            }
            return out;
        }
    }
    let mut records: Vec<JsonValue> = Vec::new();
    let mut k: usize = 0;
    while k < 7
        invariant
            k <= 7,
            values_model(records@) == section_records(scene.model(), k as nat),
        decreases 7 - k,
    {
        let key = section_key(k);
        let ghost prev = records@;
        if let Some(value) = scene.get(key) {
            let mut kind = String::from_str("scene.");
            kind.append(key);
            records.push(record_value(kind, key.to_owned(), value.deep_clone()));
            assert(values_model(records@) =~= values_model(prev).push(
                entity_record("scene."@ + key@, key@, value.model()),
            ));
        }
        k = k + 1;
    }
    let ghost sections = values_model(records@);
    if let Some(prefabs) = scene.get("prefabs") {
        if let Some(items) = prefabs.as_array() {
            proof {
                lemma_items_model(items@, items@.len());
            }
            let ghost pm = items_model(items@, items@.len());
            let mut i: usize = 0;
            while i < items.len()
                invariant
                    i <= items@.len(),
                    pm == items_model(items@, items@.len()),
                    pm.len() == items@.len(),
                    forall|t: int| 0 <= t < items@.len() ==> #[trigger] pm[t] == items@[t].model(),
                    values_model(records@) == sections + prefab_records(pm).take(i as int),
                decreases items@.len() - i,
            {
                let ghost prev = records@;
                let mut name = String::from_str("prefab_");
                let digits = decimal_string(i as u64);
                name.append(digits.as_str());
                records.push(
                    record_value(String::from_str("scene.prefab"), name, items[i].deep_clone()),
                );
                assert(values_model(records@) =~= values_model(prev).push(prefab_records(pm)[i as int]));
                assert(prefab_records(pm).take(i + 1) =~= prefab_records(pm).take(i as int).push(prefab_records(pm)[i as int]));
                i = i + 1;
            }
            assert(prefab_records(pm).take(items@.len() as int) =~= prefab_records(pm));
            return records;
        }
    }
    assert(values_model(records@) =~= scene_entity_records(scene.model()));
    records
}

} // verus!
