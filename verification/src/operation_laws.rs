//! Laws, over all inputs, on what scene reading and saving, the command
//! envelope, the settings merge and the spawn cap do.
use vstd::prelude::*;
use crate::api::{AllocatedEntity, CommandModel};
use crate::json::{last_key_index, merge_replace, Json, NumberModel};
use crate::scene::{scene_entity_records, section_keys, section_records};
use crate::text::decimal;
use crate::world::{
    apply_command, load_scene_model, run_commands, saved_scene_json, spawn_batch_model, spawn_count,
    WorldModel,
};

verus! {

/// The section names a scene may have, in the order their records come.
pub open spec fn scene_section_names() -> Seq<Seq<char>> {
    seq!["player"@, "terrain"@, "sky"@, "lighting"@, "foliage"@, "audio"@, "postfx"@]
}

/// A record `{kind, name, payload}` made from a scene section or prefab.
pub open spec fn record_json(kind: Seq<char>, name: Seq<char>, payload: Json) -> Json {
    Json::Object(seq![("kind"@, Json::Str(kind)), ("name"@, Json::Str(name)), ("payload"@, payload)])
}

/// One record per name in `names` that the scene has, in the order of
/// `names`: kind `scene.<name>`, the name, and the section as payload.
pub open spec fn present_sections(scene: Json, names: Seq<Seq<char>>) -> Seq<Json>
    decreases names.len(),
{
    if names.len() == 0 {
        Seq::empty()
    } else {
        let before = present_sections(scene, names.drop_last());
        match scene.get(names.last()) {
            Some(v) => before.push(record_json("scene."@ + names.last(), names.last(), v)),
            None => before,
        }
    }
}

proof fn lemma_sections_match(scene: Json, n: nat)
    requires
        n <= 7,
    ensures
        section_records(scene, n) == present_sections(scene, scene_section_names().take(n as int)),
    decreases n,
{
    if n > 0 {
        lemma_sections_match(scene, (n - 1) as nat);
        let names = scene_section_names().take(n as int);
        assert(names.drop_last() =~= scene_section_names().take(n - 1));
        assert(section_keys() =~= scene_section_names());
        assert(names.last() == section_keys()[n - 1]);
    }
}

/// Law: a scene with an `entities` array gives exactly that array as its
/// records; a scene without one gives one record for each of the sections
/// player, terrain, sky, lighting, foliage, audio and postfx that it has, in
/// that order, then one record per prefab, named `prefab_<position>`.
pub proof fn lemma_scene_records(scene: Json)
    ensures
        scene.get("entities"@) matches Some(Json::Array(es)) ==> scene_entity_records(scene) == es,
        !(scene.get("entities"@) matches Some(Json::Array(_))) ==> scene_entity_records(scene)
            == present_sections(scene, scene_section_names()) + match scene.get("prefabs"@) {
            Some(Json::Array(ps)) => Seq::new(
                ps.len(),
                |i: int| record_json("scene.prefab"@, "prefab_"@ + decimal(i as nat), ps[i]),
            ),
            _ => Seq::<Json>::empty(),
        },
{
    lemma_sections_match(scene, 7);
    assert(scene_section_names().take(7) =~= scene_section_names());
    match scene.get("prefabs"@) {
        Some(Json::Array(ps)) => {
            assert(crate::scene::prefab_records(ps) =~= Seq::new(
                ps.len(),
                |i: int| record_json("scene.prefab"@, "prefab_"@ + decimal(i as nat), ps[i]),
            ));
        },
        _ => {},
    }
}

/// Law: the saved document after any scene load carries that scene's
/// title (or null), its schema (or the snapshot schema), its version (or
/// 1), and the path it was loaded from (or null).
pub proof fn lemma_saved_scene_facts(
    m: WorldModel,
    scene: Json,
    sp: Option<Seq<char>>,
    replace: bool,
    allocs: Seq<AllocatedEntity>,
    ids: Seq<u64>,
)
    ensures
        ({
            let norm = crate::scene::normalized_scene(scene);
            let s = saved_scene_json(load_scene_model(m, scene, sp, replace, allocs), ids);
            &&& s.get("title"@) == Some(
                match norm.get("title"@) {
                    Some(Json::Str(t)) => Json::Str(t),
                    _ => Json::Null,
                },
            )
            &&& s.get("schema"@) == Some(
                Json::Str(
                    match norm.get("schema"@) {
                        Some(Json::Str(t)) => t,
                        _ => "newengine.scene.provider_snapshot.v1"@,
                    },
                ),
            )
            &&& s.get("version"@) == Some(
                Json::Number(
                    NumberModel::PosInt(
                        match norm.get("version"@) {
                            Some(Json::Number(NumberModel::PosInt(v))) => v,
                            _ => 1,
                        },
                    ),
                ),
            )
            &&& s.get("source_path"@) == Some(
                match sp {
                    Some(p) => Json::Str(p),
                    None => Json::Null,
                },
            )
        }),
{
    let s = saved_scene_json(load_scene_model(m, scene, sp, replace, allocs), ids);
    let mem = s->Object_0;
    reveal_strlit("authority");
    reveal_strlit("entities");
    reveal_strlit("loaded_entity_count");
    reveal_strlit("loaded_entity_handles");
    reveal_strlit("schema");
    reveal_strlit("source_path");
    reveal_strlit("title");
    reveal_strlit("version");
    assert("schema"@.len() == 6);
    assert("source_path"@.len() == 11);
    assert("title"@.len() == 5);
    assert("version"@.len() == 7);
    reveal_with_fuel(last_key_index, 9);
    assert(mem.len() == 8);
    assert(s.get("title"@) == Some(mem[6].1));
    assert(s.get("schema"@) == Some(mem[4].1));
    assert(s.get("version"@) == Some(mem[7].1));
    assert(s.get("source_path"@) == Some(mem[5].1));
}

/// Law: a `SetTick { tick: t }` command sets the tick to `t`, whatever it
/// was, and its result reports success at tick `t`; the entities and
/// packets stay as they were.
pub proof fn lemma_set_tick(m: WorldModel, t: u64, index: int, a: AllocatedEntity)
    ensures
        apply_command(m, CommandModel::SetTick { tick: t }, index, a).0.tick == t,
        apply_command(m, CommandModel::SetTick { tick: t }, index, a).1.tick == t,
        apply_command(m, CommandModel::SetTick { tick: t }, index, a).1.ok,
        apply_command(m, CommandModel::SetTick { tick: t }, index, a).0.alive == m.alive,
        apply_command(m, CommandModel::SetTick { tick: t }, index, a).0.components == m.components,
{
}

proof fn lemma_results_len(m: WorldModel, cmds: Seq<CommandModel>, allocs: Seq<AllocatedEntity>, n: nat)
    requires
        n <= cmds.len(),
    ensures
        run_commands(m, cmds, allocs, n).1.len() == n,
    decreases n,
{
    if n > 0 {
        lemma_results_len(m, cmds, allocs, (n - 1) as nat);
    }
}

/// Law: in a command envelope, right after a `SetTick { tick: t }` command
/// the world's tick is `t` and that command's result reports tick `t`,
/// whatever came before it.
pub proof fn lemma_envelope_set_tick(
    m: WorldModel,
    cmds: Seq<CommandModel>,
    allocs: Seq<AllocatedEntity>,
    n: nat,
    t: u64,
)
    requires
        0 < n <= cmds.len(),
        cmds[n - 1] == (CommandModel::SetTick { tick: t }),
    ensures
        run_commands(m, cmds, allocs, n).0.tick == t,
        run_commands(m, cmds, allocs, n).1[n - 1].tick == t,
        run_commands(m, cmds, allocs, n).1[n - 1].ok,
{
    lemma_results_len(m, cmds, allocs, (n - 1) as nat);
    let prev = run_commands(m, cmds, allocs, (n - 1) as nat);
    lemma_set_tick(prev.0, t, n - 1, allocs[spawn_count(cmds, (n - 1) as nat) as int]);
}

/// Law: merging a patch that is not an object gives the patch itself,
/// whatever the target was; in particular a null patch value replaces an
/// object or an array.
pub proof fn lemma_merge_non_object(dst: Json, src: Json)
    requires
        !(src is Object),
    ensures
        merge_replace(dst, src) == src,
{
}

/// Law: a spawn request for `count` entities creates `count` of them, but
/// never more than 65536.
pub proof fn lemma_spawn_cap(count: usize)
    ensures
        spawn_batch_model(count) == if count <= 65536 {
            count
        } else {
            65536
        },
        count <= 65536 ==> spawn_batch_model(count) == count,
{
}

} // verus!
