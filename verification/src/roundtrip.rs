//! What saving gives back of a scene that was just loaded.
use vstd::prelude::*;
use crate::api::AllocatedEntity;
use crate::json::{last_key_index, member_get, upsert_member, Json, NumberModel};
use crate::world::{
    allocated_ids, handle_json, json_str_member, load_records, load_scene_model, opt_json_text,
    packets_of, saved_entity_json, saved_scene_json, scene_entity_type, scene_source_index_type,
    shutdown_model, smallest_ids, source_index_json, WorldModel,
};
use crate::scene::{normalized_scene, scene_entity_records};

verus! {

/// The packets a loaded entity starts with: its scene record, then its
/// source index.
pub open spec fn loaded_packets(record: Json, index: nat, sp: Option<Seq<char>>) -> Seq<
    (Seq<char>, Json),
> {
    seq![(scene_entity_type(), record), (scene_source_index_type(), source_index_json(index, sp))]
}

proof fn lemma_packet_types_differ()
    ensures
        scene_entity_type() != scene_source_index_type(),
{
    reveal_strlit("newengine.scene.entity");
    reveal_strlit("newengine.scene.source_index");
    assert("newengine.scene.entity"@.len() == 22);
    assert("newengine.scene.source_index"@.len() == 28);
}

/// Loading records into an empty world with distinct new entities gives
/// the i-th entity exactly the i-th record and its source index.
proof fn lemma_loaded_entries(
    m: WorldModel,
    allocs: Seq<AllocatedEntity>,
    records: Seq<Json>,
    sp: Option<Seq<char>>,
    n: nat,
)
    requires
        m.components == Map::<u64, Seq<(Seq<char>, Json)>>::empty(),
        m.alive == Set::<u64>::empty(),
        n <= records.len(),
        n <= allocs.len(),
        allocated_ids(allocs).no_duplicates(),
    ensures
        ({
            let w = load_records(m, allocs, records, sp, n);
            &&& w.alive == allocated_ids(allocs).take(n as int).to_set()
            &&& forall|id: u64| #[trigger] w.components.contains_key(id) ==> w.alive.contains(id)
            &&& forall|i: int|
                0 <= i < n ==> #[trigger] packets_of(w, allocated_ids(allocs)[i]) == loaded_packets(
                    records[i],
                    i as nat,
                    sp,
                )
        }),
    decreases n,
{
    let ids = allocated_ids(allocs);
    if n == 0 {
        assert(ids.take(0).to_set() =~= Set::empty());
    } else {
        lemma_loaded_entries(m, allocs, records, sp, (n - 1) as nat);
        lemma_packet_types_differ();
        let prev = load_records(m, allocs, records, sp, (n - 1) as nat);
        let w = load_records(m, allocs, records, sp, n);
        let id = ids[n - 1];
        assert(ids.take(n as int) =~= ids.take(n - 1).push(ids[n - 1]));
        ids.take(n - 1).lemma_push_to_set_commute(ids[n - 1]);
        assert(w.alive =~= ids.take(n as int).to_set());
        assert(!ids.take(n - 1).contains(id)) by {
            if ids.take(n - 1).contains(id) {
                let t = choose|t: int| 0 <= t < n - 1 && #[trigger] ids.take(n - 1)[t] == id;
                assert(ids[t] == ids[n - 1]);
            }
        }
        assert(!prev.components.contains_key(id));
        let p0 = Seq::<(Seq<char>, Json)>::empty();
        let p1 = upsert_member(p0, scene_entity_type(), records[n - 1]);
        assert(p1 =~= seq![(scene_entity_type(), records[n - 1])]);
        assert(last_key_index(p1, scene_source_index_type(), 1) is None) by {
            reveal_with_fuel(last_key_index, 2);
        }
        let p2 = upsert_member(p1, scene_source_index_type(), source_index_json((n - 1) as nat, sp));
        assert(p2 =~= loaded_packets(records[n - 1], (n - 1) as nat, sp));
        assert forall|i: int| 0 <= i < n implies #[trigger] packets_of(w, ids[i]) == loaded_packets(
            records[i],
            i as nat,
            sp,
        ) by {
            if i < n - 1 {
                assert(ids[i] != id);
                assert(packets_of(prev, ids[i]) == loaded_packets(records[i], i as nat, sp));
            }
        }
    }
}

/// Law: saving right after a replacing scene load, where the Flecs world
/// created one distinct entity per record, gives back the scene: its
/// schema (or the snapshot schema where it has none), its source path, the
/// number of loaded entities and their handles in load order, one saved
/// entity per record, and, for the i-th loaded entity, the i-th record as
/// its scene entity packet.
pub proof fn lemma_load_then_save(
    m: WorldModel,
    scene: Json,
    sp: Option<Seq<char>>,
    allocs: Seq<AllocatedEntity>,
    ids: Seq<u64>,
)
    requires
        allocs.len() == scene_entity_records(normalized_scene(scene)).len(),
        allocs.len() <= usize::MAX,
        allocated_ids(allocs).no_duplicates(),
        smallest_ids(
            ids,
            load_scene_model(m, scene, sp, true, allocs).alive,
            load_scene_model(m, scene, sp, true, allocs).alive.len(),
        ),
    ensures
        ({
            let norm = normalized_scene(scene);
            let records = scene_entity_records(norm);
            let w = load_scene_model(m, scene, sp, true, allocs);
            let s = saved_scene_json(w, ids);
            &&& s.get("schema"@) == Some(
                Json::Str(
                    match json_str_member(norm, "schema"@) {
                        Some(x) => x,
                        None => "newengine.scene.provider_snapshot.v1"@,
                    },
                ),
            )
            &&& s.get("source_path"@) == Some(opt_json_text(sp))
            &&& s.get("loaded_entity_count"@) == Some(
                Json::Number(NumberModel::PosInt(records.len() as u64)),
            )
            &&& s.get("loaded_entity_handles"@) == Some(
                Json::Array(
                    Seq::new(allocs.len(), |i: int| handle_json(allocated_ids(allocs)[i])),
                ),
            )
            &&& s.get("entities"@) matches Some(Json::Array(es)) && es.len() == records.len()
                && forall|i: int|
                #![trigger allocated_ids(allocs)[i]]
                0 <= i < records.len() ==> exists|j: int|
                    0 <= j < es.len() && ids[j] == allocated_ids(allocs)[i] && #[trigger] es[j]
                        == saved_entity_json(w, allocated_ids(allocs)[i])
            &&& forall|i: int|
                0 <= i < records.len() ==> member_get(
                    #[trigger] packets_of(w, allocated_ids(allocs)[i]),
                    scene_entity_type(),
                ) == Some(records[i])
        }),
{
    let norm = normalized_scene(scene);
    let records = scene_entity_records(norm);
    let w = load_scene_model(m, scene, sp, true, allocs);
    let aids = allocated_ids(allocs);
    let m0 = shutdown_model(m);
    lemma_loaded_entries(m0, allocs, records, sp, records.len());
    let lr = load_records(m0, allocs, records, sp, records.len());
    assert(w.components == lr.components);
    assert(aids.take(allocs.len() as int) =~= aids);
    aids.unique_seq_to_set();
    let s = saved_scene_json(w, ids);
    let mem = s->Object_0;
    reveal_strlit("authority");
    reveal_strlit("entities");
    reveal_strlit("loaded_entity_count");
    reveal_strlit("loaded_entity_handles");
    reveal_strlit("schema");
    reveal_strlit("source_path");
    reveal_strlit("title");
    reveal_strlit("version");
    assert("schema"@.len() == 6);
    assert("source_path"@.len() == 11);
    assert("title"@.len() == 5);
    assert("version"@.len() == 7);
    assert("entities"@.len() == 8);
    assert("loaded_entity_count"@.len() == 19);
    assert("loaded_entity_handles"@.len() == 21);
    reveal_with_fuel(last_key_index, 9);
    assert(mem.len() == 8);
    assert(s.get("schema"@) == Some(mem[4].1));
    assert(s.get("source_path"@) == Some(mem[5].1));
    assert(s.get("loaded_entity_count"@) == Some(mem[2].1));
    assert(s.get("loaded_entity_handles"@) == Some(mem[3].1));
    assert(mem[3].1->Array_0 =~= Seq::new(allocs.len(), |i: int| handle_json(aids[i])));
    assert(s.get("entities"@) == Some(mem[1].1));
    let es = mem[1].1->Array_0;
    assert(ids.no_duplicates()) by {
        assert forall|i: int, j: int| 0 <= i < ids.len() && 0 <= j < ids.len() && i != j implies ids[i]
            != ids[j] by {
            if i < j {
                assert(ids[i] < ids[j]);
            } else {
                assert(ids[j] < ids[i]);
            }
        }
    }
    ids.unique_seq_to_set();
    aids.lemma_cardinality_of_set();
    assert(ids.to_set().subset_of(w.alive)) by {
        assert forall|x: u64| ids.to_set().contains(x) implies w.alive.contains(x) by {
            let t = choose|t: int| 0 <= t < ids.len() && ids[t] == x;
            assert(w.alive.contains(ids[t]));
        }
    }
    vstd::set_lib::lemma_subset_equality(ids.to_set(), w.alive);
    assert forall|i: int| #![trigger aids[i]] 0 <= i < records.len() implies exists|j: int|
        0 <= j < es.len() && ids[j] == aids[i] && #[trigger] es[j] == saved_entity_json(w, aids[i]) by {
        assert(aids.contains(aids[i]));
        assert(w.alive.contains(aids[i]));
        assert(ids.to_set().contains(aids[i]));
        let j = choose|j: int| 0 <= j < ids.len() && ids[j] == aids[i];
        assert(es[j] == saved_entity_json(w, aids[i]));
    }
    assert forall|i: int| 0 <= i < records.len() implies member_get(
        #[trigger] packets_of(w, aids[i]),
        scene_entity_type(),
    ) == Some(records[i]) by {
        lemma_packet_types_differ();
        let p = loaded_packets(records[i], i as nat, sp);
        assert(packets_of(lr, aids[i]) == p);
        assert(packets_of(w, aids[i]) == p);
        reveal_with_fuel(last_key_index, 3);
        assert(last_key_index(p, scene_entity_type(), 2) == Some(0int));
    }
}

} // verus!
