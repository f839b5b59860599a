//! Laws of the world state that span its operations.
use vstd::prelude::*;
use crate::api::{stable_id_of, AllocatedEntity, EntityHandle};
use crate::merge_laws::lemma_upsert_get;
use crate::json::{
    member_get, has_member, last_key_index, lemma_last_key_index, remove_member, upsert_member, Json,
};
use crate::text::trimmed;
use crate::api::CommandModel;
use crate::world::{
    apply_command, run_commands, spawn_count, allocated_ids, component_type_names, despawn_step, load_records,
    load_scene_model, model_wf, packets_of, prune_model, remove_component_model,
    scene_entity_type, scene_source_index_type, set_component_model, shutdown_model,
    smallest_ids, spawn_all, spawn_model, WorldModel,
};
use crate::scene::{normalized_scene, scene_entity_records};

verus! {

/// Law: a spawned entity is alive, and nothing else changes among the
/// alive entities.
pub proof fn lemma_spawn_visible(m: WorldModel, a: AllocatedEntity)
    ensures
        spawn_model(m, a).alive.contains(stable_id_of(a)),
        spawn_model(m, a).alive == m.alive.insert(stable_id_of(a)),
        spawn_model(m, a).components == m.components,
{
}

/// Law: despawning an entity right after spawning it leaves the alive
/// entities and the packets as they were, and reports the entity deleted.
pub proof fn lemma_despawn_undoes_spawn(m: WorldModel, a: AllocatedEntity)
    requires
        model_wf(m),
        stable_id_of(a) != 0,
        !m.alive.contains(stable_id_of(a)),
    ensures
        ({
            let id = stable_id_of(a);
            let step = despawn_step(spawn_model(m, a), EntityHandle { stable_id: id });
            &&& step.1
            &&& step.2 == Some(id)
            &&& step.0.alive == m.alive
            &&& step.0.components == m.components
            &&& step.0.tick == m.tick
        }),
{
    let id = stable_id_of(a);
    assert(m.alive.insert(id).remove(id) =~= m.alive);
    assert(!m.components.contains_key(id));
    assert(m.components.remove(id) =~= m.components);
}

/// Removing a key that upserting just added gives back the members.
proof fn lemma_remove_after_new_upsert(p: Seq<(Seq<char>, Json)>, k: Seq<char>, v: Json)
    requires
        !has_member(p, k),
    ensures
        remove_member(upsert_member(p, k, v), k) == p,
{
    lemma_last_key_index(p, k, p.len());
    let u = p.push((k, v));
    assert(upsert_member(p, k, v) == u);
    assert(last_key_index(u, k, u.len()) == Some(p.len() as int));
    assert(u.remove(p.len() as int) =~= p);
}

/// Law: removing the packet of a component type that was just set, where
/// the entity held no packet of that type before, leaves the packets as
/// they were.
pub proof fn lemma_remove_undoes_set(m: WorldModel, id: u64, ct: Seq<char>, payload: Json)
    requires
        model_wf(m),
        set_component_model(m, id, ct, payload) is Ok,
        !has_member(packets_of(m, id), trimmed(ct)),
    ensures
        ({
            let m2 = set_component_model(m, id, ct, payload)->Ok_0;
            &&& remove_component_model(m2, id, ct) is Ok
            &&& remove_component_model(m2, id, ct)->Ok_0.components == m.components
            &&& remove_component_model(m2, id, ct)->Ok_0.alive == m.alive
        }),
{
    let k = trimmed(ct);
    let p = packets_of(m, id);
    lemma_remove_after_new_upsert(p, k, payload);
    let m2 = set_component_model(m, id, ct, payload)->Ok_0;
    assert(m2.components[id] == upsert_member(p, k, payload));
    if m.components.contains_key(id) {
        assert(m.components.insert(id, p) =~= m.components);
    } else {
        assert(p.len() == 0);
        assert(m2.components.remove(id) =~= m.components);
    }
}

proof fn lemma_smallest_prefix(a: Seq<u64>, b: Seq<u64>, s: Set<u64>, k: nat, i: int)
    requires
        smallest_ids(a, s, k),
        smallest_ids(b, s, k),
        0 <= i < k,
    ensures
        forall|j: int| 0 <= j <= i ==> a[j] == b[j],
    decreases i,
{
    if i > 0 {
        lemma_smallest_prefix(a, b, s, k, i - 1);
    }
    lemma_smallest_first_mismatch(a, b, s, k, i);
    lemma_smallest_first_mismatch(b, a, s, k, i);
}

proof fn lemma_smallest_first_mismatch(a: Seq<u64>, b: Seq<u64>, s: Set<u64>, k: nat, i: int)
    requires
        smallest_ids(a, s, k),
        smallest_ids(b, s, k),
        0 <= i < k,
        forall|j: int| 0 <= j < i ==> a[j] == b[j],
    ensures
        a[i] >= b[i],
{
    let x = a[i];
    if x < b[i] {
        assert(s.contains(x));
        if b.contains(x) {
            let j = choose|j: int| 0 <= j < b.len() && b[j] == x;
            if j < i {
                assert(a[j] == x);
                assert(a[j] < a[i]);
            } else if j > i {
                assert(b[i] < b[j]);
            }
        } else {
            assert(b[i] < x);
        }
    }
}

/// Law: the `k` smallest ids of a set are determined by it: the ECS
/// snapshot and the entity listing, asked for the same limit, name the same
/// entities in the same order.
pub proof fn lemma_smallest_ids_unique(a: Seq<u64>, b: Seq<u64>, s: Set<u64>, k: nat)
    requires
        smallest_ids(a, s, k),
        smallest_ids(b, s, k),
    ensures
        a == b,
{
    if k > 0 {
        lemma_smallest_prefix(a, b, s, k, k - 1);
    }
    assert(a =~= b);
}

/// Law: after a shutdown nothing is alive, no packet is left, and the
/// ticks are back to 0.
pub proof fn lemma_shutdown_clears(m: WorldModel)
    ensures
        model_wf(shutdown_model(m)),
        shutdown_model(m).alive.len() == 0,
        component_type_names(shutdown_model(m)).len() == 0,
        shutdown_model(m).tick == 0,
        shutdown_model(m).entities_changed_tick == 0,
        shutdown_model(m).loaded_scene is None,
{
    assert(component_type_names(shutdown_model(m)) =~= Set::empty());
}

/// Law: pruning against the same answer of the Flecs world a second time
/// changes nothing.
pub proof fn lemma_prune_idempotent(m: WorldModel, not_alive: Seq<u64>)
    ensures
        prune_model(prune_model(m, not_alive), not_alive) == prune_model(m, not_alive),
{
    let p = prune_model(m, not_alive);
    let q = prune_model(p, not_alive);
    assert(q.alive =~= p.alive);
    assert(q.components =~= p.components);
}

/// Law: a batch of spawns adds exactly the recorded stable ids to the alive
/// entities.
pub proof fn lemma_spawn_all_alive(m: WorldModel, allocs: Seq<AllocatedEntity>, n: nat)
    requires
        n <= allocs.len(),
    ensures
        spawn_all(m, allocs, n).alive == m.alive.union(allocated_ids(allocs).take(n as int).to_set()),
        spawn_all(m, allocs, n).components == m.components,
    decreases n,
{
    if n > 0 {
        lemma_spawn_all_alive(m, allocs, (n - 1) as nat);
        let ids = allocated_ids(allocs);
        assert(ids.take(n as int) =~= ids.take(n - 1).push(ids[n - 1]));
        ids.take(n - 1).lemma_push_to_set_commute(ids[n - 1]);
        assert(spawn_all(m, allocs, n).alive =~= m.alive.union(ids.take(n as int).to_set()));
    } else {
        assert(allocated_ids(allocs).take(0).to_set() =~= Set::empty());
        assert(m.alive.union(Set::empty()) =~= m.alive);
    }
}

proof fn lemma_upsert_names(p: Seq<(Seq<char>, Json)>, k: Seq<char>, v: Json, x: Seq<char>)
    ensures
        has_member(upsert_member(p, k, v), x) <==> (has_member(p, x) || x == k),
{
    lemma_last_key_index(p, k, p.len());
    let u = upsert_member(p, k, v);
    match last_key_index(p, k, p.len()) {
        Some(i) => {
            if has_member(p, x) {
                let t = choose|t: int| 0 <= t < p.len() && #[trigger] p[t].0 == x;
                assert(u[t].0 == x);
            }
            if x == k {
                assert(u[i].0 == x);
            }
            if has_member(u, x) {
                let t = choose|t: int| 0 <= t < u.len() && #[trigger] u[t].0 == x;
                if t != i {
                    assert(p[t].0 == x);
                }
            }
        },
        None => {
            if has_member(p, x) {
                let t = choose|t: int| 0 <= t < p.len() && #[trigger] p[t].0 == x;
                assert(u[t].0 == x);
            }
            if x == k {
                assert(u[p.len() as int].0 == x);
            }
            if has_member(u, x) {
                let t = choose|t: int| 0 <= t < u.len() && #[trigger] u[t].0 == x;
                if t < p.len() {
                    assert(p[t].0 == x);
                }
            }
        },
    }
}

/// The packet lists of a world built by loading records into an empty one
/// hold exactly the scene entity and source index packets.
proof fn lemma_loaded_packets(
    m: WorldModel,
    allocs: Seq<AllocatedEntity>,
    records: Seq<Json>,
    sp: Option<Seq<char>>,
    n: nat,
)
    requires
        m.components == Map::<u64, Seq<(Seq<char>, Json)>>::empty(),
        m.alive == Set::<u64>::empty(),
        n <= records.len(),
        n <= allocs.len(),
    ensures
        ({
            let w = load_records(m, allocs, records, sp, n);
            &&& forall|id: u64| #[trigger] w.components.contains_key(id) ==> forall|x: Seq<char>|
                has_member(w.components[id], x) <==> (x == scene_entity_type() || x
                    == scene_source_index_type())
            &&& (n > 0 ==> w.components.contains_key(stable_id_of(allocs[n - 1])))
            &&& w.alive == allocated_ids(allocs).take(n as int).to_set()
        }),
    decreases n,
{
    if n == 0 {
        assert(allocated_ids(allocs).take(0).to_set() =~= Set::empty());
    } else {
        lemma_loaded_packets(m, allocs, records, sp, (n - 1) as nat);
        let prev = load_records(m, allocs, records, sp, (n - 1) as nat);
        let a = allocs[n - 1];
        let id = stable_id_of(a);
        let m1 = spawn_model(prev, a);
        let p0 = packets_of(m1, id);
        let p1 = upsert_member(p0, scene_entity_type(), records[n - 1]);
        let w = load_records(m, allocs, records, sp, n);
        assert forall|x: Seq<char>| has_member(w.components[id], x) <==> (x == scene_entity_type()
            || x == scene_source_index_type()) by {
            lemma_upsert_names(p0, scene_entity_type(), records[n - 1], x);
            lemma_upsert_names(
                p1,
                scene_source_index_type(),
                crate::world::source_index_json((n - 1) as nat, sp),
                x,
            );
            if has_member(p0, x) {
                assert(prev.components.contains_key(id));
            }
        }
        let ids = allocated_ids(allocs);
        assert(ids.take(n as int) =~= ids.take(n - 1).push(ids[n - 1]));
        ids.take(n - 1).lemma_push_to_set_commute(ids[n - 1]);
        assert(w.alive =~= ids.take(n as int).to_set());
    }
}

/// Law: a replacing scene load leaves exactly the loaded entities alive,
/// and (where the scene has at least one record) exactly two component
/// types: the scene entity record and its source index.
pub proof fn lemma_replacing_load(
    m: WorldModel,
    scene: Json,
    sp: Option<Seq<char>>,
    allocs: Seq<AllocatedEntity>,
)
    requires
        allocs.len() == scene_entity_records(normalized_scene(scene)).len(),
    ensures
        ({
            let w = load_scene_model(m, scene, sp, true, allocs);
            &&& w.alive == allocated_ids(allocs).to_set()
            &&& allocs.len() > 0 ==> component_type_names(w) == set![
                scene_entity_type(),
                scene_source_index_type(),
            ]
        }),
{
    let records = scene_entity_records(normalized_scene(scene));
    let m0 = shutdown_model(m);
    lemma_loaded_packets(m0, allocs, records, sp, records.len());
    let w = load_scene_model(m, scene, sp, true, allocs);
    assert(allocated_ids(allocs).take(allocs.len() as int) =~= allocated_ids(allocs));
    if allocs.len() > 0 {
        let last = stable_id_of(allocs[allocs.len() - 1]);
        assert forall|x: Seq<char>| component_type_names(w).contains(x) <==> set![
            scene_entity_type(),
            scene_source_index_type(),
        ].contains(x) by {
            if x == scene_entity_type() || x == scene_source_index_type() {
                assert(w.components.contains_key(last));
                assert(crate::world::has_key(w.components[last], x)) by {
                    assert(has_member(w.components[last], x));
                }
            }
            if component_type_names(w).contains(x) {
                let id = choose|id: u64| #[trigger] w.components.contains_key(id) && crate::world::has_key(w.components[id], x);
                assert(has_member(w.components[id], x));
            }
        }
        assert(component_type_names(w) =~= set![scene_entity_type(), scene_source_index_type()]);
    }
}


/// Law: a command envelope never drops an entity; the alive entities after
/// it are those before it and those its spawn commands created.
pub proof fn lemma_commands_alive(
    m: WorldModel,
    cmds: Seq<CommandModel>,
    allocs: Seq<AllocatedEntity>,
    n: nat,
)
    requires
        n <= cmds.len(),
        spawn_count(cmds, n) <= allocs.len(),
    ensures
        run_commands(m, cmds, allocs, n).0.alive == m.alive.union(
            allocated_ids(allocs).take(spawn_count(cmds, n) as int).to_set(),
        ),
    decreases n,
{
    let ids = allocated_ids(allocs);
    if n == 0 {
        assert(ids.take(0).to_set() =~= Set::empty());
        assert(m.alive.union(Set::empty()) =~= m.alive);
    } else {
        lemma_spawn_count_step(cmds, n);
        lemma_commands_alive(m, cmds, allocs, (n - 1) as nat);
        let k = spawn_count(cmds, (n - 1) as nat);
        let prev = run_commands(m, cmds, allocs, (n - 1) as nat);
        let step = apply_command(prev.0, cmds[n - 1], n - 1, allocs[k as int]);
        match cmds[n - 1] {
            CommandModel::SpawnEmpty => {
                assert(ids.take((k + 1) as int) =~= ids.take(k as int).push(ids[k as int]));
                ids.take(k as int).lemma_push_to_set_commute(ids[k as int]);
                assert(step.0.alive =~= m.alive.union(ids.take((k + 1) as int).to_set()));
            },
            CommandModel::SetComponentJson { entity_id, component_type, payload } => {
                assert(step.0.alive == prev.0.alive);
            },
            CommandModel::RemoveComponentJson { entity_id, component_type } => {
                assert(step.0.alive == prev.0.alive);
            },
            _ => {},
        }
    }
}

proof fn lemma_spawn_count_step(cmds: Seq<CommandModel>, n: nat)
    requires
        0 < n <= cmds.len(),
    ensures
        spawn_count(cmds, n) == spawn_count(cmds, (n - 1) as nat) + if cmds[n - 1] is SpawnEmpty {
            1nat
        } else {
            0nat
        },
{
}


/// Law: after a packet is set, the entity's packet of that (trimmed)
/// component type is the payload that was set, and its other packets are
/// unchanged.
pub proof fn lemma_set_then_read(m: WorldModel, id: u64, ct: Seq<char>, payload: Json, other: Seq<char>)
    requires
        set_component_model(m, id, ct, payload) is Ok,
    ensures
        ({
            let m2 = set_component_model(m, id, ct, payload)->Ok_0;
            &&& m2.components.contains_key(id)
            &&& member_get(m2.components[id], trimmed(ct)) == Some(payload)
            &&& other != trimmed(ct) ==> member_get(m2.components[id], other) == member_get(
                packets_of(m, id),
                other,
            )
        }),
{
    lemma_upsert_get(packets_of(m, id), trimmed(ct), payload, trimmed(ct));
    lemma_upsert_get(packets_of(m, id), trimmed(ct), payload, other);
}

/// Law: a command envelope answers with one outcome per command, in order.
pub proof fn lemma_command_results_in_order(
    m: WorldModel,
    cmds: Seq<CommandModel>,
    allocs: Seq<AllocatedEntity>,
    n: nat,
)
    requires
        n <= cmds.len(),
    ensures
        run_commands(m, cmds, allocs, n).1.len() == n,
        forall|i: int| 0 <= i < n ==> (#[trigger] run_commands(m, cmds, allocs, n).1[i]).index == i,
    decreases n,
{
    if n > 0 {
        lemma_command_results_in_order(m, cmds, allocs, (n - 1) as nat);
        let prev = run_commands(m, cmds, allocs, (n - 1) as nat);
        let k = spawn_count(cmds, (n - 1) as nat);
        let step = apply_command(prev.0, cmds[n - 1], n - 1, allocs[k as int]);
        assert(step.1.index == n - 1);
        assert forall|i: int| 0 <= i < n implies (#[trigger] run_commands(m, cmds, allocs, n).1[i]).index == i by {
            if i < n - 1 {
                assert(run_commands(m, cmds, allocs, n).1[i] == prev.1[i]);
            }
        }
    }
}

} // verus!
