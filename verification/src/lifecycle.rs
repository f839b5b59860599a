//! Entity lifetimes over any sequence of world operations.
use vstd::prelude::*;
use crate::api::{AllocatedEntity, CommandModel, EntityHandle};
use crate::json::Json;
use crate::laws::lemma_spawn_all_alive;
use crate::world::{
    allocated_ids, apply_command, despawn_all, load_records, load_scene_model, prune_model,
    remove_component_model, run_commands, set_component_model, shutdown_model, spawn_all,
    spawn_count, WorldModel,
};
use crate::scene::{normalized_scene, scene_entity_records};

verus! {

/// An operation that changes the world state, with what it is given: the
/// entities the Flecs world created for it, or its answer on liveness.
pub enum WorldOp {
    Spawn { allocs: Seq<AllocatedEntity> },
    Despawn { handles: Seq<EntityHandle> },
    SetComponent { id: u64, component_type: Seq<char>, payload: Json },
    RemoveComponent { id: u64, component_type: Seq<char> },
    Commands { cmds: Seq<CommandModel>, allocs: Seq<AllocatedEntity> },
    LoadScene {
        scene: Json,
        source_path: Option<Seq<char>>,
        replace: bool,
        allocs: Seq<AllocatedEntity>,
    },
    Shutdown,
    Prune { not_alive: Seq<u64> },
}

/// The world after one operation, as the operation's own contract states
/// it (`spawn_entities`, `despawn_entities`, `set_component_json`,
/// `remove_component_json`, `command`, `load_scene_value`, `shutdown`,
/// `prune_dead_entities`); a refused packet change leaves the world as it
/// was.
pub open spec fn op_model(m: WorldModel, op: WorldOp) -> WorldModel {
    match op {
        WorldOp::Spawn { allocs } => spawn_all(m, allocs, allocs.len()),
        WorldOp::Despawn { handles } => despawn_all(m, handles, handles.len()).0,
        WorldOp::SetComponent { id, component_type, payload } => match set_component_model(
            m,
            id,
            component_type,
            payload,
        ) {
            Ok(m2) => m2,
            Err(_) => m,
        },
        WorldOp::RemoveComponent { id, component_type } => match remove_component_model(
            m,
            id,
            component_type,
        ) {
            Ok(m2) => m2,
            Err(_) => m,
        },
        WorldOp::Commands { cmds, allocs } => run_commands(m, cmds, allocs, cmds.len()).0,
        WorldOp::LoadScene { scene, source_path, replace, allocs } => load_scene_model(
            m,
            scene,
            source_path,
            replace,
            allocs,
        ),
        WorldOp::Shutdown => shutdown_model(m),
        WorldOp::Prune { not_alive } => prune_model(m, not_alive),
    }
}

/// The world after the operations, in order.
pub open spec fn ops_model(m: WorldModel, ops: Seq<WorldOp>) -> WorldModel
    decreases ops.len(),
{
    if ops.len() == 0 {
        m
    } else {
        op_model(ops_model(m, ops.drop_last()), ops.last())
    }
}

/// What `exists_entity` answers for the handle.
pub open spec fn exists_model(m: WorldModel, h: EntityHandle) -> bool {
    h.stable_id != 0 && m.alive.contains(h.stable_id)
}

/// Whether the operation may end the life of entity `id`: a despawn that
/// lists it, a shutdown, a replacing scene load, or a prune after the Flecs
/// world reported it dead.
pub open spec fn ends_life(op: WorldOp, id: u64) -> bool {
    match op {
        WorldOp::Despawn { handles } => exists|i: int|
            0 <= i < handles.len() && #[trigger] handles[i].stable_id == id,
        WorldOp::LoadScene { replace, .. } => replace,
        WorldOp::Shutdown => true,
        WorldOp::Prune { not_alive } => not_alive.contains(id),
        _ => false,
    }
}

proof fn lemma_despawn_keeps(m: WorldModel, hs: Seq<EntityHandle>, n: nat, id: u64)
    requires
        m.alive.contains(id),
        n <= hs.len(),
        forall|i: int| 0 <= i < n ==> (#[trigger] hs[i]).stable_id != id,
    ensures
        despawn_all(m, hs, n).0.alive.contains(id),
    decreases n,
{
    if n > 0 {
        lemma_despawn_keeps(m, hs, (n - 1) as nat, id);
        assert(hs[n - 1].stable_id != id);
    }
}

proof fn lemma_despawn_removes(m: WorldModel, hs: Seq<EntityHandle>, n: nat, i: int)
    requires
        0 <= i < n <= hs.len(),
        hs[i].stable_id != 0,
    ensures
        !despawn_all(m, hs, n).0.alive.contains(hs[i].stable_id),
    decreases n,
{
    let id = hs[i].stable_id;
    if i < n - 1 {
        lemma_despawn_removes(m, hs, (n - 1) as nat, i);
    }
    let prev = despawn_all(m, hs, (n - 1) as nat).0;
    if i == n - 1 {
        assert(!despawn_all(m, hs, n).0.alive.contains(id));
    } else {
        assert(!prev.alive.contains(id));
        assert(!despawn_all(m, hs, n).0.alive.contains(id));
    }
}

proof fn lemma_commands_keep(m: WorldModel, cmds: Seq<CommandModel>, allocs: Seq<AllocatedEntity>, n: nat, id: u64)
    requires
        m.alive.contains(id),
    ensures
        run_commands(m, cmds, allocs, n).0.alive.contains(id),
    decreases n,
{
    if n > 0 && n <= cmds.len() {
        lemma_commands_keep(m, cmds, allocs, (n - 1) as nat, id);
        let prev = run_commands(m, cmds, allocs, (n - 1) as nat);
        let a = allocs[spawn_count(cmds, (n - 1) as nat) as int];
        let step = apply_command(prev.0, cmds[n - 1], n - 1, a);
        match cmds[n - 1] {
            CommandModel::SetComponentJson { entity_id, component_type, payload } => {
                assert(step.0.alive.contains(id));
            },
            CommandModel::RemoveComponentJson { entity_id, component_type } => {
                assert(step.0.alive.contains(id));
            },
            _ => {},
        }
    }
}

proof fn lemma_load_records_keep(
    m: WorldModel,
    allocs: Seq<AllocatedEntity>,
    records: Seq<Json>,
    sp: Option<Seq<char>>,
    n: nat,
    id: u64,
)
    requires
        m.alive.contains(id),
    ensures
        load_records(m, allocs, records, sp, n).alive.contains(id),
    decreases n,
{
    if n > 0 && n <= records.len() && n <= allocs.len() {
        lemma_load_records_keep(m, allocs, records, sp, (n - 1) as nat, id);
    }
}

/// An operation that does not end the life of an alive entity keeps it
/// alive.
proof fn lemma_op_keeps(m: WorldModel, op: WorldOp, id: u64)
    requires
        id != 0,
        m.alive.contains(id),
        !ends_life(op, id),
    ensures
        op_model(m, op).alive.contains(id),
{
    match op {
        WorldOp::Spawn { allocs } => {
            lemma_spawn_all_alive(m, allocs, allocs.len());
        },
        WorldOp::Despawn { handles } => {
            assert forall|i: int| 0 <= i < handles.len() implies (#[trigger] handles[i]).stable_id != id by {
                if handles[i].stable_id == id {
                    assert(ends_life(op, id));
                }
            }
            lemma_despawn_keeps(m, handles, handles.len(), id);
        },
        WorldOp::SetComponent { id: e, component_type, payload } => {},
        WorldOp::RemoveComponent { id: e, component_type } => {},
        WorldOp::Commands { cmds, allocs } => {
            lemma_commands_keep(m, cmds, allocs, cmds.len(), id);
        },
        WorldOp::LoadScene { scene, source_path, replace, allocs } => {
            let records = scene_entity_records(normalized_scene(scene));
            lemma_load_records_keep(m, allocs, records, source_path, records.len(), id);
        },
        WorldOp::Shutdown => {},
        WorldOp::Prune { not_alive } => {},
    }
}

/// Law: an entity that exists keeps existing through any sequence of
/// operations of which none despawns it, shuts the world down, replaces the
/// scene, or prunes it after the Flecs world reported it dead.
pub proof fn lemma_exists_until_ended(m: WorldModel, ops: Seq<WorldOp>, h: EntityHandle)
    requires
        exists_model(m, h),
        forall|i: int| 0 <= i < ops.len() ==> !ends_life(#[trigger] ops[i], h.stable_id),
    ensures
        exists_model(ops_model(m, ops), h),
    decreases ops.len(),
{
    if ops.len() > 0 {
        let init = ops.drop_last();
        assert forall|i: int| 0 <= i < init.len() implies !ends_life(#[trigger] init[i], h.stable_id) by {
            assert(init[i] == ops[i]);
        }
        lemma_exists_until_ended(m, init, h);
        assert(!ends_life(ops[ops.len() - 1], h.stable_id));
        lemma_op_keeps(ops_model(m, init), ops.last(), h.stable_id);
    }
}

/// Law: every entity a spawn request creates exists after it, unless the
/// Flecs world handed out the null id.
pub proof fn lemma_spawned_exists(m: WorldModel, allocs: Seq<AllocatedEntity>, i: int)
    requires
        0 <= i < allocs.len(),
        allocated_ids(allocs)[i] != 0,
    ensures
        exists_model(
            op_model(m, WorldOp::Spawn { allocs }),
            EntityHandle { stable_id: allocated_ids(allocs)[i] },
        ),
{
    lemma_spawn_all_alive(m, allocs, allocs.len());
    assert(allocated_ids(allocs).take(allocs.len() as int) =~= allocated_ids(allocs));
    assert(allocated_ids(allocs).contains(allocated_ids(allocs)[i]));
}

/// Law: after a despawn that lists the handle, a shutdown, or a prune after
/// the Flecs world reported it dead, the handle no longer exists; the null
/// handle exists in no state.
pub proof fn lemma_ended_not_exists(m: WorldModel, op: WorldOp, h: EntityHandle)
    requires
        ends_life(op, h.stable_id),
        !(op is LoadScene),
    ensures
        !exists_model(op_model(m, op), h),
        !exists_model(m, EntityHandle { stable_id: 0 }),
{
    match op {
        WorldOp::Despawn { handles } => {
            if h.stable_id != 0 {
                let i = choose|i: int| 0 <= i < handles.len() && #[trigger] handles[i].stable_id == h.stable_id;
                lemma_despawn_removes(m, handles, handles.len(), i);
            }
        },
        _ => {},
    }
}

} // verus!
