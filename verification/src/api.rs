//! Requests and responses of the ECS and entity services, as plain data.
use vstd::prelude::*;
use crate::json::{Json, JsonValue};

verus! {

/// An opaque, stable entity id as the services hand it out.
#[derive(Clone, Copy, Debug, PartialEq, Eq, Structural)]
pub struct EntityHandle {
    pub stable_id: u64,
}

impl EntityHandle {
    pub fn new(stable_id: u64) -> (h: EntityHandle)
        ensures
            h.stable_id == stable_id,
    {
        EntityHandle { stable_id }
    }
}

/// One entity in a listing or spawn response.
#[derive(Clone, Copy, Debug, PartialEq, Eq, Structural)]
pub struct EntityRecord {
    pub handle: EntityHandle,
    pub alive: bool,
}

impl EntityRecord {
    /// The record of an entity that is alive.
    pub fn alive(handle: EntityHandle) -> (r: EntityRecord)
        ensures
            r.handle == handle,
            r.alive,
    {
        EntityRecord { handle, alive: true }
    }
}

/// What the Flecs world answered when asked for one new entity: the entity
/// `ecs_new` created and what `ecs_get_alive` gave for it.
#[derive(Clone, Copy, Debug, PartialEq, Eq, Structural)]
pub struct AllocatedEntity {
    pub entity: u64,
    pub alive_id: u64,
}

/// The stable id recorded for a new entity: the alive id, or the raw entity
/// where the world gave no alive id.
pub open spec fn stable_id_of(a: AllocatedEntity) -> u64 {
    if a.alive_id == 0 {
        a.entity
    } else {
        a.alive_id
    }
}

/// Counts of the shared world.
#[derive(Clone, Copy, Debug, PartialEq, Eq, Structural)]
pub struct EcsWorldSummary {
    pub tick: u64,
    pub entity_count: u64,
    pub storage_count: u64,
    pub resource_count: u64,
    pub entities_changed_tick: u64,
}

/// A request for a snapshot of the world.
#[derive(Clone, Copy, Debug, PartialEq, Eq, Structural)]
pub struct EcsSnapshotRequest {
    pub include_entities: bool,
    pub entity_limit: usize,
}

/// The entity limit of a request that names none.
pub const DEFAULT_ENTITY_LIMIT: usize = 1024;

impl Default for EcsSnapshotRequest {
    fn default() -> (r: Self)
        ensures
            r.include_entities,
            r.entity_limit == DEFAULT_ENTITY_LIMIT,
    {
        EcsSnapshotRequest { include_entities: true, entity_limit: DEFAULT_ENTITY_LIMIT }
    }
}

/// A request for a listing of the alive entities.
#[derive(Clone, Copy, Debug, PartialEq, Eq, Structural)]
pub struct EntityListRequest {
    pub limit: usize,
}

impl Default for EntityListRequest {
    fn default() -> (r: Self)
        ensures
            r.limit == DEFAULT_ENTITY_LIMIT,
    {
        EntityListRequest { limit: DEFAULT_ENTITY_LIMIT }
    }
}

/// A snapshot of the world: its summary and up to `entity_limit` entities.
pub struct EcsWorldSnapshot {
    pub summary: EcsWorldSummary,
    pub entities: Vec<EntityHandle>,
    pub truncated: bool,
}

/// One command of a command envelope.
pub enum EcsCommand {
    SetTick { tick: u64 },
    AdvanceTick,
    SpawnEmpty,
    SetComponentJson { entity_id: u64, component_type: String, payload: JsonValue },
    RemoveComponentJson { entity_id: u64, component_type: String },
}

/// The model of a command.
pub enum CommandModel {
    SetTick { tick: u64 },
    AdvanceTick,
    SpawnEmpty,
    SetComponentJson { entity_id: u64, component_type: Seq<char>, payload: Json },
    RemoveComponentJson { entity_id: u64, component_type: Seq<char> },
}

impl EcsCommand {
    pub open spec fn model(&self) -> CommandModel {
        match self {
            EcsCommand::SetTick { tick } => CommandModel::SetTick { tick: *tick },
            EcsCommand::AdvanceTick => CommandModel::AdvanceTick,
            EcsCommand::SpawnEmpty => CommandModel::SpawnEmpty,
            EcsCommand::SetComponentJson { entity_id, component_type, payload } =>
                CommandModel::SetComponentJson {
                    entity_id: *entity_id,
                    component_type: component_type@,
                    payload: payload.model(),
                },
            EcsCommand::RemoveComponentJson { entity_id, component_type } =>
                CommandModel::RemoveComponentJson {
                    entity_id: *entity_id,
                    component_type: component_type@,
                },
        }
    }
}

/// A command envelope.
pub struct EcsCommandRequest {
    pub commands: Vec<EcsCommand>,
}

/// The outcome of one command.
pub struct EcsCommandResult {
    pub index: usize,
    pub ok: bool,
    pub entity_id: Option<u64>,
    pub tick: u64,
    pub message: String,
}

/// The model of a command's outcome.
pub struct CommandResultModel {
    pub index: int,
    pub ok: bool,
    pub entity_id: Option<u64>,
    pub tick: u64,
    pub message: Seq<char>,
}

impl EcsCommandResult {
    pub open spec fn model(&self) -> CommandResultModel {
        CommandResultModel {
            index: self.index as int,
            ok: self.ok,
            entity_id: self.entity_id,
            tick: self.tick,
            message: self.message@,
        }
    }
}

/// The answer to a command envelope.
pub struct EcsCommandResponse {
    pub ok: bool,
    pub summary: EcsWorldSummary,
    pub results: Vec<EcsCommandResult>,
}

/// A listing of the alive entities.
pub struct EntityListResponse {
    pub entities: Vec<EntityRecord>,
    pub truncated: bool,
    pub total_count: u64,
}

/// The answer to a spawn request.
pub struct EntitySpawnResponse {
    pub entities: Vec<EntityRecord>,
    pub tick: u64,
    pub total_count: u64,
}

/// A despawn request.
pub struct EntityDespawnRequest {
    pub entities: Vec<EntityHandle>,
}

/// The outcome of despawning one entity.
pub struct EntityDespawnResult {
    pub entity: EntityHandle,
    pub ok: bool,
    pub message: String,
}

/// The answer to a despawn request.
pub struct EntityDespawnResponse {
    pub ok: bool,
    pub results: Vec<EntityDespawnResult>,
    pub tick: u64,
    pub total_count: u64,
}

} // verus!
