use newengine_ecs_flecs::api::{
    AllocatedEntity, EcsCommand, EcsCommandRequest, EcsSnapshotRequest, EntityDespawnRequest,
    EntityHandle, EntityListRequest,
};
use newengine_ecs_flecs::config::FlecsEcsPluginConfig;
use newengine_ecs_flecs::json::{JsonNumber, JsonValue};
use newengine_ecs_flecs::world::{scene_entity_count, FlecsWorld};

/// Builds a library JSON value from a `serde_json` value.
fn to_json(v: &serde_json::Value) -> JsonValue {
    match v {
        serde_json::Value::Null => JsonValue::Null,
        serde_json::Value::Bool(b) => JsonValue::Bool(*b),
        serde_json::Value::Number(n) => {
            if let Some(u) = n.as_u64() {
                JsonValue::Number(JsonNumber::PosInt(u))
            } else if let Some(i) = n.as_i64() {
                JsonValue::Number(JsonNumber::NegInt(i))
            } else {
                JsonValue::Number(JsonNumber::Float(n.to_string()))
            }
        }
        serde_json::Value::String(s) => JsonValue::Str(s.clone()),
        serde_json::Value::Array(a) => JsonValue::Array(a.iter().map(to_json).collect()),
        serde_json::Value::Object(m) => {
            JsonValue::Object(m.iter().map(|(k, v)| (k.clone(), to_json(v))).collect())
        }
    }
}

fn parse(text: &str) -> JsonValue {
    to_json(&serde_json::from_str::<serde_json::Value>(text).unwrap())
}

/// Hands out new entities as a Flecs world would: increasing ids.
struct Allocator {
    next: u64,
}

impl Allocator {
    fn new() -> Self {
        Allocator { next: 1000 }
    }

    fn take(&mut self, n: usize) -> Vec<AllocatedEntity> {
        (0..n)
            .map(|_| {
                self.next += 1;
                AllocatedEntity { entity: self.next, alive_id: self.next }
            })
            .collect()
    }
}

fn test_world() -> FlecsWorld {
    FlecsWorld::new(&FlecsEcsPluginConfig::default())
}

#[test]
fn ecs_spawn_is_visible_through_entity_gateway() {
    let mut world = test_world();
    let mut alloc = Allocator::new();
    let req = EcsCommandRequest { commands: vec![EcsCommand::SpawnEmpty, EcsCommand::AdvanceTick] };
    let n = newengine_ecs_flecs::world::command_spawn_count(&req);
    let allocated = alloc.take(n);
    let response = world.command(req, &allocated).response;
    assert!(response.ok);
    assert_eq!(response.summary.entity_count, 1);
    assert_eq!(response.summary.tick, 1);

    let list = world.list_entities(EntityListRequest::default().limit);
    assert_eq!(list.total_count, 1);
    assert_eq!(list.entities.len(), 1);
}

#[test]
fn scene_load_creates_authoritative_flecs_entities() {
    let mut world = test_world();
    let mut alloc = Allocator::new();
    let scene_value = parse(
        r#"{
            "schema": "test.scene",
            "version": 1,
            "entities": [
                { "name": "A", "transform": { "position": [0, 0, 0] } },
                { "name": "B", "transform": { "position": [1, 0, 0] } }
            ]
        }"#,
    );
    let n = scene_entity_count(&scene_value);
    let allocated = alloc.take(n);
    let load = world.load_scene_value(scene_value, None, true, &allocated).result;
    assert_eq!(load.entities.len(), 2);

    let summary = world.summary();
    assert_eq!(summary.entity_count, 2);
    assert!(summary.storage_count >= 1);
}

#[test]
fn entity_spawn_and_despawn_are_visible_through_ecs_snapshot() {
    let mut world = test_world();
    let mut alloc = Allocator::new();
    let count = 2;
    let allocated = alloc.take(newengine_ecs_flecs::world::spawn_batch_len(count));
    let spawn = world.spawn_entities(count, &allocated);
    assert_eq!(spawn.entities.len(), 2);
    assert_eq!(spawn.total_count, 2);

    let snapshot = world.snapshot(&EcsSnapshotRequest::default());
    assert_eq!(snapshot.summary.entity_count, 2);
    assert_eq!(snapshot.entities.len(), 2);

    let despawn_req = EntityDespawnRequest { entities: vec![spawn.entities[0].handle] };
    let despawn = world.despawn_entities(despawn_req);
    assert!(despawn.response.ok);
    assert_eq!(despawn.response.total_count, 1);

    let summary = world.summary();
    assert_eq!(summary.entity_count, 1);
}

#[test]
fn spawn_records_alive_id_or_raw_entity() {
    let mut world = test_world();
    let a = world.spawn_empty(AllocatedEntity { entity: 7, alive_id: 0 });
    let b = world.spawn_empty(AllocatedEntity { entity: 8, alive_id: 4294967304 });
    assert_eq!(a, 7);
    assert_eq!(b, 4294967304);
    assert!(world.exists_entity(EntityHandle::new(7)));
    assert!(world.exists_entity(EntityHandle::new(4294967304)));
    assert!(!world.exists_entity(EntityHandle::new(8)));
    assert!(!world.exists_entity(EntityHandle::new(0)));
}

#[test]
fn despawn_right_after_spawn_restores_the_world() {
    let mut world = test_world();
    let mut alloc = Allocator::new();
    let before = world.summary();
    let id = world.spawn_empty(alloc.take(1)[0]);
    let out = world.despawn_entities(EntityDespawnRequest { entities: vec![EntityHandle::new(id)] });
    assert!(out.response.ok);
    assert_eq!(out.deleted, vec![id]);
    let after = world.summary();
    assert_eq!(after.entity_count, before.entity_count);
    assert_eq!(after.storage_count, before.storage_count);
}

#[test]
fn despawn_of_unknown_entity_fails_that_entry_only() {
    let mut world = test_world();
    let mut alloc = Allocator::new();
    let id = world.spawn_empty(alloc.take(1)[0]);
    let out = world.despawn_entities(EntityDespawnRequest {
        entities: vec![EntityHandle::new(5), EntityHandle::new(id), EntityHandle::new(id)],
    });
    assert!(!out.response.ok);
    assert_eq!(out.response.results.len(), 3);
    assert!(!out.response.results[0].ok);
    assert_eq!(out.response.results[0].message, "entity does not exist in shared Flecs world");
    assert!(out.response.results[1].ok);
    assert_eq!(out.response.results[1].message, "entity despawned from shared Flecs world");
    assert!(!out.response.results[2].ok);
    assert_eq!(out.deleted, vec![id]);
    assert_eq!(out.response.total_count, 0);
}

#[test]
fn component_packets_set_and_remove_through_commands() {
    let mut world = test_world();
    let mut alloc = Allocator::new();
    let id = world.spawn_empty(alloc.take(1)[0]);
    let req = EcsCommandRequest {
        commands: vec![
            EcsCommand::SetComponentJson {
                entity_id: id,
                component_type: "  transform ".to_string(),
                payload: parse(r#"{"x": 1}"#),
            },
            EcsCommand::SetComponentJson {
                entity_id: 424242,
                component_type: "transform".to_string(),
                payload: JsonValue::Null,
            },
            EcsCommand::SetComponentJson {
                entity_id: id,
                component_type: " \t ".to_string(),
                payload: JsonValue::Null,
            },
            EcsCommand::SetComponentJson {
                entity_id: id,
                component_type: "health".to_string(),
                payload: JsonValue::Number(JsonNumber::PosInt(3)),
            },
            EcsCommand::RemoveComponentJson { entity_id: id, component_type: "health".to_string() },
        ],
    };
    let out = world.command(req, &Vec::new());
    let r = &out.response.results;
    assert_eq!(r.len(), 5);
    assert!(r[0].ok);
    assert_eq!(r[0].message, "semantic component packet '  transform ' set");
    assert_eq!(r[0].entity_id, Some(id));
    assert!(!r[1].ok);
    assert_eq!(r[1].message, "entity 424242 is not alive in shared Flecs world");
    assert!(!r[2].ok);
    assert_eq!(r[2].message, "component_type must not be empty");
    assert!(r[3].ok);
    assert!(r[4].ok);
    assert_eq!(r[4].message, "semantic component packet 'health' removed");
    for (i, res) in r.iter().enumerate() {
        assert_eq!(res.index, i);
    }
    assert_eq!(out.response.summary.storage_count, 1);
}

#[test]
fn tick_commands_set_and_saturate() {
    let mut world = test_world();
    let req = EcsCommandRequest {
        commands: vec![
            EcsCommand::SetTick { tick: u64::MAX - 1 },
            EcsCommand::AdvanceTick,
            EcsCommand::AdvanceTick,
        ],
    };
    let out = world.command(req, &Vec::new());
    let r = &out.response.results;
    assert_eq!(r[0].tick, u64::MAX - 1);
    assert_eq!(r[0].message, "tick set by Flecs authority");
    assert_eq!(r[1].tick, u64::MAX);
    assert_eq!(r[2].tick, u64::MAX);
    assert_eq!(r[2].message, "tick advanced by Flecs authority");
    assert_eq!(out.response.summary.tick, u64::MAX);
    assert_eq!(out.progress_steps, 0);
}

#[test]
fn advance_progresses_the_world_when_configured() {
    let mut config = FlecsEcsPluginConfig::default();
    config.progress_on_advance_tick = true;
    let mut world = FlecsWorld::new(&config);
    let req = EcsCommandRequest {
        commands: vec![EcsCommand::AdvanceTick, EcsCommand::SetTick { tick: 9 }, EcsCommand::AdvanceTick],
    };
    let out = world.command(req, &Vec::new());
    assert_eq!(out.progress_steps, 2);
    assert_eq!(out.response.summary.tick, 10);
}

#[test]
fn snapshot_and_listing_truncate_at_the_limit() {
    let mut world = test_world();
    for id in [30u64, 10, 20] {
        world.spawn_empty(AllocatedEntity { entity: id, alive_id: id });
    }
    let snap = world.snapshot(&EcsSnapshotRequest { include_entities: true, entity_limit: 2 });
    let ids: Vec<u64> = snap.entities.iter().map(|h| h.stable_id).collect();
    assert_eq!(ids, vec![10, 20]);
    assert!(snap.truncated);
    let list = world.list_entities(2);
    let listed: Vec<u64> = list.entities.iter().map(|r| r.handle.stable_id).collect();
    assert_eq!(listed, ids);
    assert!(list.truncated);
    assert_eq!(list.total_count, 3);
    assert!(list.entities.iter().all(|r| r.alive));

    let full = world.list_entities(3);
    assert!(!full.truncated);
    assert_eq!(full.entities.len(), 3);

    let none = world.snapshot(&EcsSnapshotRequest { include_entities: false, entity_limit: 2 });
    assert!(none.entities.is_empty());
    assert!(!none.truncated);
}

#[test]
fn spawn_request_is_capped() {
    assert_eq!(newengine_ecs_flecs::world::spawn_batch_len(3), 3);
    assert_eq!(newengine_ecs_flecs::world::spawn_batch_len(1_000_000), 65_536);
}

#[test]
fn prune_drops_dead_and_null_entities_with_their_packets() {
    let mut world = test_world();
    for id in [0u64, 5, 6] {
        world.spawn_empty(AllocatedEntity { entity: id, alive_id: id });
    }
    world.set_component_json(6, "tag".to_string(), JsonValue::Bool(true)).unwrap();
    assert_eq!(world.entity_ids(), vec![0, 5, 6]);
    world.prune_dead_entities(&vec![6]);
    assert_eq!(world.entity_ids(), vec![5]);
    assert_eq!(world.summary().storage_count, 0);
    world.prune_dead_entities(&vec![6]);
    assert_eq!(world.entity_ids(), vec![5]);
}

#[test]
fn shutdown_forgets_everything() {
    let mut world = test_world();
    let mut alloc = Allocator::new();
    let allocated = alloc.take(2);
    world.spawn_entities(2, &allocated);
    let deleted = world.shutdown();
    assert_eq!(deleted, vec![1001, 1002]);
    let s = world.summary();
    assert_eq!(s.entity_count, 0);
    assert_eq!(s.storage_count, 0);
    assert_eq!(s.tick, 0);
    assert_eq!(s.resource_count, 0);
}

#[test]
fn scene_sections_and_prefabs_become_entities() {
    let mut world = test_world();
    let mut alloc = Allocator::new();
    let scene = parse(
        r#"{"scene": {"title": "Demo", "player": {"hp": 3}, "sky": "blue",
            "prefabs": [{"p": 1}, {"p": 2}]}}"#,
    );
    let n = scene_entity_count(&scene);
    assert_eq!(n, 4);
    let out = world.load_scene_value(scene, Some("scenes/demo.json".to_string()), true, &alloc.take(n));
    assert!(out.result.ok);
    assert_eq!(out.result.title.as_deref(), Some("Demo"));
    assert_eq!(out.result.schema, None);
    assert_eq!(out.result.version, None);
    assert_eq!(out.result.entities.len(), 4);
    assert!(out.deleted.is_empty());
    let s = world.summary();
    assert_eq!(s.entity_count, 4);
    assert_eq!(s.storage_count, 2);
    assert_eq!(s.resource_count, 1);
}

#[test]
fn replacing_load_deletes_previous_entities() {
    let mut world = test_world();
    let mut alloc = Allocator::new();
    world.spawn_entities(3, &alloc.take(3));
    let scene = parse(r#"{"entities": [{"name": "only"}]}"#);
    let out = world.load_scene_value(scene, None, true, &alloc.take(1));
    assert_eq!(out.deleted, vec![1001, 1002, 1003]);
    assert_eq!(out.result.total_count, 1);
    assert_eq!(world.entity_ids(), vec![1004]);
}

#[test]
fn save_scene_reports_loaded_scene_and_alive_entities() {
    let mut world = test_world();
    let mut alloc = Allocator::new();
    let scene = parse(r#"{"payload": {"schema": "s.v2", "version": 7, "entities": [{"name": "A"}]}}"#);
    world.load_scene_value(scene, None, true, &alloc.take(1));
    let saved = world.save_scene_value();
    let JsonValue::Object(members) = &saved else { panic!("not an object") };
    let keys: Vec<&str> = members.iter().map(|(k, _)| k.as_str()).collect();
    assert_eq!(
        keys,
        vec![
            "authority",
            "entities",
            "loaded_entity_count",
            "loaded_entity_handles",
            "schema",
            "source_path",
            "title",
            "version"
        ]
    );
    assert!(matches!(saved.get("schema"), Some(JsonValue::Str(s)) if s == "s.v2"));
    assert_eq!(saved.get("version").and_then(|v| v.as_u64()), Some(7));
    assert_eq!(saved.get("loaded_entity_count").and_then(|v| v.as_u64()), Some(1));
    assert!(matches!(saved.get("title"), Some(JsonValue::Null)));
    let entities = saved.get("entities").and_then(|v| v.as_array()).unwrap();
    assert_eq!(entities.len(), 1);
    let handle = entities[0].get("handle").unwrap();
    assert_eq!(handle.get("stable_id").and_then(|v| v.as_u64()), Some(1001));
    let components = entities[0].get("components").unwrap();
    let source = components.get("newengine.scene.source_index").unwrap();
    assert_eq!(source.get("index").and_then(|v| v.as_u64()), Some(0));
    assert!(matches!(source.get("source_path"), Some(JsonValue::Null)));
}

#[test]
fn save_without_scene_uses_defaults() {
    let world = test_world();
    let saved = world.save_scene_value();
    assert!(matches!(saved.get("schema"), Some(JsonValue::Str(s)) if s == "newengine.scene.provider_snapshot.v1"));
    assert_eq!(saved.get("version").and_then(|v| v.as_u64()), Some(1));
    assert_eq!(saved.get("loaded_entity_count").and_then(|v| v.as_u64()), Some(0));
    assert_eq!(saved.get("entities").and_then(|v| v.as_array()).map(|a| a.len()), Some(0));
}

#[test]
fn load_then_save_gives_back_the_scene() {
    let mut world = test_world();
    let mut alloc = Allocator::new();
    world.spawn_entities(1, &alloc.take(1));
    let scene = parse(
        r#"{"schema": "round.trip", "entities": [{"name": "A"}, {"name": "B", "tag": 3}]}"#,
    );
    let allocated = alloc.take(scene_entity_count(&scene));
    let loaded = world.load_scene_value(scene, Some("levels/a.json".to_string()), true, &allocated).result;
    let saved = world.save_scene_value();
    assert!(matches!(saved.get("schema"), Some(JsonValue::Str(s)) if s == "round.trip"));
    assert!(matches!(saved.get("source_path"), Some(JsonValue::Str(s)) if s == "levels/a.json"));
    assert_eq!(saved.get("loaded_entity_count").and_then(|v| v.as_u64()), Some(2));
    let handles = saved.get("loaded_entity_handles").and_then(|v| v.as_array()).unwrap();
    let ids: Vec<u64> = handles.iter().map(|h| h.get("stable_id").and_then(|v| v.as_u64()).unwrap()).collect();
    let loaded_ids: Vec<u64> = loaded.entities.iter().map(|h| h.stable_id).collect();
    assert_eq!(ids, loaded_ids);
    let entities = saved.get("entities").and_then(|v| v.as_array()).unwrap();
    assert_eq!(entities.len(), 2);
    let names = ["A", "B"];
    for (i, id) in loaded_ids.iter().enumerate() {
        let entry = entities
            .iter()
            .find(|e| e.get("handle").and_then(|h| h.get("stable_id")).and_then(|v| v.as_u64()) == Some(*id))
            .unwrap();
        let record = entry.get("components").and_then(|c| c.get("newengine.scene.entity")).unwrap();
        assert!(matches!(record.get("name"), Some(JsonValue::Str(s)) if s == names[i]));
    }
}

#[test]
fn entity_exists_until_despawned_or_shut_down() {
    let mut world = test_world();
    let mut alloc = Allocator::new();
    let spawn = world.spawn_entities(1, &alloc.take(1));
    let h = spawn.entities[0].handle;
    assert!(world.exists_entity(h));
    world.set_component_json(h.stable_id, "health".to_string(), parse("{\"hp\": 3}")).unwrap();
    let req = EcsCommandRequest { commands: vec![EcsCommand::SpawnEmpty, EcsCommand::AdvanceTick] };
    let allocated = alloc.take(newengine_ecs_flecs::world::command_spawn_count(&req));
    world.command(req, &allocated);
    world.prune_dead_entities(&vec![999_999]);
    let other = world.spawn_entities(1, &alloc.take(1)).entities[0].handle;
    world.despawn_entities(EntityDespawnRequest { entities: vec![other] });
    let scene = parse(r#"{"entities": [{"name": "A"}]}"#);
    let scene_allocs = alloc.take(scene_entity_count(&scene));
    world.load_scene_value(scene, None, false, &scene_allocs);
    assert!(world.exists_entity(h));
    assert!(!world.exists_entity(EntityHandle::new(0)));
    world.despawn_entities(EntityDespawnRequest { entities: vec![h] });
    assert!(!world.exists_entity(h));
    let again = world.spawn_entities(1, &alloc.take(1)).entities[0].handle;
    assert!(world.exists_entity(again));
    world.shutdown();
    assert!(!world.exists_entity(again));
    assert!(!world.exists_entity(EntityHandle::new(0)));
}
