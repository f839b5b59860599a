# newengine-ecs-flecs

The FlecsECS authority plugin for NewEngine: one Flecs world shared by the
`ecs.api`, `entity.api` and `scene.api` services.

- `src/` is the verified library. It keeps the state beside the Flecs world
  (alive entity ids, semantic component packets, the loaded scene, the tick),
  the JSON document model the settings and scene packets travel in, the
  settings and their patching, scene reading and saving, and the services'
  routing and documents. `codec.rs` reads and writes JSON text and bytes
  through serde_json; its results are named, not restated. Every public function has a contract over
  mathematical models; `merge_laws.rs`, `laws.rs`, `lifecycle.rs` (entity
  lifetimes over any sequence of operations) and `roundtrip.rs` (saving a
  freshly loaded scene) hold the laws that span operations.
- `app/` is the plugin itself: the Flecs C interface, the NewEngine plugin
  and service traits, and the JSON wire encoding. Before each request it
  tells the library which entities the Flecs world no longer knows, creates
  the entities the library needs, and deletes and progresses what the
  library asks for.
- `tests/` exercises the library on concrete values.
