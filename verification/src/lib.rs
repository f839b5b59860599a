//! Bookkeeping core of the Flecs-backed ECS / entity / scene authority plugin.
//!
//! The library holds the entity, component-packet and scene state that the
//! plugin keeps beside its Flecs world, the JSON document model that the
//! plugin's configuration and scene packets travel in, and the routing and
//! response building of its three services. The Flecs world itself (entity
//! allocation, liveness, deletion) is driven by the caller, which hands the
//! library what the world answered and performs what the library asks of it.

pub mod json;
pub mod merge_laws;
pub mod text;
pub mod config;
pub mod api;
pub mod scene;
pub mod service;
pub mod world;
pub mod laws;
pub mod lifecycle;
pub mod roundtrip;
pub mod codec;
pub mod operation_laws;
