[package]
name = "newengine-ecs-flecs"
version = "0.1.0"
edition = "2021"
publish = false

[dependencies]
abi_stable = "0.11"
log = "0.4"
serde = { version = "1", features = ["derive"] }
serde_json = "1"
