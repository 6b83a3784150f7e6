[package]
name = "mesh-graph"
version = "0.1.0"
edition = "2021"
publish = false

[dependencies]
glam = "=0.33.12"
slotmap = "=1.1.1"
hashbrown = "=0.17.1"
parry3d = "=0.31.1"
itertools = "=0.15.0"
tracing = "=0.1.44"
tracing-subscriber = { version = "=0.3.23", features = ["env-filter"] }
serde = { version = "=1.0.229", features = ["derive"] }
anyhow = "=1.0.104"
lazy_static = "=1.5.1"
