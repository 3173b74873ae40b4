[package]
name = "renderide"
version = "0.1.0"
edition = "2021"
publish = false

[dependencies]
hashbrown = "=0.17.1"
serde = { version = "=1.0.229", features = ["derive"] }
thiserror = "=2.0.21"
naga = { version = "=30.0.1", features = ["wgsl-in", "wgsl-out"] }
glam = "=0.34.2"
