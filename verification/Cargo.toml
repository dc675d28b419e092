[package]
name = "drill"
version = "0.1.0"
edition = "2021"
publish = false

[dependencies]
bevy_ecs = { version = "0.19", default-features = false, features = ["std"] }
bevy_prng = { version = "=0.15.2", features = ["wyrand"] }
rand = "=0.10.3"
serde = { version = "=1.0.229", features = ["derive"] }
