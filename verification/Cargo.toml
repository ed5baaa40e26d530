[package]
name = "blueprint_sim"
version = "0.1.0"
edition = "2021"
publish = false

[dependencies]
bevy = { version = "=0.12.1", default-features = false }
bevy_replicon = "0.18"
camino = "=1.2.6"
clap = { version = "=4.6.7", features = ["derive"] }
convert_case = "=0.12.0"
rand = "=0.8.8"
semver = "=1.0.28"
serde = { version = "=1.0.229", features = ["derive"] }
toml = "=1.1.8"
toml_edit = "=0.25.17"
tracing = "=0.1.44"
