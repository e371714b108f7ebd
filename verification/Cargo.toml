[package]
name = "registry_cache"
version = "0.1.0"
edition = "2021"
publish = false

[dependencies]
actix-web = { version = "*", default-features = false, features = ["macros"] }
async-stream = "*"
camino = "*"
clap = { version = "*", features = ["derive", "env"] }
compact_str = "*"
dkregistry = "*"
futures = "*"
humantime = "*"
serde = { version = "*", features = ["derive"] }
serde_with = "*"
serde_yaml = "*"
socket-address = "*"
tokio = { version = "*", features = ["fs", "io-util", "macros", "rt-multi-thread", "sync", "time"] }
tracing = "*"
tracing-subscriber = { version = "*", features = ["env-filter"] }
