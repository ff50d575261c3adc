[package]
name = "bytecode_verifier"
version = "0.1.0"
edition = "2021"
publish = false

[dependencies]
anyhow = "=1.0.104"
async-trait = "=0.1.92"
blockscout-display-bytes = "=1.1.0"
fang = { version = "=0.10.4", default-features = false, features = ["asynk"] }
sea-orm = { version = "=0.12.15", default-features = false }
serde = { version = "=1.0.229", features = ["derive"] }
serde_json = { version = "=1.0.154", features = ["preserve_order"] }
tokio = { version = "=1.54.1", features = ["sync", "time", "rt", "macros", "process", "io-util"] }
tonic = { version = "=0.8.3", default-features = false }
tracing = "=0.1.44"
uuid = { version = "=1.29.0", features = ["v4"] }
