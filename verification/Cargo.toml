[package]
name = "smg"
version = "0.1.0"
edition = "2021"
publish = false

[dependencies]
anyhow = "1"
arc-swap = "1"
async-trait = "0.1"
axum = "0.8"
base64 = "0.22"
blake3 = "1"
bytemuck = "1"
bytes = "1"
dashmap = "6"
futures-util = "0.3"
http = "1"
memmap2 = "0.9"
metrics = "0.24"
ndarray = "0.16"
parking_lot = "0.12"
rand = "0.10"
reqwest = { version = "0.12", default-features = false, features = ["stream", "json"] }
rustix = { version = "1", features = ["fs"] }
serde = { version = "1", features = ["derive"] }
serde_json = "1"
serde_yaml = "0.9"
thiserror = "2"
tokio = { version = "1", features = ["full"] }
tonic = "0.14"
tracing = "0.1"
uuid = { version = "1", features = ["v4", "v7"] }
