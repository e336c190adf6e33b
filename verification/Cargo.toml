[package]
name = "cyan_backend"
version = "0.1.0"
edition = "2021"
publish = false

[dependencies]
anyhow = "1"
ark-bn254 = { version = "0.5", default-features = false, features = ["scalar_field"] }
ark-ff = { version = "0.5", default-features = false }
base64 = "0.22"
blake3 = "1"
chrono = "0.4"
clap = { version = "4", features = ["derive"] }
colored = "2"
dirs = "5"
hex = "0.4"
once_cell = "1"
rand = "0.8"
rusqlite = { version = "0.37", features = ["bundled"] }
serde = { version = "1", features = ["derive"] }
serde_json = "1"
tokio = { version = "1", features = ["full"] }
tracing = "0.1"
uuid = { version = "1", features = ["v4"] }
