[package]
name = "zkdb_plonky2"
version = "0.1.0"
edition = "2021"
publish = false

[dependencies]
plonky2 = "0.2.2"
blake3 = "1"
hex = "0.4"
uuid = { version = "1", features = ["v4", "serde"] }
serde = { version = "1", features = ["derive"] }
serde_json = "1"
async-trait = "0.1"
tokio = { version = "1", features = ["full"] }
axum = "0.7"
tower-http = { version = "0.5", features = ["cors", "trace"] }
