[package]
name = "crucible"
version = "0.2.2"
edition = "2021"
publish = false
rust-version = "1.95"

[dependencies]
rand = "=0.8.8"
anyhow = "=1.0.104"
async-trait = "=0.1.92"
bincode = "=1.3.3"
converge-pack = "=3.8.1"
linfa = "=0.8.1"
linfa-trees = { version = "=0.8.1", features = ["serde"] }
ndarray = "=0.16.1"
polars = { version = "=0.51.0", features = ["lazy", "parquet", "csv"] }
reqwest = { version = "=0.12.28", default-features = false, features = ["blocking", "rustls-tls"] }
serde = { version = "=1.0.229", features = ["derive"] }
serde_json = "=1.0.154"
tracing = "=0.1.44"
