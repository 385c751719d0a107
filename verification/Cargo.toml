[package]
name = "catalog_gate"
version = "0.1.0"
edition = "2021"
publish = false

[dependencies]
polars = { version = "=0.55.2", default-features = false, features = ["parquet"] }
bytes = "=1.12.1"
dotenv = "=0.15.0"
env_logger = { version = "=0.11.11", default-features = false }
futures = "=0.3.34"
log = "=0.4.34"
reqwest = { version = "=0.12.28", default-features = false, features = ["json", "rustls-tls"] }
serde = { version = "=1.0.229", features = ["derive"] }
serde_json = "=1.0.154"
sqlx = { version = "=0.8.6", default-features = false, features = ["sqlite", "runtime-tokio", "migrate"] }
tokio = { version = "=1.54.1", features = ["rt-multi-thread", "macros"] }
