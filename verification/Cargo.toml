[package]
name = "graph_ingest"
version = "0.1.0"
edition = "2021"
publish = false

[dependencies]
serde_json = "1"
serde = { version = "1", features = ["derive"] }
neo4rs = "0.7"
tokio = { version = "1", features = ["macros", "rt-multi-thread", "process"] }
thiserror = "1"
log = "0.4"
env_logger = "0.11"
