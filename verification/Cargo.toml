[package]
name = "bigquery_lite_engine"
version = "0.1.0"
edition = "2021"
publish = false

[dependencies]
num_cpus = "*"
rand = "*"
serde = { version = "*", features = ["derive"] }
serde_json = "*"
thiserror = "*"
tracing = "*"
