[package]
name = "tributary_rs"
version = "0.1.0"
edition = "2021"
publish = false

[dependencies]
duckdb = { version = "=1.10505.0", features = ["loadable-extension"] }
rdkafka = { version = "=0.39.0", default-features = false }
serde_json = "=1.0.154"
