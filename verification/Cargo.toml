[package]
name = "grafana_materialize_datasource"
version = "0.1.0"
edition = "2021"
publish = false

[dependencies]
md5 = "=0.7.0"
chrono = "=0.4.45"
rust_decimal = { version = "=1.43.0", features = ["db-tokio-postgres"] }
tokio-postgres = { version = "=0.7.18", features = ["with-serde_json-1", "with-chrono-0_4"] }
serde = { version = "1", features = ["derive"] }
serde_json = "1"
serde_with = "=3.24.0"
thiserror = "1"
tokio = { version = "1", features = ["rt-multi-thread", "sync", "macros", "net", "signal"] }
futures-util = "0.3"
grafana-plugin-sdk = "=0.5.0"
http = "*"
bytes = "1"
tracing = "0.1"
