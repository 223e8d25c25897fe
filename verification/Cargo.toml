[package]
name = "db_native"
version = "0.1.0"
edition = "2021"
publish = false

[dependencies]
arrow = { version = "=59.3.2", default-features = false }
chrono = "=0.4.45"
clickhouse = "=0.15.3"
csv = "=1.4.0"
duckdb = { version = "=1.4.5", default-features = false }
futures-util = "=0.3.34"
napi = { version = "=3.16.1", features = ["async", "serde-json", "web_stream", "napi5"] }
napi-derive = "=3.7.0"
orc-rust = { version = "=0.9.0", default-features = false }
parquet = { version = "=59.3.2", default-features = false, features = ["arrow"] }
rust_xlsxwriter = { version = "=0.102.0", features = ["constant_memory"] }
serde = { version = "=1.0.229", features = ["derive"] }
serde_json = "=1.0.154"
sqlx = { version = "=0.8.6", default-features = false, features = ["mysql", "runtime-tokio", "chrono", "uuid", "bigdecimal", "rust_decimal", "json"] }
tokio = { version = "=1.54.1", features = ["sync", "rt", "io-util"] }
tokio-stream = "=0.1.19"
uuid = { version = "=1.29.0", features = ["v4"] }
