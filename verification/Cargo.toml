[package]
name = "query_gateway"
version = "0.1.0"
edition = "2021"
publish = false

[dependencies]
uuid = { version = "=1.29.0", features = ["v4"] }
mongodb = "=2.8.2"
azure_data_cosmos = { version = "=1.0.0", features = ["key_auth"] }
chrono = { version = "=0.4.45", features = ["serde"] }
futures = "=0.3.34"
serde = { version = "=1.0.229", features = ["derive"] }
serde_json = "=1.0.154"
tokio = { version = "=1.54.1", features = ["rt", "rt-multi-thread", "macros", "time", "sync", "signal"] }
