[package]
name = "node_events"
version = "0.1.0"
edition = "2021"
publish = false

[dependencies]
bitcoin = "*"
chrono = "0.4"
hex = "0.4"
reqwest = { version = "0.12", default-features = false, features = ["json"] }
serde = { version = "1", features = ["derive"] }
serde_json = "1"
tokio = { version = "1", features = ["macros", "rt-multi-thread", "sync", "time"] }
tokio-stream = "0.1"
tracing = "0.1"
uuid = { version = "1", features = ["v7"] }
