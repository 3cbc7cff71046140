[package]
name = "quant_engine"
version = "0.1.0"
edition = "2021"
publish = false

[dependencies]
anyhow = "1"
async-nats = "*"
chrono = { version = "0.4", features = ["serde"] }
futures = "0.3"
nalgebra = "*"
serde = { version = "1", features = ["derive"] }
serde_json = "1"
statrs = "*"
tokio = { version = "1", features = ["macros", "rt-multi-thread"] }
tracing = "0.1"
tracing-subscriber = { version = "0.3", features = ["env-filter"] }
uuid = { version = "1", features = ["v4", "serde"] }
