[package]
name = "ironwire"
version = "0.1.0"
edition = "2021"
publish = false

[dependencies]
tokio = { version = "*", features = ["rt-multi-thread", "macros", "net", "sync"] }
dashmap = "*"
axum = { version = "*", features = ["ws"] }
serde = { version = "*", features = ["derive"] }
serde_json = "*"
anyhow = "*"
tracing = "*"
tracing-subscriber = "*"
tower-http = { version = "*", features = ["fs"] }
uuid = { version = "*", features = ["v4"] }
