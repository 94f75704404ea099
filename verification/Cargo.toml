[package]
name = "mcpg-plugin-backend-soap"
version = "0.1.0"
edition = "2021"
publish = false

[dependencies]
quick-xml = "0.38"
serde_json = "1"
serde = { version = "1", features = ["derive"] }
async-trait = "0.1"
chrono = "0.4"
reqwest = { version = "0.12", default-features = false }
tokio = { version = "1", features = ["rt-multi-thread", "sync", "time", "net"] }
tracing = "0.1"
