[package]
name = "nabla_runner"
version = "0.1.0"
edition = "2021"
publish = false

[dependencies]
uuid = { version = "*", features = ["v4"] }
tokio = { version = "*", features = ["full"] }
axum = "*"
tower = "*"
tower-http = { version = "*", features = ["cors"] }
serde = { version = "*", features = ["derive"] }
serde_json = "*"
reqwest = { version = "*", default-features = false }
base64 = "*"
anyhow = "*"
async-trait = "*"
tracing = "*"
tracing-subscriber = "*"
