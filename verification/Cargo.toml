[package]
name = "orchestrator"
version = "0.1.0"
edition = "2021"
publish = false

[dependencies]
anyhow = "=1.0.104"
axum = "=0.8.9"
reqwest = { version = "=0.13.5", default-features = false, features = ["json"] }
restate-sdk = "=0.12.1"
schemars = "=1.2.2"
serde = { version = "=1.0.229", features = ["derive"] }
serde_json = "=1.0.151"
tokio = { version = "=1.53.2", features = ["macros", "rt-multi-thread", "process", "net", "time"] }
utoipa = "=6.0.0"
utoipa-axum = "=0.3.0"
utoipa-scalar = { version = "=0.4.0", features = ["axum"] }
uuid = { version = "=1.27.0", features = ["v4"] }
