[package]
name = "codex_native"
version = "0.1.0"
edition = "2021"
publish = false

[dependencies]
async-trait = "0.1"
futures-util = "0.3"
serde = { version = "1", features = ["derive"] }
serde_json = "1"
sqlx = { version = "0.8", default-features = false, features = ["runtime-tokio", "sqlite", "derive"] }
thiserror = "2"
tokio = { version = "1", features = ["macros", "net", "process", "rt", "sync", "time"] }
tokio-tungstenite = "0.28"
tracing = "0.1"
