[package]
name = "codex_warp"
version = "0.1.0"
edition = "2021"
publish = false

[dependencies]
serde_json = "*"
uuid = { version = "*", features = ["v4"] }
serde = { version = "*", features = ["derive"] }
tokio = { version = "*", features = ["full"] }
axum = "*"
tower-http = { version = "*", features = ["cors", "fs", "trace"] }
clap = { version = "*", features = ["derive"] }
anyhow = "*"
async-stream = "*"
tokio-stream = { version = "*", features = ["sync"] }
libc = "*"
