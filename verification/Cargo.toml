[package]
name = "mcp-cache-ci"
version = "0.1.0"
edition = "2021"
publish = false

[dependencies]
anyhow = "1"
arc-swap = "1"
axum = "=0.8.9"
clap = { version = "4", features = ["derive", "env"] }
reqwest = { version = "=0.12.28", default-features = false }
rmcp = { version = "1.8", features = ["server", "transport-streamable-http-server"] }
tokio = { version = "1", features = ["rt-multi-thread", "macros", "net", "time"] }
tracing = "0.1"
tracing-subscriber = { version = "0.3", features = ["env-filter"] }
