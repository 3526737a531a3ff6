[package]
name = "mcp_aggregator"
version = "0.1.0"
edition = "2021"
publish = false

[dependencies]
anyhow = "1"
clap = { version = "4", features = ["derive", "env"] }
futures = "0.3"
lru = "*"
newswrap = "*"
reqwest = { version = "0.12", features = ["json", "gzip"] }
rmcp = { version = "0.1", features = ["server", "transport-sse-server", "transport-io"] }
serde = { version = "1", features = ["derive"] }
serde_json = "1"
time = { version = "0.3", features = ["formatting", "parsing"] }
tokio = { version = "1", features = ["full"] }
tracing = "0.1"
tracing-subscriber = { version = "0.3", features = ["env-filter"] }
