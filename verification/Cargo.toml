[package]
name = "slatedb_cloudflare"
version = "0.1.0"
edition = "2021"
publish = false

[dependencies]
async-trait = "0.1"
axum = "0.8"
bytes = "1"
chrono = "0.4"
futures = "0.3"
object_store = { version = "=0.14.1", features = ["aws"] }
quick_cache = "*"
reqwest = { version = "0.12", default-features = false, features = ["json", "stream"] }
serde = { version = "1", features = ["derive"] }
serde_bytes = "0.11"
serde_json = "1"
slatedb = "=0.15.0"
slatedb-common = "=0.15.0"
tokio = { version = "1", features = ["macros", "rt-multi-thread", "net", "signal", "fs", "sync"] }
tracing = "0.1"
tracing-subscriber = { version = "0.3", features = ["env-filter"] }
worker = "*"
