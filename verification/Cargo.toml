[package]
name = "ryu_dashboards"
version = "0.1.0"
edition = "2021"
publish = false

[dependencies]
anyhow = "1"
async-trait = "0.1"
axum = "0.7"
chrono = "0.4"
futures-util = "0.3"
humantime = "2"
png = "0.17"
reqwest = { version = "0.12", default-features = false, features = ["json"] }
resvg = "0.45"
rusqlite = { version = "0.32", features = ["bundled"] }
serde = { version = "1", features = ["derive"] }
serde_json = "1"
tokio = { version = "1", features = ["rt-multi-thread", "macros", "net", "time", "sync"] }
tracing = "0.1"
tracing-subscriber = { version = "0.3", features = ["env-filter"] }
utoipa = "5"
uuid = { version = "1", features = ["v4"] }
