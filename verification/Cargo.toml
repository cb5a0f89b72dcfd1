[package]
name = "knowforge"
version = "0.1.0"
edition = "2021"
publish = false

[dependencies]
semver = "=1.0.28"
dashmap = "=6.2.1"
chrono = "=0.4.45"
serde = { version = "=1.0.229", features = ["derive"] }
serde_json = "=1.0.154"
serde_yaml = "=0.9.34"
tokio = { version = "1", features = ["rt-multi-thread", "macros", "sync", "time", "fs"] }
tokio-util = "0.7"
futures-util = "0.3"
reqwest = { version = "0.12", default-features = false, features = ["json", "stream", "rustls-tls"] }
uuid = { version = "1", features = ["v4", "v7"] }
sha2 = "0.10"
hex = "0.4"
dirs = "5"
rusqlite = { version = "0.31", features = ["bundled"] }
async-trait = "0.1"
