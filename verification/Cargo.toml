[package]
name = "bangida"
version = "0.1.0"
edition = "2021"
publish = false

[dependencies]
rust_decimal = "=1.43.0"
chrono = "=0.4.45"
hmac = "=0.12.1"
sha2 = "=0.10.9"
hex = "=0.4.3"
serde = { version = "=1.0.229", features = ["derive"] }
serde_json = "=1.0.154"
anyhow = "=1.0.104"
thiserror = "=1.0.69"
tracing = "=0.1.44"
parking_lot = "=0.12.5"
dashmap = "=5.5.3"
async-trait = "=0.1.92"
futures-util = "=0.3.34"
tokio = { version = "=1.54.1", features = ["rt-multi-thread", "macros", "time", "sync"] }
reqwest = { version = "=0.12.28", default-features = false, features = ["json"] }
tokio-tungstenite = { version = "=0.21.0", default-features = false, features = ["connect"] }
rusqlite = { version = "=0.31.0", features = ["bundled"] }
config = { version = "0.14", default-features = false, features = ["toml"] }
