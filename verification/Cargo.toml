[package]
name = "book_ingest"
version = "0.1.0"
edition = "2021"
publish = false

[dependencies]
rust_decimal = "1"
slotmap = "1"
crc32fast = "1"
serde = { version = "1", features = ["derive"] }
serde_json = "1"
tokio = { version = "1", features = ["full"] }
tokio-util = { version = "0.7", features = ["rt"] }
tokio-tungstenite = "0.26"
futures = "0.3"
futures-util = { version = "0.3", features = ["sink"] }
bytes = "1"
chrono = "0.4"
rand = "0.9"
tracing = "0.1"
tracing-appender = "0.2"
tracing-subscriber = { version = "0.3", features = ["env-filter", "json", "time"] }
thiserror = "2"
derive_builder = "0.20"
dashmap = "6"
dotenv = "0.15"
reqwest = { version = "0.12", default-features = false, features = ["json", "rustls-tls"] }
rustls = { version = "0.23", default-features = false, features = ["ring", "std"] }
deadpool-postgres = "0.14"
tokio-postgres = { version = "0.7", features = ["with-serde_json-1", "with-chrono-0_4"] }
questdb-rs = "5"
