[package]
name = "rustagent"
version = "0.2.0"
edition = "2021"
publish = false

[dependencies]
anyhow = "=1.0.104"
axum = { version = "=0.8.9", default-features = false, features = ["http1", "json", "query", "tokio"] }
chrono = { version = "=0.4.45", default-features = false, features = ["clock", "std"] }
rand = "=0.10.3"
reqwest = { version = "=0.12.28", default-features = false, features = ["json", "rustls-tls", "stream"] }
rusqlite = "=0.41.1"
serde = { version = "=1.0.229", features = ["derive"] }
serde_json = "=1.0.154"
sha1 = "=0.11.0"
sha2 = "=0.11.1"
tokio = { version = "=1.54.1", features = ["rt-multi-thread", "macros", "io-std", "io-util", "sync", "time", "signal", "net"] }
tokio-stream = { version = "=0.1.19", features = ["sync"] }
toml = "=1.1.8"
toml_edit = "=0.25.17"
unicode-width = "=0.2.3"
zip = { version = "=9.2.2", default-features = false, features = ["deflate"] }
