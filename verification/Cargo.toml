[package]
name = "carbide"
version = "0.1.0"
edition = "2021"
publish = false

[dependencies]
url = "2"
serde = { version = "1", features = ["derive"] }
serde_json = "1"
thiserror = "2"
eyre = "0.6"
tokio = { version = "1", features = ["rt", "sync"] }
tokio-util = "0.7"
sqlx = { version = "0.8", default-features = false, features = ["postgres"] }
axum = { version = "0.8", default-features = false }
reqwest = { version = "0.12", default-features = false }
bytes = "1"
clap = { version = "4", features = ["derive"] }
tracing = "0.1"
