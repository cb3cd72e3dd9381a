[package]
name = "hope"
version = "0.1.0"
edition = "2021"
publish = false

[dependencies]
anyhow = "1"
camino = "1"
clap = { version = "4", features = ["derive", "env"] }
tokio = { version = "1", features = ["fs", "io-std", "io-util", "macros", "net", "rt"] }
tracing = "0.1"
tracing-subscriber = "0.3"

[dev-dependencies]
serde_json = "1"
