[package]
name = "proxide"
version = "0.1.0"
edition = "2021"
publish = false

[dependencies]
anyhow = "*"
axum = "*"
axum-server = "*"
clap = { version = "*", features = ["env"] }
hyper = { version = "*", features = ["client", "http1"] }
hyper-util = { version = "*", features = ["tokio"] }
notify = "*"
serde = { version = "*", features = ["derive"] }
serde_yaml = "*"
tokio = { version = "*", features = ["full"] }
tracing-subscriber = "*"
