[package]
name = "mqtt"
version = "0.1.0"
edition = "2021"
publish = false

[dependencies]
bytes = "1"
rand = "0.8"
tokio = { version = "1", features = ["full"] }
tracing = "0.1"
tracing-subscriber = "0.3"
futures = "0.3"
log = "0.4"
serde = { version = "1", features = ["derive"] }
serde_derive = "1"
config = "0.13"
clap = { version = "4", features = ["cargo"] }
