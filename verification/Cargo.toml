[package]
name = "piper"
version = "0.1.0"
edition = "2021"
publish = false

[dependencies]
chrono = "=0.4.45"
log = "=0.4.34"
serde = { version = "=1.0.229", features = ["derive"] }
serde_json = "=1.0.154"
stderrlog = "=0.6.0"
tokio = { version = "=1.54.1", features = ["io-util", "macros", "process", "rt-multi-thread"] }
