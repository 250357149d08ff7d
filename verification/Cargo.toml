[package]
name = "meeting_minutes_automator"
version = "0.1.0"
edition = "2021"
publish = false

[dependencies]
anyhow = "1"
bytes = "1"
cpal = "0.15"
fs2 = "0.4"
futures-util = "0.3"
hex = "0.4"
num_cpus = "1"
once_cell = "1"
ringbuf = "0.4"
serde = { version = "1", features = ["derive"] }
serde_json = "1"
sha2 = "0.10"
thiserror = "1"
tokio = { version = "1", features = ["full"] }
tokio-tungstenite = "0.21"
tokio-util = "0.7"
tracing = "0.1"
uuid = { version = "1", features = ["v4"] }
