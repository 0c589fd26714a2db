[package]
name = "entropy_engine"
version = "0.1.0"
edition = "2021"
publish = false

[dependencies]
sha2 = "0.10"
chacha20 = "0.9"
hex = "0.4"
zeroize = "1"
log = "0.4"
serde = { version = "1", features = ["derive"] }
serde_json = "1"
thiserror = "1"
env_logger = "0.11"
axum = "0.7"
tokio = { version = "1", features = ["rt-multi-thread", "net", "macros"] }
tower-http = { version = "0.5", features = ["cors"] }
rumqttc = { version = "0.24", default-features = false }
serialport = { version = "4", default-features = false }
ureq = { version = "2", default-features = false }
