[package]
name = "lnx_distribute"
version = "0.1.0"
edition = "2021"
publish = false

[dependencies]
bincode = "1.3"
hashbrown = { version = "0.12", features = ["serde"] }
serde = { version = "1", features = ["derive"] }
anyhow = "1"
thiserror = "1"
tokio = { version = "1", features = ["full"] }
quinn = "0.8"
rustls = { version = "0.20", features = ["dangerous_configuration", "quic"] }
rcgen = "0.9"
futures-util = "0.3"
tracing = "0.1"
tracing-subscriber = "0.3"
sled = "0.34"
openraft = "0.6"
