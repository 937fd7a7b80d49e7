[package]
name = "lan_audio"
version = "0.1.0"
edition = "2021"
publish = false

[dependencies]
byteorder = "1"
anyhow = "1"
thiserror = "1"
clap = { version = "4", features = ["derive", "env"] }
tokio = { version = "1", features = ["full"] }
tracing = "0.1"
tracing-subscriber = { version = "0.3", features = ["env-filter"] }
cpal = "0.15"
mdns-sd = "0.11"
axum = "0.7"
axum-server = { version = "0.7", features = ["tls-rustls"] }
rustls = { version = "0.23", features = ["ring"] }
rcgen = "0.13"
serde = { version = "1", features = ["derive"] }
tower-http = { version = "0.6", features = ["cors"] }
