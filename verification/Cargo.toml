[package]
name = "clipboardwire"
version = "0.4.6"
edition = "2021"
publish = false

[dependencies]
anyhow = "1"
arboard = { version = "3", features = ["wayland-data-control"] }
axum = { version = "0.8", features = ["ws"] }
axum-server = { version = "=0.7.3", features = ["tls-rustls"] }
base64 = "=0.22.1"
directories = "6"
hostname = "=0.4.2"
image = { version = "=0.25.10", default-features = false, features = ["png"] }
rcgen = "=0.13.2"
serde = { version = "1", features = ["derive"] }
serde_json = "1"
sha2 = "=0.11.1"
tokio = { version = "1", features = ["full"] }
tracing = "0.1"
tracing-subscriber = { version = "0.3", features = ["env-filter"] }
uuid = { version = "=1.29.0", features = ["v4", "serde"] }
