[package]
name = "guestlist"
version = "0.1.0"
edition = "2021"
publish = false

[dependencies]
askama = "0.12"
axum = { version = "0.6", features = ["macros"] }
axum-login = "0.5"
axum-server = { version = "0.5", features = ["tls-rustls"] }
clap = { version = "4", features = ["derive", "env"] }
color-eyre = "0.6"
csv = "1"
indexmap = "2"
itertools = "0.10"
log = "0.4"
rand = "0.8"
serde = { version = "1", features = ["derive"] }
thiserror = "1"
tokio = { version = "1", features = ["full"] }
tower-http = { version = "0.4", features = ["fs", "trace"] }
tracing-subscriber = { version = "0.3", features = ["env-filter"] }
uuid = { version = "1", features = ["v4", "serde"] }
