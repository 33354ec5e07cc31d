[package]
name = "baidupan_cli"
version = "0.1.0"
edition = "2021"
publish = false

[dependencies]
aes-gcm = "0.10"
argon2 = "0.5"
axum = "0.7"
clap = { version = "4", features = ["derive"] }
directories = "5"
futures-util = "0.3"
indicatif = "0.17"
md5 = "0.7"
rand = "0.8"
reqwest = { version = "0.12", default-features = false, features = ["json", "multipart", "stream", "rustls-tls"] }
serde = { version = "1", features = ["derive"] }
serde_json = "1"
tempfile = "3"
tokio = { version = "1", features = ["full"] }
tracing-subscriber = { version = "0.3", features = ["env-filter"] }
zeroize = "1"
