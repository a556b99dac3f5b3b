[package]
name = "music_bot"
version = "0.1.0"
edition = "2021"
publish = false

[dependencies]
serde = { version = "1", features = ["derive"] }
serde_json = "1"
serenity = { version = "=0.12.5", default-features = false, features = ["builder", "cache", "client", "gateway", "model", "http", "voice", "rustls_backend"] }
songbird = { version = "=0.4.6", default-features = false, features = ["serenity", "driver", "gateway", "builtin-queue", "rustls"] }
tokio = { version = "1", features = ["full"] }
async-trait = "0.1"
thiserror = "1"
symphonia-core = "0.5"
