[package]
name = "disrecord"
version = "0.1.0"
edition = "2021"
publish = false

[dependencies]
rand = "=0.9.5"
dashmap = "=6.2.1"
chrono = "=0.4.45"
tokio = { version = "1", features = ["full"] }
serenity = "0.12"
songbird = { version = "0.5", features = ["receive"] }
async_zip = { version = "0.0.17", features = ["tokio", "tokio-fs", "deflate"] }
log = "0.4"
fern = { version = "0.7", features = ["colored"] }
clap = { version = "4", features = ["derive"] }
dotenv = "0.15"
