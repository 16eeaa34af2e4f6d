[package]
name = "rebot"
version = "0.1.0"
edition = "2021"
publish = false

[dependencies]
async-trait = "0.1"
chromiumoxide = { version = "*", default-features = false, features = ["tokio-runtime"] }
dotenvy = "0.15"
env_logger = "*"
futures = "0.3"
log = "0.4"
poise = "0.6"
rocket = { version = "0.5", features = ["json"] }
serde = { version = "1", features = ["derive"] }
serde_json = { version = "1", features = ["preserve_order"] }
serenity = "0.12"
tokio = { version = "1", features = ["full"] }
