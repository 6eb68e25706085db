[package]
name = "simple_music_bot"
version = "0.1.0"
edition = "2021"
publish = false

[dependencies]
base64 = "=0.22.1"
flate2 = "=1.1.10"
uuid = { version = "=1.29.0", features = ["v4"] }
regex-syntax = "=0.8.11"
dotenvy = "=0.15.7"
log = "=0.4.35"
env_logger = "=0.11.11"
id3 = "=1.17.2"
serde_json = "=1.0.154"
reqwest = { version = "=0.12.28", default-features = false, features = ["json", "blocking", "rustls-tls"] }
teloxide = { version = "=0.13.0", default-features = false, features = ["macros", "rustls", "ctrlc_handler"] }
tokio = { version = "=1.54.1", features = ["full"] }
takecell = "=0.1.1"

[dev-dependencies]
regex = "=1.13.1"
