[package]
name = "netease_music_downloader_rs"
version = "0.1.0"
edition = "2021"
publish = false

[dependencies]
anyhow = "1"
clap = { version = "4", features = ["derive"] }
futures-util = "0.3"
indicatif = "0.17"
md5 = "0.7"
once_cell = "1"
openssl = "0.10"
rand = "0.9"
regex = "1"
reqwest = { version = "0.12", features = ["stream", "json"] }
serde = { version = "1", features = ["derive"] }
serde_json = "1"
tokio = { version = "1", features = ["full"] }
url = "2"
