[package]
name = "lyrune"
version = "1.0.0"
edition = "2021"
publish = false

[dependencies]
anyhow = "=1.0.104"
async-channel = "=2.5.0"
directories = "=6.0.0"
futures-util = "=0.3.34"
ksni = { version = "=0.3.7", features = ["blocking"] }
quick-xml = "0.39"
resvg = "=0.49.0"
serde = { version = "=1.0.229", features = ["derive"] }
serde_json = "=1.0.154"
tokio = { version = "=1.54.1", features = ["full"] }
wana_kana = "=4.0.0"
xxhash-rust = { version = "=0.8.19", features = ["xxh3"] }
zbus = "=5.19.0"
