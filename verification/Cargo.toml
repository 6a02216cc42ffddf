[package]
name = "lumen"
version = "0.1.0"
edition = "2021"
publish = false

[dependencies]
anyhow = "1"
async-trait = "0.1"
bytes = "1"
cpal = { version = "0.17", default-features = false }
directories = "6"
futures-util = { version = "0.3", default-features = false, features = ["sink", "std"] }
neteq = { version = "0.8", default-features = false }
nnnoiseless = { version = "0.5", default-features = false }
opus = "0.3"
parking_lot = "0.12"
rand = "0.9"
reqwest = { version = "0.12", default-features = false, features = ["json", "rustls-tls"] }
rtc = "0.20"
rubato = { version = "0.16", default-features = false }
serde = { version = "1", features = ["derive"] }
serde_json = "1"
sonora = "0.2"
thiserror = "2"
tokio = { version = "1", features = ["full"] }
tokio-tungstenite = "0.28"
url = "2"
webrtc = "0.20"
