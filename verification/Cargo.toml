[package]
name = "webprobe"
version = "0.1.0"
edition = "2021"
publish = false

[dependencies]
anyhow = "1"
async-channel = "2"
chromiumoxide = { version = "0.7", default-features = false, features = ["tokio-runtime"] }
chrono = "0.4"
clap = { version = "4", features = ["derive"] }
console = "0.15"
dashmap = "6"
dirs = "5"
fantoccini = "0.21"
futures-util = "0.3"
hdrhistogram = { version = "7", default-features = false }
indicatif = "0.17"
reqwest = { version = "0.12", default-features = false }
rmp-serde = "1"
rpassword = "7"
serde = { version = "1", features = ["derive"] }
serde_json = "1"
tokio = { version = "1", features = ["full"] }
tokio-tungstenite = "0.26"
url = "2"
