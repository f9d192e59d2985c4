[package]
name = "codex_launcher"
version = "0.1.0"
edition = "2021"
publish = false

[dependencies]
chrono = "=0.4.45"
url = "=2.5.8"
serde = { version = "=1.0.229", features = ["derive"] }
serde_json = "=1.0.154"
keyring = { version = "=3.6.3", default-features = false, features = ["windows-native"] }
uuid = { version = "=1.29.0", features = ["v4"] }
fs2 = "=0.4.3"
dirs = "=5.0.1"
windows-sys = { version = "=0.59.0", features = ["Win32_Globalization"] }
toml = "=0.8.23"
tokio = { version = "=1.54.1", features = ["rt-multi-thread", "macros", "time", "process", "sync", "io-util", "fs"] }
tokio-util = "=0.7.20"
futures-util = "=0.3.34"
async-trait = "=0.1.92"
command-group = { version = "=5.0.1", features = ["with-tokio"] }
reqwest = { version = "=0.12.28", default-features = false, features = ["rustls-tls"] }
lettre = { version = "=0.11.23", default-features = false, features = ["builder", "smtp-transport", "tokio1", "tokio1-rustls-tls"] }
notify-rust = "=4.18.2"
open = "=5.4.5"
