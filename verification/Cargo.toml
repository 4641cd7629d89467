[package]
name = "notype_mini"
version = "0.3.1"
edition = "2021"
publish = false

[dependencies]
similar = "2"
hound = "3.5"
base64 = "0.22"
chrono = { version = "0.4", features = ["serde"] }
serde = { version = "1", features = ["derive"] }
serde_json = "1"
toml = "0.8"
dirs = "5"
uuid = { version = "1", features = ["v4"] }
anyhow = "1"
scopeguard = "1"
tokio = { version = "1", features = ["rt-multi-thread", "time", "macros"] }
reqwest = { version = "0.12", default-features = false, features = ["json", "multipart", "rustls-tls"] }
arboard = "3"
enigo = "0.3"
