[package]
name = "yuttari"
version = "0.1.0"
edition = "2021"
publish = false

[dependencies]
aes-gcm-siv = "0.11"
bytes = "1"
futures = "0.3"
log = "0.4"
rand = "0.8"
rand_core = { version = "0.6", features = ["getrandom"] }
rmp-serde = "1"
serde = "1"
simplelog = "0.12"
tokio = { version = "1", features = ["io-std", "io-util", "macros", "net", "rt-multi-thread", "sync"] }
tokio-util = { version = "0.7", features = ["codec"] }
x25519-dalek = { version = "2", features = ["static_secrets"] }
