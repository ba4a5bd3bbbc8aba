[package]
name = "lotion_rs"
version = "0.3.2"
edition = "2021"
publish = false

[dependencies]
aes-gcm = "0.10"
base64 = "0.22"
pbkdf2 = "0.12"
sha2 = "0.10"
rand = "0.9"
rand_core = "0.9"
serde = { version = "1", features = ["derive"] }
serde_json = "1"
dirs = "5"
libc = "0.2"
hunspell-rs = "*"
tokio = { version = "1", features = ["sync"] }
