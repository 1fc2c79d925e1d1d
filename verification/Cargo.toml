[package]
name = "chat_rs"
version = "0.1.0"
edition = "2021"
publish = false

[dependencies]
aes-gcm = "0.10"
k256 = { version = "0.13", features = ["ecdh"] }
rand_core = { version = "0.6", features = ["getrandom"] }
sha2 = "0.10"
tokio = { version = "1", features = ["full"] }
ctrlc = "3"
