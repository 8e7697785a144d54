[package]
name = "dexios_core"
version = "0.1.0"
edition = "2021"
publish = false

[dependencies]
aead = "=0.5.2"
aes-gcm-siv = "=0.11.1"
balloon-hash = "=0.4.0"
blake3 = { version = "=1.5.5", features = ["traits-preview"] }
chacha20poly1305 = "=0.10.1"
rand = "=0.8.8"
zeroize = "=1.9.1"
zip = { version = "=0.6.6", default-features = false, features = ["zstd"] }
