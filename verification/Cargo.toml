[package]
name = "ssss_sync"
version = "0.1.0"
edition = "2021"
publish = false

[dependencies]
aes-gcm-siv = "*"
brotli-decompressor = "*"
zeroize = "*"
tokio = { version = "*", features = ["rt", "rt-multi-thread", "macros", "time", "sync"] }
futures = "*"

[dev-dependencies]
brotli = "*"
