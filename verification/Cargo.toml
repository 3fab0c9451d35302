[package]
name = "ecw"
version = "0.1.0"
edition = "2021"
publish = false

[dependencies]
aes = "=0.8.4"
cbc = "=0.1.2"
sha2 = "=0.10.9"
http = "=1.5.0"
httparse = "=1.10.1"
lazy_static = "1"
rand = "=0.8.8"
thiserror = "=1.0.69"
tokio = { version = "=1.54.1", features = ["rt-multi-thread", "macros", "net", "io-util", "sync"] }
