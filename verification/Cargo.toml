[package]
name = "telnetls"
version = "0.1.0"
edition = "2021"
publish = false

[dependencies]
mimalloc = "0.1"
rustls-native-certs = "0.6"
rustls-pemfile = "1"
tokio = { version = "1", features = ["fs", "io-std", "io-util", "macros", "net", "rt-multi-thread"] }
tokio-rustls = "0.24"
