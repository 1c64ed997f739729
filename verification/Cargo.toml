[package]
name = "mod_install"
version = "0.1.0"
edition = "2021"
publish = false

[dependencies]
console = "0.15"
futures = "0.3"
indicatif = "0.17"
reqwest = { version = "0.12", default-features = false, features = ["http2", "rustls-tls"] }
tokio = { version = "1", features = ["rt-multi-thread"] }
