[package]
name = "humphrey"
version = "0.1.0"
edition = "2021"
publish = false

[dependencies]
rustls = "0.20"
rustls-pemfile = "1"
tokio = { version = "1", features = ["full"] }
tokio-rustls = "0.23"
tokio-util = "0.7"
futures = "0.3"
notify = "4"
