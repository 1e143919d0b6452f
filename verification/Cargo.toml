[package]
name = "hub_proxy"
version = "0.1.0"
edition = "2021"
publish = false

[dependencies]
regex = "1"
humantime = "2"
url = "2"
once_cell = "1"
axum = "0.7"
tokio = { version = "1", features = ["macros", "rt-multi-thread", "net", "signal"] }
reqwest = { version = "0.12", default-features = false, features = ["rustls-tls", "stream", "http2"] }
futures-util = "0.3"
tracing = "0.1"
tracing-subscriber = { version = "0.3", features = ["env-filter"] }
