[package]
name = "tinytun"
version = "0.1.0"
edition = "2021"
publish = false

[dependencies]
bytes = "1"
clap = { version = "4", features = ["derive"] }
h2 = "0.3"
http = "0.2"
httparse = "1"
hyper = { version = "0.14", features = ["client", "http1", "http2", "server", "tcp", "runtime", "stream"] }
hyper-rustls = "0.24"
pin-project-lite = "0.2"
rand = "0.8"
serde = { version = "1", features = ["derive"] }
serde_json = "1"
thiserror = "1"
tokio = { version = "1", features = ["full"] }
tracing = "0.1"
tracing-subscriber = { version = "0.3", features = ["env-filter"] }
uuid = { version = "1", features = ["v4"] }
