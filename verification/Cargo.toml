[package]
name = "arx"
version = "0.1.0"
edition = "2021"
publish = false

[dependencies]
anyhow = "=1.0.104"
arc-swap = "=1.9.3"
authly-client = "=0.0.9"
bytes = "=1.12.1"
clap = { version = "=4.6.7", features = ["derive"] }
cookie = "=0.18.2"
futures-util = "=0.3.34"
gateway-api = "=0.22.0"
http = "=1.5.0"
http-body = "=1.1.0"
http-body-util = "=0.1.5"
hyper = "=1.12.0"
hyper-util = { version = "=0.1.21", features = ["tokio"] }
k8s-openapi = { version = "=0.28.0", features = ["latest"] }
kube = { version = "=4.2.0", features = ["runtime"] }
matchit = "=0.8.6"
reqwest = { version = "=0.13.5", default-features = false, features = ["stream", "rustls-no-provider", "http2"] }
reqwest-websocket = "=0.6.0"
rustls = { version = "=0.23.46", default-features = false, features = ["ring", "std", "logging", "tls12"] }
serde = { version = "=1.0.229", features = ["derive"] }
serde_json = "=1.0.154"
tokio = { version = "=1.54.1", features = ["macros", "rt-multi-thread", "sync"] }
tokio-tungstenite = "=0.30.0"
tokio-util = "=0.7.20"
tower = { version = "=0.5.3", features = ["util"] }
tower-http = { version = "=0.6.11", features = ["compression-full", "cors", "fs", "trace"] }
tower-server = { version = "=0.3.1", features = ["signal"] }
tracing = "=0.1.44"
tracing-subscriber = "=0.3.23"
tungstenite = "=0.30.0"
