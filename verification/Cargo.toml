[package]
name = "k8stcp"
version = "0.1.0"
edition = "2021"
publish = false

[dependencies]
chrono = "=0.4.45"
clap = "=2.34.0"
futures = "=0.3.34"
k8s-openapi = { version = "=0.20.0", features = ["v1_26"] }
kube = { version = "=0.87.2", default-features = false, features = ["client", "rustls-tls", "ws"] }
serde_json = "=1.0.154"
tokio = { version = "=1.54.1", features = ["macros", "rt-multi-thread", "time"] }
tokio-util = { version = "=0.7.20", features = ["io"] }
tracing = "=0.1.44"
tracing-subscriber = "=0.3.23"
