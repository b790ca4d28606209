[package]
name = "pod_lifetime_manager"
version = "0.1.0"
edition = "2021"
publish = false

[dependencies]
chrono = { version = "=0.4.45", default-features = false, features = ["clock", "std"] }
kube = { version = "=3.1.0", default-features = false, features = ["client", "derive", "rustls-tls"] }
k8s-openapi = { version = "=0.27.1", features = ["latest"] }
tokio = { version = "*", features = ["macros", "rt-multi-thread", "time"] }
serde = { version = "*", features = ["derive"] }
schemars = "1"
serde_json = "*"
anyhow = "*"
tracing = "*"
tracing-subscriber = "*"
