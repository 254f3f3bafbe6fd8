[package]
name = "linkerd_failover"
version = "0.1.0"
edition = "2021"
publish = false

[dependencies]
anyhow = "=1.0.104"
clap = { version = "=4.6.7", features = ["derive", "env"] }
futures = "=0.3.34"
k8s-openapi = { version = "=0.25.0", features = ["latest"] }
kube = { version = "=1.1.0", default-features = false, features = ["client", "derive", "runtime"] }
kubert = { version = "=0.25.0", features = ["clap", "runtime"] }
schemars = "=0.8.22"
serde = { version = "=1.0.229", features = ["derive"] }
serde_json = "=1.0.154"
tokio = { version = "=1.54.1", features = ["macros", "rt-multi-thread", "sync", "time"] }
tracing = "=0.1.44"
