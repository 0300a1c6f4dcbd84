[package]
name = "boinkrs"
version = "0.1.0"
edition = "2021"
publish = false

[dependencies]
anyhow = "*"
clap = { version = "*", features = ["derive"] }
env_logger = "*"
k8s-openapi = { version = "*", features = ["latest"] }
kube = "*"
log = "*"
tokio = { version = "*", features = ["macros", "rt-multi-thread"] }
