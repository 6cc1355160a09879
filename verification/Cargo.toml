[package]
name = "rustfs_operator"
version = "0.1.0"
edition = "2021"
publish = false

[dependencies]
anyhow = "1"
clap = { version = "4", default-features = false, features = ["derive", "error-context", "help", "std", "usage"] }
futures = { version = "0.3", default-features = false, features = ["std"] }
k8s-openapi = { version = "=0.27.1", features = ["v1_34"] }
kube = { version = "=3.1.0", features = ["runtime", "derive", "client"] }
rand = "=0.9.5"
rc-core = "=0.1.20"
rc-s3 = "=0.1.20"
rustls = { version = "0.23", default-features = false, features = ["ring", "std"] }
schemars = "=1.2.3"
serde = { version = "1", features = ["derive"] }
serde_json = "=1.0.154"
serde_yaml = "0.9"
tokio = { version = "1", features = ["macros", "rt-multi-thread"] }
tracing-subscriber = { version = "0.3", default-features = false, features = ["env-filter", "fmt"] }
