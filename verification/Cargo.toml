[package]
name = "rushwind"
version = "0.1.0"
edition = "2021"
publish = false

[dependencies]
boa_engine = { version = "=0.21.1", default-features = false }
cel-interpreter = { version = "=0.10.0", default-features = false }
etcd-client = "0.17"
futures = "0.3"
getrandom = "=0.3.4"
k8s-openapi = { version = "0.27", features = ["latest"] }
kube = { version = "=3.1.0", default-features = false, features = ["client", "rustls-tls", "ring", "runtime"] }
mlua = { version = "=0.11.0-beta.1", features = ["lua54", "vendored", "send"] }
nacos-sdk = { version = "=0.6.0", default-features = false, features = ["naming", "auth-by-http"] }
reqwest = { version = "=0.12.28", default-features = false, features = ["json"] }
serde = { version = "1", features = ["derive"] }
serde_json = { version = "=1.0.154", features = ["raw_value"] }
tokio = { version = "1", features = ["full"] }
tokio-tungstenite = "0.28"
wasmi = { version = "=1.1.0", default-features = false, features = ["std", "wat"] }
zookeeper-async = "=5.0.0"
