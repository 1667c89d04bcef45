[package]
name = "k8s_sidecar"
version = "0.1.0"
edition = "2021"
publish = false

[dependencies]
base64 = "0.22"
chrono = "0.4"
futures = "0.3"
k8s-openapi = { version = "*", features = ["latest"] }
kube = { version = "*", default-features = false, features = ["client", "rustls-tls", "aws-lc-rs"] }
reqwest = { version = "*", default-features = false, features = ["rustls-no-provider"] }
rustls = { version = "0.23", default-features = false, features = ["aws_lc_rs", "std"] }
serde_json = "1"
serde_yaml = "0.9"
sha2 = "0.10"
socket2 = "0.6"
tokio = { version = "1", features = ["rt", "net", "time", "signal", "process", "io-util", "macros", "sync"] }
