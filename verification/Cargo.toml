[package]
name = "ferro_stash"
version = "0.1.0"
edition = "2021"
publish = false

[dependencies]
anyhow = "1"
aws-config = { version = "=1.13.0", default-features = false, features = ["behavior-version-latest", "rt-tokio"] }
aws-sdk-marketplacemetering = { version = "=1.124.0", default-features = false, features = ["behavior-version-latest", "rt-tokio"] }
axum = "0.7"
chrono = "=0.4.45"
clap = { version = "4", features = ["derive", "env"] }
cranelift = "=0.131.3"
cranelift-jit = "=0.131.3"
cranelift-module = "=0.131.3"
cranelift-native = "=0.131.3"
csv = "=1.4.0"
dashmap = "6"
fs2 = "0.4"
glob = "0.3"
hostname = "0.4"
indexmap = "=2.14.2"
num_cpus = "1"
regex = "=1.13.1"
rmp-serde = "=1.3.1"
serde = { version = "1", features = ["derive"] }
serde_json = { version = "=1.0.154", features = ["float_roundtrip", "preserve_order"] }
serde_yaml = "0.9"
socket2 = "0.5"
thiserror = "2"
tokio = { version = "1", features = ["full"] }
tracing = "0.1"
tracing-subscriber = { version = "0.3", features = ["env-filter", "json"] }
uuid = { version = "1", features = ["v4"] }
