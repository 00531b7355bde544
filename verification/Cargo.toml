[package]
name = "alto_coro"
version = "0.1.0"
edition = "2021"
publish = false

[dependencies]
async-trait = "0.1"
axum = "0.8"
bytes = "1"
clap = { version = "4", features = ["derive"] }
commonware-actor = "=2026.5.0"
commonware-broadcast = "=2026.5.0"
commonware-codec = "=2026.5.0"
commonware-consensus = "=2026.5.0"
commonware-cryptography = "=2026.5.0"
commonware-formatting = "=2026.5.0"
commonware-macros = "=2026.5.0"
commonware-math = "=2026.5.0"
commonware-p2p = "*"
commonware-parallel = "=2026.5.0"
commonware-resolver = "=2026.5.0"
commonware-runtime = "=2026.5.0"
commonware-storage = "=2026.5.0"
commonware-utils = "=2026.5.0"
futures = "0.3"
governor = "0.10"
rand = "0.8"
serde = { version = "1", features = ["derive"] }
serde_yaml = "0.9"
thiserror = "2"
tokio = { version = "1", features = ["full"] }
tower-http = { version = "0.6", features = ["cors"] }
tracing = "0.1"
tracing-subscriber = "0.3"
