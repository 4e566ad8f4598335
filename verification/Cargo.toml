[package]
name = "proving_service"
version = "0.1.0"
edition = "2021"
publish = false

[dependencies]
async-trait = "0.1"
miden-core = { version = "=0.12.0", default-features = false, features = ["std"] }
miden-crypto = { version = "=0.13.3", default-features = false, features = ["std"] }
opentelemetry = "=0.27.1"
opentelemetry-otlp = { version = "=0.27.0", features = ["grpc-tonic"] }
opentelemetry-semantic-conventions = "=0.27.0"
opentelemetry_sdk = { version = "=0.27.1", features = ["rt-tokio"] }
pingora = "=0.4.0"
pingora-core = "=0.4.0"
pingora-error = "=0.4.0"
pingora-http = "=0.4.0"
pingora-proxy = "=0.4.0"
tokio = { version = "=1.54.1", features = ["macros", "rt-multi-thread", "sync", "time"] }
tonic = "=0.12.3"
tonic-health = "=0.12.3"
tracing = "=0.1.44"
tracing-opentelemetry = "=0.28.0"
tracing-subscriber = { version = "=0.3.23", features = ["env-filter"] }
