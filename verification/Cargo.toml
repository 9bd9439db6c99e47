[package]
name = "fiducia-telemetry"
version = "0.1.0"
edition = "2021"
publish = false

[dependencies]
opentelemetry = "*"
opentelemetry_sdk = "*"
opentelemetry-otlp = { version = "*", default-features = false, features = ["grpc-tonic", "trace", "metrics"] }
tracing = "*"
tracing-opentelemetry = "*"
tracing-subscriber = { version = "*", features = ["env-filter", "json"] }
