[package]
name = "trapy"
version = "0.1.0"
edition = "2021"
publish = false

[dependencies]
opentelemetry = "0.31"
opentelemetry_sdk = "0.31"
opentelemetry-otlp = { version = "0.31", default-features = false, features = ["trace", "http-proto", "reqwest-blocking-client"] }
pyo3 = { version = "0.27", features = ["abi3-py39", "extension-module"] }
tracing = { version = "0.1", features = ["valuable"] }
tracing-catty = "*"
tracing-core = { version = "0.1", features = ["valuable"] }
tracing-opentelemetry = "0.32"
tracing-subscriber = { version = "0.3", features = ["env-filter", "json", "registry", "fmt"] }
tracing-timing = { version = "*", features = ["layer"] }
tracing-tracy = "*"
valuable = "0.1"
