[package]
name = "rapidgate"
version = "0.1.0"
edition = "2021"
publish = false

[dependencies]
sha2 = "0.10"
subtle = "2"
rand = "0.8"
uuid = { version = "1", features = ["v4"] }
jsonwebtoken = "9"
chrono = { version = "0.4", features = ["serde"] }
serde = { version = "1", features = ["derive"] }
serde_json = "1"
serde_yaml = "0.9"
thiserror = "1"
async-trait = "0.1"
tokio = { version = "1", features = ["full"] }
moka = { version = "0.12", features = ["future"] }
tracing = "0.1"
dotenvy = "0.15"
bytes = "1"
futures-util = { version = "0.3", features = ["sink"] }
http = "1"
axum = { version = "0.8", features = ["ws"] }
reqwest = { version = "0.12", default-features = false, features = ["stream", "rustls-tls"] }
tokio-tungstenite = "0.26"
opentelemetry = "0.27"
opentelemetry_sdk = { version = "0.27", features = ["rt-tokio"] }
opentelemetry-otlp = { version = "0.27", features = ["grpc-tonic", "metrics", "trace"] }
oauth2 = "4.4"
