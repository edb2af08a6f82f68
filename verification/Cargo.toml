[package]
name = "opsk"
version = "0.1.0"
edition = "2021"
publish = false

[dependencies]
regex = "=1.13.1"
serde = { version = "=1.0.229", features = ["derive"] }
serde_json = { version = "=1.0.154", features = ["raw_value"] }
uuid = { version = "=1.29.0", features = ["v4", "serde"] }
chrono = { version = "=0.4.45", features = ["serde"] }
tokio = { version = "=1.54.1", features = ["full"] }
reqwest = { version = "=0.12.28", default-features = false, features = ["json", "rustls-tls"] }
sqlx = { version = "=0.8.6", default-features = false, features = ["postgres", "runtime-tokio", "uuid", "chrono", "json", "macros"] }
axum = "=0.8.9"
kube = { version = "=5.0.0", features = ["runtime", "client"] }
k8s-openapi = { version = "=0.29.0", features = ["latest"] }
futures = "=0.3.34"
tracing = "=0.1.44"
bcrypt = "=0.17.1"
jsonwebtoken = "=9.3.1"
urlencoding = "=2.1.3"
rand = "=0.9.5"
anyhow = "=1.0.104"
async-stream = "=0.3.6"
tokio-stream = { version = "=0.1.19", features = ["sync"] }
moka = { version = "=0.12.16", features = ["future"] }
