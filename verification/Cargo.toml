[package]
name = "mycelium-agent"
version = "0.1.0"
edition = "2021"
publish = false

[dependencies]
ahash = "=0.8.12"
async-trait = "=0.1.92"
axum = "=0.8.9"
base64 = "=0.22.1"
bytes = "=1.12.1"
ed25519-dalek = "=2.2.0"
fastrand = "=2.5.0"
futures-util = "=0.3.34"
hyper-util = { version = "=0.1.21", features = ["server-auto", "service", "tokio"] }
jsonwebtoken = { version = "=10.4.0", features = ["rust_crypto", "use_pem"] }
metrics = "=0.24.6"
papaya = "=0.2.5"
reqwest = { version = "=0.12.28", default-features = false, features = ["json"] }
rustls = { version = "0.23", default-features = false, features = ["std", "tls12"] }
serde = { version = "=1.0.229", features = ["derive"] }
serde_json = "=1.0.154"
sha2 = "=0.10.9"
thiserror = "=2.0.21"
tokio = { version = "=1.54.1", features = ["full"] }
tokio-rustls = { version = "0.26", default-features = false, features = ["tls12"] }
tokio-stream = "=0.1.19"
tracing = "=0.1.44"
