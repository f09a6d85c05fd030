[package]
name = "bloom-relay"
version = "0.1.0"
edition = "2021"
publish = false

[dependencies]
aws-config = { version = "1", default-features = false, features = ["rt-tokio", "default-https-client"] }
aws-sdk-route53 = { version = "1", default-features = false, features = ["rt-tokio", "default-https-client"] }
axum = "0.8"
axum-server = { version = "*", features = ["tls-rustls-no-provider"] }
base64 = "0.22"
data-encoding = "2"
ed25519-dalek = { version = "2", features = ["rand_core"] }
fs4 = "*"
h2 = "0.4"
hex = "0.4"
hickory-resolver = "*"
metrics = "*"
metrics-exporter-prometheus = { version = "*", default-features = false, features = ["http-listener"] }
rand = "0.8"
rcgen = "0.14"
reqwest = { version = "0.12", default-features = false, features = ["json", "rustls-tls"] }
rustls = { version = "0.23", default-features = false, features = ["ring", "std", "tls12", "logging"] }
serde = { version = "1", features = ["derive"] }
serde_jcs = "*"
serde_json = "1"
sha2 = "0.10"
sqlx = { version = "*", default-features = false, features = ["runtime-tokio", "tls-rustls-ring-webpki", "postgres", "uuid", "json", "migrate"] }
tokio = { version = "1", features = ["full"] }
tokio-rustls = { version = "0.26", default-features = false, features = ["ring", "tls12", "logging"] }
tracing = "0.1"
tracing-subscriber = { version = "0.3", features = ["json", "env-filter"] }
ureq = { version = "3", default-features = false, features = ["rustls", "json"] }
url = "2"
uuid = { version = "1", features = ["v4", "serde"] }
zeroize = "1"
