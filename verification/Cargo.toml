[package]
name = "hyperlink_protocol"
version = "0.1.0"
edition = "2021"
publish = false

[dependencies]
byteorder = "=1.5.0"
sha2 = "=0.10.9"
rcgen = "=0.14.10"
serde = { version = "=1.0.229", features = ["derive"] }
serde_json = "=1.0.154"
anyhow = "=1.0.104"
tokio = { version = "=1.54.1", features = ["full"] }
chrono = "=0.4.45"
clap = { version = "=4.6.7", features = ["derive"] }
tracing = "=0.1.44"
tracing-subscriber = { version = "=0.3.23", features = ["env-filter"] }
async-trait = "=0.1.92"
quinn = "=0.11.12"
rustls = { version = "=0.23.46", default-features = false, features = ["ring", "std", "tls12", "logging"] }
rustls-pemfile = "=2.2.0"
rustls-pki-types = "=1.15.1"
mdns-sd = "=0.21.7"
jni = "=0.21.1"
lazy_static = "=1.5.1"
tracing-android = "=0.2.0"
