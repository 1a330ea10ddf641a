[package]
name = "vaelorium"
version = "0.1.0"
edition = "2021"
publish = false

[dependencies]
argon2 = "=0.5.3"
chacha20poly1305 = "=0.10.1"
sha2 = "=0.10.9"
ulid = "=1.2.1"
uuid = { version = "=1.29.1", features = ["v4"] }
base64 = "=0.22.1"
rand = "=0.8.8"
urlencoding = "=2.1.3"
flate2 = "=1.1.10"
chrono = "=0.4.45"
serde = { version = "=1.0.229", features = ["derive"] }
serde_json = "=1.0.154"
sqlx = { version = "=0.8.6", default-features = false, features = ["sqlite", "runtime-tokio", "macros"] }
tokio = { version = "=1.54.1", features = ["full"] }
keyring = "=3.6.3"
reqwest = { version = "=0.12.28", default-features = false, features = ["json", "rustls-tls"] }
async-trait = "=0.1.92"
thiserror = "=2.0.21"
tempfile = "=3.27.0"
log = "=0.4.35"
zeroize = "=1.9.1"
aws-config = { version = "1", features = ["behavior-version-latest"] }
aws-sdk-s3 = "1"
