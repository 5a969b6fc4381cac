[package]
name = "wrangler_kv"
version = "0.1.0"
edition = "2021"
publish = false

[dependencies]
base64 = "=0.23.1"
clap = "=2.34.0"
cloudflare = { version = "=0.14.0", default-features = false, features = ["blocking"] }
env_logger = "=0.11.11"
exitfailure = "=0.5.1"
failure = "=0.1.8"
log = "=0.4.34"
walkdir = "=2.5.0"

[dev-dependencies]
percent-encoding = "=1.0.1"
serde_json = "=1.0.151"
