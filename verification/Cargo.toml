[package]
name = "hashmaker"
version = "0.1.0"
edition = "2021"
publish = false

[dependencies]
argon2 = "=0.5.3"
bcrypt = "=0.15.1"
blake2 = "=0.10.6"
hex = "=0.4.3"
md-5 = "=0.10.6"
pbkdf2 = "=0.12.2"
rand_core = { version = "=0.6.4", features = ["getrandom"] }
scrypt = "=0.11.0"
sha1 = "=0.10.7"
sha2 = "=0.10.9"
sha3 = "=0.10.9"
serde = { version = "=1.0.229", features = ["derive"] }
serde_json = "=1.0.154"
axum = "=0.7.9"
tokio = { version = "=1.54.1", features = ["macros", "rt-multi-thread", "net", "fs"] }
tower-http = { version = "=0.5.2", features = ["trace"] }
tracing = "=0.1.44"
tracing-subscriber = { version = "=0.3.23", features = ["env-filter"] }
include_dir = "0.7"
