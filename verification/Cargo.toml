[package]
name = "proximiti_server"
version = "0.1.0"
edition = "2021"
publish = false

[dependencies]
argon2 = { version = "=0.5.3", features = ["std"] }
axum = { version = "=0.8.9", features = ["macros"] }
axum-extra = { version = "=0.10.3", features = ["typed-header"] }
base64 = "=0.22.1"
blake3 = { version = "=1.5.5", features = ["pure", "traits-preview"] }
dotenvy = "=0.15.7"
hmac = "=0.12.1"
prost = "=0.13.5"
serde = { version = "=1.0.229", features = ["derive"] }
serde_json = "=1.0.154"
sqlx = { version = "=0.8.6", default-features = false, features = ["postgres", "runtime-tokio"] }
time = "=0.3.55"
tokio = { version = "=1.54.1", features = ["macros", "net", "rt-multi-thread"] }
tower = "=0.5.3"
tower-http = { version = "=0.6.11", features = ["cors"] }
tracing = "=0.1.44"
tracing-subscriber = "=0.3.23"
