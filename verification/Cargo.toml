[package]
name = "arcan"
version = "0.1.0"
edition = "2021"
publish = false

[dependencies]
base64 = "0.22"
chacha20poly1305 = "0.10"
argon2 = "0.5"
hkdf = "0.12"
sha2 = "0.10"
hmac = "0.12"
subtle = "2"
uuid = { version = "1", features = ["v4", "serde"] }
time = "0.3"
serde = { version = "1", features = ["derive"] }
serde_json = "1"
opaque-ke = { version = "*", features = ["argon2", "ristretto255"] }
axum = { version = "0.8", features = ["macros"] }
tokio = { version = "1", features = ["full"] }
tower-http = { version = "0.6", features = ["trace"] }
tracing = "0.1"
tracing-subscriber = "0.3"
sqlx = { version = "0.8", default-features = false, features = ["runtime-tokio", "postgres", "sqlite", "time", "uuid", "migrate"] }
redis = { version = "0.27", features = ["tokio-comp"] }
jsonwebtoken = "9"
reqwest = { version = "0.12", default-features = false, features = ["json", "rustls-tls"] }
clap = { version = "4", features = ["derive"] }
inquire = "0.7"
rpassword = "7"
directories = "5"
dotenvy = "0.15"
toml = "0.8"
secrecy = "0.10"
zeroize = "1"
bytes = "1"
