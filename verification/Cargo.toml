[package]
name = "service"
version = "0.1.0"
edition = "2021"
publish = false

[dependencies]
argon2 = { version = "0.5", features = ["std"] }
base64 = "0.21"
hmac = "0.12"
sha2 = "0.10"
async-trait = "0.1"
axum = "0.6"
color-eyre = { version = "0.6", default-features = false }
dotenvy = "0.15"
eyre = "0.6"
http = "0.2"
humantime = "2"
sea-orm = { version = "0.12", default-features = false, features = ["macros", "with-time"] }
sea-orm-migration = { version = "0.12", default-features = false }
serde = { version = "1", features = ["derive"] }
time = { version = "0.3", features = ["serde"] }
tokio = { version = "1", features = ["macros", "rt-multi-thread", "time"] }
tower = "0.4"
tower-http = { version = "0.4", features = ["cors", "compression-gzip"] }
tracing = "0.1"
tracing-subscriber = { version = "0.3", features = ["env-filter"] }
