[package]
name = "backend"
version = "0.1.0"
edition = "2021"
publish = false

[dependencies]
moka = { version = "=0.12.16", features = ["sync"] }
async-trait = "=0.1.92"
axum = "=0.8.9"
base64 = "=0.22.1"
chrono = { version = "=0.4.45", features = ["serde"] }
csv = "=1.4.0"
dotenvy = "=0.15.7"
rust_decimal = "=1.43.0"
sea-orm = { version = "=1.1.20", default-features = false, features = ["macros", "sqlx-postgres", "runtime-tokio-rustls", "with-chrono", "with-uuid", "with-rust_decimal"] }
serde = { version = "=1.0.229", features = ["derive"] }
serde_json = "=1.0.154"
tokio = { version = "=1.54.1", features = ["full"] }
tower-http = { version = "=0.6.11", features = ["cors"] }
utoipa = { version = "=5.5.0", features = ["chrono", "uuid", "decimal"] }
utoipa-axum = "=0.2.0"
uuid = { version = "=1.29.0", features = ["v4"] }
sea-orm-migration = { version = "=1.1.20", default-features = false, features = ["sqlx-postgres", "runtime-tokio-rustls"] }
tower-oauth2-resource-server = "*"
