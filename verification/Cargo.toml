[package]
name = "url_balancing"
version = "0.1.0"
edition = "2021"
publish = false

[dependencies]
async-trait = "0.1"
axum = "0.7"
redis = { version = "0.25", features = ["tokio-comp"] }
sea-orm = { version = "0.12", default-features = false, features = ["macros", "sqlx-mysql", "runtime-tokio-rustls"] }
sea-orm-migration = { version = "0.12", default-features = false, features = ["sqlx-mysql", "runtime-tokio-rustls"] }
serde = { version = "1", features = ["derive"] }
thiserror = "1"
tokio = { version = "1", features = ["full"] }
url = "2"
