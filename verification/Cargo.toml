[package]
name = "nova"
version = "0.1.0"
edition = "2021"
publish = false

[dependencies]
async-trait = "=0.1.92"
axum = "=0.7.9"
axum-server = { version = "0.7", features = ["tls-rustls"] }
etcd-client = "*"
inventory = "=0.3.25"
redis = { version = "=0.23.5", features = ["tokio-comp", "connection-manager"] }
reqwest = { version = "=0.12.28", default-features = false, features = ["json"] }
sea-orm = { version = "1", default-features = false, features = ["macros", "sqlx-sqlite", "sqlx-postgres", "runtime-tokio-rustls", "with-json"] }
sea-orm-migration = { version = "1", default-features = false }
sea-query = "*"
serde = { version = "=1.0.229", features = ["derive"] }
serde_json = "=1.0.154"
tokio = { version = "=1.54.1", features = ["sync", "time", "rt", "rt-multi-thread", "macros", "net", "signal"] }
tower-http = { version = "=0.5.2", features = ["trace", "request-id"] }
tracing = "=0.1.44"
tracing-subscriber = { version = "=0.3.23", features = ["env-filter", "fmt"] }
