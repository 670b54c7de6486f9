[package]
name = "spout_core"
version = "0.1.0"
edition = "2021"
publish = false

[dependencies]
async-trait = "0.1"
chrono = { version = "=0.4.45", default-features = false, features = ["clock", "std"] }
dirs = "*"
rand = "*"
sea-orm = { version = "1", default-features = false, features = ["macros", "sqlx-sqlite", "runtime-tokio-rustls", "with-uuid"] }
sea-orm-migration = { version = "1", default-features = false, features = ["sqlx-sqlite", "runtime-tokio-rustls"] }
serde = { version = "1", features = ["derive"] }
serde_json = "1"
thiserror = "*"
tokio = { version = "1", default-features = false, features = ["fs", "io-util", "sync", "time", "rt", "macros"] }
uuid = { version = "=1.29.0", features = ["v7", "serde"] }
