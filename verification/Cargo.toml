[package]
name = "reina_manager"
version = "0.1.0"
edition = "2021"
publish = false

[dependencies]
async-trait = "*"
blake3 = "*"
chrono = "*"
httpdate = "*"
log = "*"
reqwest = { version = "*", default-features = false }
sea-orm = { version = "*", default-features = false, features = ["macros", "sqlx-sqlite", "runtime-tokio"] }
sea-orm-migration = { version = "*", default-features = false, features = ["sqlx-sqlite", "runtime-tokio"] }
serde = { version = "*", features = ["derive"] }
serde_json = "*"
sevenz-rust2 = { version = "*", features = ["compress", "zstd"] }
sha2 = "*"
tokio = { version = "*", features = ["fs", "io-util", "macros", "net", "process", "rt-multi-thread", "sync", "time"] }
tokio-util = "*"
url = "*"
zbus = { version = "*", default-features = false, features = ["tokio"] }
zbus_systemd = { version = "*", features = ["systemd1"] }

[dev-dependencies]
tempfile = "*"
