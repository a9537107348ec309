[package]
name = "lipl_store"
version = "0.1.0"
edition = "2021"
publish = false

[dependencies]
anyhow = "1"
async-trait = "0.1"
bb8-postgres = { version = "*", features = ["with-uuid-1"] }
bincode = "1"
bs58 = "0.4"
clap = { version = "4", features = ["derive"] }
env_logger = "*"
etag = "*"
futures = "0.3"
log = "0.4"
serde = { version = "1", features = ["derive"] }
serde_yaml = "0.9"
thiserror = "1"
tokio = { version = "1", features = ["macros", "rt", "time"] }
tokio-postgres = { version = "0.7", features = ["with-uuid-1"] }
uuid = { version = "1", features = ["v4"] }
warp = "0.3"
