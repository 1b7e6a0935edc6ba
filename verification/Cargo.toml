[package]
name = "warthog"
version = "0.1.0"
edition = "2021"
publish = false

[dependencies]
anyhow = "1"
daemonize-me = "*"
dotenvy = "0.15"
env_logger = "*"
log = "0.4"
notify = "*"
prost = "*"
sha2 = "0.10"
sqlx = { version = "0.8", features = ["sqlite", "runtime-tokio"] }
tokio = { version = "1", features = ["full"] }
walkdir = "2"
