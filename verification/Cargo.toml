[package]
name = "catan_service"
version = "0.1.0"
edition = "2021"
publish = false

[dependencies]
rand = "0.8"
jsonwebtoken = "9"
regex = "1"
serde = { version = "1", features = ["derive"] }
serde_json = "1"
openssl = "0.10"
actix-web = "4"
tokio = { version = "1", features = ["rt-multi-thread", "macros", "sync", "time"] }
reqwest = { version = "0.11", default-features = false, features = ["json"] }
log = "0.4"
env_logger = "0.10"
flate2 = "1"
lazy_static = "1"
clap = { version = "4", features = ["derive"] }
