[package]
name = "scouting"
version = "0.1.0"
edition = "2021"
publish = false

[dependencies]
actix-web = { version = "4", default-features = false, features = ["macros"] }
actix-web-httpauth = "0.6"
askama = "0.11"
charts = "0.3"
diesel = { version = "1.4", features = ["sqlite", "r2d2"] }
diesel-derive-enum = { version = "1", features = ["sqlite"] }
log = "0.4"
pretty_env_logger = "0.4"
r2d2 = "0.8"
serde = { version = "1", features = ["derive"] }
svg = "0.7"
thiserror = "1"
