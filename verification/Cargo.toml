[package]
name = "hello_relay"
version = "0.1.0"
edition = "2021"
publish = false

[dependencies]
actix-web = { version = "=1.0.9", default-features = false, features = ["flate2-rust"] }
awc = { version = "=0.2.8", default-features = false, features = ["ssl"] }
bytes = "=0.4.12"
chrono = "=0.4.19"
env_logger = "=0.6.2"
futures = "=0.1.31"
log = "0.4"
