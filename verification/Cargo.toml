[package]
name = "dirlist"
version = "0.1.0"
edition = "2021"
publish = false

[dependencies]
actix-web = { version = "4", default-features = false, features = ["macros"] }
chrono = "=0.4.45"
get_if_addrs = "=0.5.3"
rand = "=0.8.8"
walkdir = "=2.5.0"

[dev-dependencies]
serde_json = "=1.0.151"
