[package]
name = "pastebin"
version = "0.1.0"
edition = "2021"
publish = false

[dependencies]
linked-hash-map = "0.5"
rand = "0.9"
gpw = "0.1"
parking_lot = "0.12"
actix-web = { version = "4", default-features = false, features = ["macros", "compress-gzip", "compress-brotli"] }
bytes = { version = "1", features = ["serde"] }
argh = "0.1"
dotenv = "0.15"
futures = "0.3"
log = "0.4"
pretty_env_logger = "0.5"
serde = { version = "1", features = ["derive"] }
