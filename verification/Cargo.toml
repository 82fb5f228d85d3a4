[package]
name = "yomichan_mobile"
version = "0.1.0"
edition = "2021"
publish = false

[dependencies]
regex = "=1.13.1"
rusqlite = { version = "=0.33.0", features = ["bundled"] }
parking_lot = "=0.12.5"
log = "=0.4.35"
yomichan_rs = { version = "=0.0.14", features = ["anki"] }
