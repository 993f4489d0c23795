[package]
name = "cuecard_indexer"
version = "0.1.0"
edition = "2021"
publish = false

[dependencies]
uuid = { version = "*", features = ["v4"] }
chrono = "*"
serde = { version = "*", features = ["derive"] }
serde_json = "*"
walkdir = "*"
filetime = "*"
diesel = { version = "*", features = ["sqlite"] }
libsqlite3-sys = { version = "*", features = ["bundled"] }
zip = { version = "*", default-features = false, features = ["deflate"] }
xml-rs = "*"
