[package]
name = "lzeditor"
version = "0.1.0"
edition = "2021"
publish = false

[dependencies]
rusqlite = { version = "*", features = ["bundled"] }

[dev-dependencies]
regex = "*"
urlencoding = "*"
