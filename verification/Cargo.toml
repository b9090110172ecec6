[package]
name = "indent_lang"
version = "0.1.0"
edition = "2021"
publish = false

[dependencies]
chrono = "*"
fern = { version = "*", features = ["colored"] }
log = "*"
