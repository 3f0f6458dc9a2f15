[package]
name = "whload"
version = "0.1.0"
edition = "2021"
publish = false

[dependencies]
rusqlite = { version = "=0.40.2", features = ["bundled", "fallible_uint"] }
serde_json = "=1.0.151"
msvc-demangler = "=0.11.0"
clap = { version = "=4.6.7", features = ["derive"] }
