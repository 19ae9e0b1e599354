[package]
name = "tasqx_core"
version = "0.1.0"
edition = "2021"
publish = false

[dependencies]
jiff = "0.2"
unicode-width = "0.2"
serde = { version = "1", features = ["derive"] }
serde_json = "1"
rusqlite = { version = "0.32", features = ["bundled"] }
