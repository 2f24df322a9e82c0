[package]
name = "terax"
version = "0.1.0"
edition = "2021"
publish = false

[dependencies]
reqwest = { version = "*", default-features = false, features = ["json"] }
serde = { version = "*", features = ["derive"] }
serde_json = "*"
rusqlite = { version = "*", features = ["bundled"] }
dirs = "*"
tokio = { version = "*", features = ["time", "rt", "macros"] }
libc = "*"
log = "*"

[dev-dependencies]
tempfile = "*"
