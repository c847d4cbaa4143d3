[package]
name = "recopied"
version = "1.2.0"
edition = "2021"
publish = false

[dependencies]
sha2 = "0.10"
serde = { version = "1", features = ["derive"] }
serde_json = "1"
dirs = "5"
log = "0.4"
rusqlite = { version = "0.31", features = ["bundled"] }
notify-rust = "4"
arboard = { version = "3", default-features = false }
image = { version = "0.25", default-features = false, features = ["png"] }
