[package]
name = "mynotes"
version = "0.1.0"
edition = "2021"
publish = false

[dependencies]
chrono = "=0.4.45"
csv = "=1.4.0"
dirs = "=7.0.0"
serde = { version = "1", features = ["derive"] }
serde_json = "=1.0.151"
strsim = "=0.11.1"
