[package]
name = "coworkany"
version = "0.1.0"
edition = "2021"
publish = false

[dependencies]
similar = "2"
sha2 = "0.10"
uuid = { version = "1", features = ["v4"] }
chrono = "0.4"
url = "2"
serde = { version = "1", features = ["derive"] }
serde_json = "1"
dirs = "5"
ureq = "2"
