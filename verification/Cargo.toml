[package]
name = "vispeak"
version = "0.1.0"
edition = "2021"
publish = false

[dependencies]
base64 = "0.22"
image = { version = "0.25", default-features = false, features = ["png"] }
serde = { version = "1", features = ["derive"] }
serde_json = "1"
chrono = "0.4"
hound = "3.5"
rusqlite = { version = "0.31", features = ["bundled"] }
directories = "5"
crossbeam-channel = "0.5"
lazy_static = "1.4"
num_cpus = "1"
