[package]
name = "ptracker"
version = "0.2.0"
edition = "2021"
publish = false

[dependencies]
anyhow = "1"
chrono = "0.4"
clap = { version = "4", features = ["derive"] }
comfy-table = "7"
ctrlc = "3"
dirs = "5"
notify = "6"
serde = { version = "1", features = ["derive"] }
serde_json = "1"
uuid = { version = "1", features = ["v4"] }
