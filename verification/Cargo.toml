[package]
name = "rootmos_bot"
version = "0.1.0"
edition = "2021"
publish = false

[dependencies]
time = "=0.3.55"
chrono = { version = "=0.4.45", features = ["serde"] }
regex = "*"
sha2 = "=0.11.0"
serde = { version = "*", features = ["derive"] }
serde_json = "*"
lazy_static = "*"
schedule_recv = "=0.1.0"
