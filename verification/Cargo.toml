[package]
name = "laser_pro_engraver"
version = "0.1.0"
edition = "2021"
publish = false

[dependencies]
serialport = { version = "4", default-features = false }
chrono = "0.4"
hostname = "*"
dirs = "*"
serde = { version = "1", features = ["derive"] }
serde_json = "1"
