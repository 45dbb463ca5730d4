[package]
name = "sketchybartender"
version = "0.1.0"
edition = "2021"
publish = false

[dependencies]
chrono = "0.4"
mach2 = "0.4"
serde = { version = "1", features = ["derive"] }
serde_json = "1"
sysinfo = "*"
