[package]
name = "ledmatrix_widgets"
version = "0.1.0"
edition = "2021"
publish = false

[dependencies]
serialport = { version = "4", default-features = false }
chrono = { version = "0.4", default-features = false, features = ["clock"] }
sysinfo = { version = "0.30", default-features = false }
battery = { version = "0.7" }
clap = { version = "4", features = ["derive"] }
