[package]
name = "nrsc5_studio"
version = "0.1.0"
edition = "2021"
publish = false

[dependencies]
chrono = "0.4"
ron = "0.8"
serde = { version = "1", features = ["derive"] }
rustfft = "6"
windows-sys = { version = "0.59", features = ["Win32_System_Threading"] }
