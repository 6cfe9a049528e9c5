[package]
name = "hwid"
version = "0.1.0"
edition = "2021"
publish = false

[dependencies]
sha2 = "=0.10.9"
hex = "=0.4.3"
eframe = { version = "=0.36.2", default-features = false, features = ["glow", "x11", "default_fonts"] }
windows = { version = "=0.58.0", features = ["Win32_Foundation", "Win32_System_Com", "Win32_System_Variant", "Win32_System_Wmi"] }
