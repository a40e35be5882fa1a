[package]
name = "photocopy"
version = "0.1.0"
edition = "2021"
publish = false

[dependencies]
eframe = { version = "=0.36.2", default-features = false, features = ["glow", "x11", "default_fonts"] }
egui = "=0.36.2"
windows = { version = "=0.58.0", features = ["Win32_Foundation", "Win32_Storage_FileSystem"] }
