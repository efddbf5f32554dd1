[package]
name = "bgxiong_clear_helper"
version = "0.2.0"
edition = "2021"
publish = false

[dependencies]
rayon = "1"
walkdir = "2"
windows = { version = "0.58", features = ["Win32_Foundation", "Win32_Security", "Win32_System_Threading", "Win32_System_Registry", "Win32_UI_Shell", "Win32_UI_WindowsAndMessaging"] }
