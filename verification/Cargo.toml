[package]
name = "code_file_wrapper"
version = "0.1.0"
edition = "2021"
publish = false

[dependencies]
arboard = { version = "=3.7.0", default-features = false }
clap = { version = "=4.6.7", features = ["derive"] }
clipboard-win = "=5.4.3"
eframe = { version = "=0.29.1", default-features = false, features = ["default_fonts", "glow", "x11"] }
rfd = "=0.15.4"
serde = { version = "=1.0.229", features = ["derive"] }
serde_json = "=1.0.154"
windows = { version = "=0.52.0", features = ["Win32_Foundation", "Win32_UI_WindowsAndMessaging"] }
