[package]
name = "databeam"
version = "0.1.0"
edition = "2021"
publish = false

[dependencies]
dirs = "6"
eframe = { version = "0.31", default-features = false, features = ["default_fonts", "glow", "x11"] }
egui = "0.31"
flate2 = "1"
image = { version = "0.25", default-features = false, features = ["png"] }
libc = "0.2"
open = "5"
qrcode = { version = "0.14", default-features = false }
raw-window-handle = "0.6"
rfd = { version = "0.15", default-features = false, features = ["xdg-portal", "tokio"] }
serde = { version = "1", features = ["derive"] }
serde_json = "1"
single-instance = "0.3"
tar = { version = "0.4", default-features = false }
tempfile = "3"
tokio = { version = "1", features = ["rt-multi-thread", "sync", "time"] }
which = "7"
windows-sys = { version = "0.59", features = ["Win32_Foundation", "Win32_UI_WindowsAndMessaging"] }
zip = { version = "2", default-features = false, features = ["deflate"] }
