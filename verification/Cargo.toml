[package]
name = "drawbridge_vpn"
version = "0.1.0"
edition = "2021"
publish = false

[dependencies]
anyhow = "1"
block2 = "*"
chromiumoxide = { version = "0.7", default-features = false, features = ["tokio-runtime"] }
dirs = "*"
dispatch2 = "*"
eframe = { version = "0.37", default-features = false, features = ["default_fonts", "glow", "x11"] }
egui_extras = { version = "0.37", default-features = false }
futures = "0.3"
keyring = { version = "3", features = ["apple-native"] }
objc2 = "*"
objc2-app-kit = "*"
objc2-foundation = "*"
objc2-web-kit = "*"
serde = { version = "1", features = ["derive"] }
serde_json = "1"
tokio = { version = "1", features = ["rt-multi-thread", "time", "sync", "macros"] }
totp-rs = "5"
uuid = { version = "1", features = ["v4"] }
