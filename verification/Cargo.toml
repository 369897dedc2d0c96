[package]
name = "claude_usage"
version = "0.3.1"
edition = "2021"
publish = false

[dependencies]
aes = "=0.8.4"
aes-gcm = { version = "0.10", default-features = false, features = ["aes", "alloc"] }
cbc = { version = "=0.1.2", features = ["block-padding"] }
pbkdf2 = { version = "=0.12.2", features = ["hmac"] }
sha1 = "=0.10.7"
chrono = "=0.4.45"
serde = { version = "=1.0.229", features = ["derive"] }
serde_json = "=1.0.154"
ureq = "=3.5.1"
rusqlite = { version = "=0.32.1", features = ["bundled"] }
tempfile = "=3.27.0"
open = "=5.3.6"
x11rb = { version = "=0.13.2", features = ["screensaver"] }
eframe = { version = "=0.31.1", default-features = false, features = ["glow", "x11", "default_fonts"] }
