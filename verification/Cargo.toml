[package]
name = "oyun_kafe_yonetim"
version = "0.1.0"
edition = "2021"
publish = false

[dependencies]
chrono = "=0.4.45"
ed25519-dalek = "=2.2.0"
sha2 = "=0.10.9"
argon2 = { version = "=0.5.3", features = ["std"] }
serde = { version = "=1.0.229", features = ["derive"] }
serde_json = "=1.0.154"
uuid = { version = "=1.29.0", features = ["v4"] }
rusqlite = { version = "=0.31.0", features = ["bundled"] }
reqwest = { version = "=0.12.28", default-features = false, features = ["blocking", "json", "rustls-tls"] }
tiny_http = "=0.12.0"
csv = "=1.4.0"
dirs = "=5.0.1"
local-ip-address = "=0.6.13"
winreg = "=0.52.0"
