[package]
name = "kiosk"
version = "0.1.0"
edition = "2021"
publish = false

[dependencies]
chrono = "0.4"
fontdue = "0.9"
libc = "0.2"
minifb = "0.27"
rand = "0.9"
reqwest = { version = "0.12", default-features = false, features = ["blocking", "json", "rustls-tls"] }
serde = { version = "1", features = ["derive"] }
serde_json = "1"
x11rb = { version = "0.13", features = ["xfixes"] }
