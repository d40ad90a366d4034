[package]
name = "air_mouse"
version = "0.1.0"
edition = "2021"
publish = false

[dependencies]
anyhow = "1"
enigo = { version = "0.2", default-features = false, features = ["x11rb"] }
evdev = "0.12"
serde = { version = "1", features = ["derive"] }
serde_json = "1"
