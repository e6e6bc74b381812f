[package]
name = "music_keyboard"
version = "0.1.0"
edition = "2021"
publish = false

[dependencies]
midly = { version = "=0.5.3", default-features = false, features = ["std"] }
serde_json = "=1.0.154"
rayon = "=1.12.0"
rodio = { version = "=0.20.1", default-features = false }
image = { version = "=0.25.10", default-features = false, features = ["ico"] }
