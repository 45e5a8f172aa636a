[package]
name = "sunrise_brightness"
version = "0.1.0"
edition = "2021"
publish = false

[dependencies]
chrono = "=0.4.45"
serde = { version = "=1.0.229", features = ["derive"] }
toml = "=1.1.8"
directories = "=6.0.0"
anyhow = "1"
reqwest = { version = "0.12", default-features = false, features = ["blocking", "json", "rustls-tls"] }
solar-positioning = "=0.7.2"
brightness = { version = "=0.8.0", features = ["blocking"] }
eframe = { version = "*", default-features = false, features = ["glow", "x11"] }
