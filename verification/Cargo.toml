[package]
name = "tuxscale"
version = "0.1.0"
edition = "2021"
publish = false

[dependencies]
serde = { version = "=1.0.229", features = ["derive"] }
serde_json = "=1.0.154"
tokio = { version = "=1.54.1", features = ["process"] }
iced = { version = "=0.14.0", default-features = false, features = ["tokio", "tiny-skia", "x11"] }
tray-icon = "=0.26.1"
image = { version = "=0.25.10", default-features = false, features = ["png"] }
