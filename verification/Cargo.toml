[package]
name = "adguard-cli-gui"
version = "0.1.0"
edition = "2021"
publish = false

[dependencies]
regex = "=1.13.1"
tokio = { version = "=1.54.1", features = ["rt"] }
iced = { version = "=0.14.0", default-features = false, features = ["tiny-skia", "tokio", "x11"] }
