[package]
name = "qrlan"
version = "0.1.0"
edition = "2021"
publish = false

[dependencies]
qrcode = { version = "*", default-features = false }
hex = "*"
heck = "*"
regex = "*"
image = { version = "*", default-features = false, features = ["png", "jpeg"] }
clap = { version = "*", features = ["derive"] }
dirs = "*"
reqwest = { version = "*", default-features = false, features = ["blocking", "json"] }
serde = { version = "*", features = ["derive"] }
