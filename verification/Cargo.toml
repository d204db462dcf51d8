[package]
name = "open_space"
version = "0.1.0"
edition = "2021"
publish = false

[dependencies]
rand = "0.8"
serde = { version = "1", features = ["derive"] }
serde_json = "1"
tokio = { version = "1", features = ["sync"] }
libc = "0.2"
dcmimu = "*"
ar-drivers = "*"
objc2 = "0.5"
objc2-foundation = "0.2"
dispatch2 = "*"
core-foundation = "0.9"
core-graphics2 = "*"
core-media = "*"
core-video = "*"
screen-capture-kit = "*"
