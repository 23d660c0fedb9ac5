[package]
name = "qr_render"
version = "0.1.0"
edition = "2021"
publish = false

[dependencies]
image = "*"
qrc = "*"
moka = { version = "*", features = ["sync"] }
actix-web = "*"
reqwest = { version = "*", default-features = false }
serde = { version = "*", features = ["derive"] }
serde_json = "*"
env_logger = "*"
