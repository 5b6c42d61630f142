[package]
name = "offline_translator"
version = "0.1.0"
edition = "2021"
publish = false

[dependencies]
cld2 = "*"
flate2 = "*"
serde = { version = "1", features = ["derive"] }
serde_json = "1"
whoami = "*"
env_logger = "*"
glow = "*"
image = "*"
qmetaobject = "*"
cpp = "*"
