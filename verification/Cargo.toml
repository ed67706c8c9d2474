[package]
name = "whisperkey"
version = "0.1.0"
edition = "2021"
publish = false

[dependencies]
anyhow = "*"
bytemuck = "*"
clipboard = "*"
cpal = "*"
dialoguer = "*"
env_logger = "*"
log = "*"
rdev = "*"
reqwest = { version = "*", default-features = false, features = ["blocking", "json", "multipart"] }
serde = { version = "*", features = ["derive"] }
serde_json = "*"
toml = "*"
