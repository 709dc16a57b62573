[package]
name = "jamo_compose"
version = "0.1.0"
edition = "2021"
publish = false

[dependencies]
regex = "1"
serde = { version = "1", features = ["derive"] }
toml = "0.8"
image = { version = "0.24", default-features = false, features = ["bmp"] }
zip = { version = "0.6", default-features = false, features = ["deflate"] }
eyre = "0.6"
