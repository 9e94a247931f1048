[package]
name = "climax"
version = "0.1.0"
edition = "2021"
publish = false

[dependencies]
libc = "*"
serde = { version = "*", features = ["derive"] }
serde_json = "*"
toml = "*"
unicode-width = "*"
proc-macro2 = "*"
venial = "*"
