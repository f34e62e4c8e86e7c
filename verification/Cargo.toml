[package]
name = "prismarine"
version = "0.1.0"
edition = "2021"
publish = false

[dependencies]
clap = { version = "*", features = ["derive"] }
colored = "*"
dotenvy = "*"
flexver-rs = "*"
ignore = "*"
serde = { version = "*", features = ["derive"] }
toml = "*"
zip = { version = "*", default-features = false }
