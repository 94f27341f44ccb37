[package]
name = "pyarr"
version = "0.1.0"
edition = "2021"
publish = false

[dependencies]
anyhow = "*"
clap = { version = "*", features = ["derive"] }
cli-table = "*"
colored = "*"
confy = "*"
dialoguer = "*"
execute = "*"
lazy_static = "*"
regex = "*"
serde = { version = "*", features = ["derive"] }
serde_json = "*"
strum = { version = "*", features = ["derive"] }
