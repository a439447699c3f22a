[package]
name = "shinydir"
version = "0.1.0"
edition = "2021"
publish = false

[dependencies]
regex = "1"
shellexpand = "*"
anyhow = "1"
clap = { version = "4", features = ["derive"] }
colored = "*"
directories = "*"
serde = { version = "1", features = ["derive"] }
toml = "*"
