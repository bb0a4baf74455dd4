[package]
name = "makewiz"
version = "0.1.0"
edition = "2021"
publish = false

[dependencies]
clap = { version = "*", features = ["derive"] }
clap_complete = "*"
directories = "*"
serde = { version = "*", features = ["derive"] }
toml = "*"
