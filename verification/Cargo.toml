[package]
name = "typpkg"
version = "0.1.0"
edition = "2021"
publish = false

[dependencies]
anyhow = "1"
clap = { version = "4", features = ["derive"] }
clap-verbosity-flag = "*"
directories = "*"
image = { version = "0.25", default-features = false, features = ["png"] }
image_hasher = "*"
log = "0.4"
serde = { version = "1", features = ["derive"] }
simplelog = "0.12"
toml = "*"
walkdir = "2"
wax = "0.6"
