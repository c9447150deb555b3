[package]
name = "tur"
version = "0.1.0"
edition = "2021"
publish = false

[dependencies]
anyhow = "=1.0.104"
clap = { version = "=4.6.7", features = ["derive"] }
console = "=0.16.6"
directories = "=6.0.0"
prettytable-rs = { version = "=0.10.0", default-features = false }
serde = { version = "=1.0.229", features = ["derive"] }
serde_yaml = "0.9"
