[package]
name = "tempestarii"
version = "0.4.0"
edition = "2021"
publish = false

[dependencies]
clap = { version = "*", features = ["derive"] }
lazy_static = "*"
orion = "*"
regex = "*"
rustyline = "*"
serde = { version = "*", features = ["derive"] }
serde_json = "*"
shlex = "*"
tokio = { version = "*", features = ["full"] }
