[package]
name = "passgen"
version = "0.1.0"
edition = "2021"
publish = false

[dependencies]
rand = "0.8"
secrecy = "0.8"
clap = { version = "4", features = ["derive"] }
console = "0.15"
atty = "0.2"
ctrlc = "3"
