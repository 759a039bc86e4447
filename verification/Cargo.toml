[package]
name = "regex_chain"
version = "0.1.0"
edition = "2021"
publish = false

[dependencies]
clap = { version = "4", features = ["derive"] }
regex = "1"
reqwest = { version = "*", features = ["blocking"] }
url = "2"
