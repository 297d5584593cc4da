[package]
name = "rustsn"
version = "0.7.0"
edition = "2021"
publish = false

[dependencies]
bincode = "2"
clap = "4"
once_cell = "1"
regex = "1"
reqwest = { version = "0.12", features = ["blocking", "json"] }
serde = { version = "1", features = ["derive"] }
serde_json = "1"
