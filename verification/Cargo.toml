[package]
name = "tree_hoprs"
version = "0.1.0"
edition = "2021"
publish = false

[dependencies]
anyhow = "*"
clap = { version = "*", features = ["derive"] }
comfy-table = "*"
dialoguer = "*"
serde = { version = "*", features = ["derive"] }
serde_json = "*"
