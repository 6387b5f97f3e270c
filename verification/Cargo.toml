[package]
name = "recipe_decider"
version = "0.1.0"
edition = "2021"
publish = false

[dependencies]
rand = "*"
anyhow = "*"
serde = { version = "*", features = ["derive"] }
serde_json = "*"
