[package]
name = "aura_pm"
version = "0.1.0"
edition = "2021"
publish = false

[dependencies]
clap = { version = "=4.6.7", features = ["derive"] }
serde = { version = "1", features = ["derive"] }
serde_json = { version = "1" }
simplelog = { version = "=0.12.2" }
unic-langid = { version = "=0.9.6", features = ["macros"] }
