[package]
name = "server_bot"
version = "0.1.0"
edition = "2021"
publish = false

[dependencies]
rand = "*"
serde = { version = "1", features = ["derive"] }
ron = "*"
tokio = { version = "1", features = ["macros", "rt-multi-thread", "time"] }
serenity = "0.11"
reqwest = { version = "0.11", default-features = false }
