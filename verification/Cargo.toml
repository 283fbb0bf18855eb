[package]
name = "deskctl"
version = "0.1.0"
edition = "2021"
publish = false

[dependencies]
chrono = "0.4"
clap = "2"
failure = "0.1"
idasen = "*"
itertools = "0.10"
serde = { version = "1", features = ["derive"] }
shellexpand = "*"
tokio = { version = "1", features = ["macros", "rt-multi-thread"] }
toml = "0.5"
