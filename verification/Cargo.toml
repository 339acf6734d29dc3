[package]
name = "leannet"
version = "0.1.0"
edition = "2021"
publish = false

[dependencies]
ariadne = "*"
clap = { version = "4", features = ["derive"] }
color-eyre = "0.6"
rand = "0.9"
serde = { version = "1", features = ["derive"] }
sysexits = "*"
thiserror = "*"
tokio = { version = "1", features = ["fs", "io-util", "macros", "rt-multi-thread"] }
toml = "*"
