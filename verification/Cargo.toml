[package]
name = "irl"
version = "0.1.0"
edition = "2021"
publish = false

[dependencies]
clap = "2"
main_error = "0.1"
rppal = "0.11"
serde = { version = "1", features = ["derive"] }
snafu = "0.6"
spin_sleep = "0.3"
toml = "0.5"
