[package]
name = "padoracle"
version = "0.1.0"
edition = "2021"
publish = false

[dependencies]
base64 = "0.13"
hex = "0.4"
clap = "2.33"
crossbeam = "0.7"
crossterm = "0.14"
tui = { version = "0.8", default-features = false, features = ["crossterm"] }
log = "0.4"
simplelog = "0.7"
snafu = "0.6"

[dev-dependencies]
aes = "0.8"
