[package]
name = "cryptfm"
version = "0.1.0"
edition = "2021"
publish = false

[dependencies]
chrono = "0.4"
clap = { version = "4", features = ["derive"] }
crossterm = "0.25"
rpassword = "7"
tui = "0.19"
tui-textarea = "0.2"
