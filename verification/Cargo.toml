[package]
name = "leben_asm"
version = "0.1.0"
edition = "2021"
publish = false

[dependencies]
anyhow = "1"
clap = { version = "4", features = ["derive"] }
crossterm = "0.25"
tui = { version = "0.19", default-features = false, features = ["crossterm"] }
