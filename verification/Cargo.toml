[package]
name = "prefset"
version = "0.1.0"
edition = "2021"
publish = false

[dependencies]
anyhow = "1"
clap = { version = "4", features = ["derive"] }
indoc = "2"
objc2 = "*"
objc2-app-kit = "*"
objc2-foundation = "*"
plist = "1"
toml = "*"
