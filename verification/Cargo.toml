[package]
name = "pixterm"
version = "0.1.0"
edition = "2021"
publish = false

[dependencies]
crossterm = "*"
flate2 = "*"
png = "*"
serde = { version = "1", features = ["derive"] }
serde_json = "1"
