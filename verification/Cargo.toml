[package]
name = "lurk"
version = "0.1.0"
edition = "2021"

[dependencies]
crossterm = "0.27"
dotenv = "0.15"
serde_json = "1"
