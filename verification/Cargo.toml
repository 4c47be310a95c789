[package]
name = "ted"
version = "0.1.0"
edition = "2021"
publish = false

[dependencies]
ropey = { version = "1", default-features = false }
regex = "1"
crossterm = "0.27"
structopt = "0.3"
