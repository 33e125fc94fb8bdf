[package]
name = "blarf"
version = "1.0.0"
edition = "2021"
publish = false

[dependencies]
clap = "2"
pulldown-cmark = { version = "*", default-features = false, features = ["html"] }
