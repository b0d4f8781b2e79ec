[package]
name = "bo"
version = "0.3.3"
edition = "2021"
publish = false

[dependencies]
unicode-segmentation = "1"
termion = "1.5"
structopt = "0.3"
serde = { version = "1", features = ["derive"] }
serde_json = "1"

[dev-dependencies]
tempfile = "3"
