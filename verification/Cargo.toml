[package]
name = "doodlai"
version = "0.1.0"
edition = "2021"
publish = false

[dependencies]
serde = { version = "=1.0.229", features = ["derive"] }
ron = "=0.8.1"
serde_json = "=1.0.154"
log = "=0.4.35"
neat = { version = "=1.0.2", features = ["serde"] }
bevy = { version = "=0.17.3", default-features = false }
genetic-rs-extras = { version = "=0.1.1", features = ["indicatif", "plotters"] }
plotters = { version = "=0.3.7", default-features = false, features = ["svg_backend"] }
