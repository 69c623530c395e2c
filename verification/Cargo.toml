[package]
name = "fm-synth"
version = "0.1.0"
edition = "2021"
publish = false

[dependencies]
clap = { version = "4", features = ["derive"] }
hound = "3"
png = "0.17"
rustfft = "6"
serde = { version = "1", features = ["derive"] }
serde_json = "1"
toml = "0.8"
