[package]
name = "command_tally"
version = "0.1.0"
edition = "2021"
publish = false

[dependencies]
chrono = "0.4"
colorous = "1"
plotters = "0.3"
serde_json = "1"
