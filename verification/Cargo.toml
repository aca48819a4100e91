[package]
name = "wooting_analog_midi"
version = "0.1.0"
edition = "2021"
publish = false

[dependencies]
anyhow = "=1.0.104"
ctrlc = "=3.5.2"
env_logger = "=0.11.11"
flume = "=0.11.1"
log = "=0.4.34"
midir = "=0.10.4"
serde = { version = "=1.0.229", features = ["derive"] }
serde_json = "=1.0.151"
