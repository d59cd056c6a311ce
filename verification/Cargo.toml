[package]
name = "rust_audio_engine"
version = "2.0.0"
edition = "2021"
publish = false

[dependencies]
sha2 = "=0.10.9"
hex = "=0.4.3"
log = "=0.4.34"
env_logger = "=0.11.11"
dotenv = "=0.15.0"
crossbeam = "=0.8.5"
parking_lot = "=0.12.5"
rand = "=0.8.8"
rayon = "=1.12.0"
rustfft = "=6.4.1"
soxr = "=0.6.0"
symphonia = { version = "=0.5.5", features = ["mp3", "aac", "isomp4"] }
cpal = "=0.15.3"
wasapi = "=0.22.0"
serde = { version = "=1.0.229", features = ["derive"] }
serde_json = "=1.0.154"
tokio = { version = "=1.54.1", features = ["time"] }
actix-web = { version = "=4.18.1", default-features = false, features = ["macros"] }
actix-ws = "=0.4.0"
actix-rt = "=2.15.0"
