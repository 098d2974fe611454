[package]
name = "webrtcperf_vmaf_utils"
version = "0.1.0"
edition = "2021"
publish = false

[dependencies]
clap = { version = "*", features = ["derive"] }
crossbeam-channel = "*"
ctrlc = "*"
env_logger = "*"
ffmpeg-next = "*"
flate2 = "*"
image = "*"
log = "*"
reqwest = { version = "*", default-features = false, features = ["blocking"] }
tesseract-rs = "*"
