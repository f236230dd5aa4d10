[package]
name = "iamreader"
version = "0.1.0"
edition = "2021"
publish = false

[dependencies]
anyhow = "1"
chrono = "0.4"
clap = { version = "4", features = ["derive"] }
cpal = "0.15"
crossbeam-channel = "0.5"
ctrlc = "3"
hound = "3"
id3 = "1"
libc = "0.2"
log = "0.4"
mp3lame-encoder = "0.2"
num-complex = "0.4"
num_cpus = "1"
ort = { version = "2.0.0-rc.10", default-features = false, features = ["std", "ndarray", "load-dynamic"] }
realfft = "3"
rodio = "0.20"
rust-embed = "8"
serde = { version = "1", features = ["derive"] }
serde_json = "1"
tempfile = "3"
whisper-rs = "0.15"
