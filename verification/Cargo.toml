[package]
name = "speech_stream"
version = "0.1.0"
edition = "2021"
publish = false

[dependencies]
clap = { version = "=4.6.7", features = ["derive"] }
# Not named in the code. tract-linalg pulls it in to build, and its later
# releases ask for a newer compiler than the one this crate is built with.
kstring = "=2.0.0"
opencc-rust = "=1.1.19"
owo-colors = "=3.5.0"
ringbuf = "=0.3.3"
rubato = "=0.14.1"
symphonia = { version = "=0.5.5", features = ["aac"] }
tract-onnx = "=0.18.5"
whisper-rs = "=0.8.0"
yt_tsu = "=0.1.1"
