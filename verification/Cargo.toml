[package]
name = "midi_osc_replay"
version = "0.1.0"
edition = "2021"
publish = false

[dependencies]
midly = { version = "0.5", default-features = false, features = ["alloc", "std"] }
rosc = "*"
clap = { version = "4", features = ["derive"] }
tracing = "0.1"
tracing-subscriber = "0.3"
