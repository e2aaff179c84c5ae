[package]
name = "midi_compiler_lib"
version = "0.1.0"
edition = "2021"
publish = false

[dependencies]
midly = "*"
clap = { version = "*", features = ["derive"] }
