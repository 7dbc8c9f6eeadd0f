[package]
name = "harfbuzz_buffer"
version = "0.1.0"
edition = "2021"
publish = false

[dependencies]
unicode-script = "0.5"
