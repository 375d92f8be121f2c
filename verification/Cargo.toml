[package]
name = "wavetable"
version = "0.1.0"
edition = "2021"
publish = false

[dependencies]
hound = "3.5"
rustc_apfloat = "0.2"
const_soft_float = "0.1"
rodio = { version = "0.16", default-features = false }
