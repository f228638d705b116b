[package]
name = "rsbflib"
version = "0.1.0"
edition = "2021"
publish = false

[dependencies]
cranelift = "=0.134.4"
target-lexicon = "=0.13.5"
clap = { version = "=4.6.7", features = ["derive"] }
subprocess = "=1.2.1"
memmap2 = "=0.9.11"
